//! Laws of values and texts: JSON values and their members, numerals, error texts, the
//! reading of packets, and what validation tells.
use crate::attachment;
use crate::attachment::Attachment;
use crate::client_types::ClientFailure;
use crate::codec;
use crate::crypto;
use crate::ecdh;
use crate::error;
use crate::error::Failure;
use crate::json;
use crate::json::{Json, JsonMap, Tree};
use crate::mismatch;
use crate::packet;
use crate::packet::{Body, EncryptionKind, ErrorInfo, MessageType, Packet};
use crate::server_types;
use crate::server_types::ServerFailure;
use crate::text;
use crate::validation;
use crate::validation::{ValidationError, ValidationErrors, ValidationErrorsKind, Violation};
use vstd::prelude::*;

verus! {

/// What a JSON value holds, kind by kind.
pub proof fn lemma_json_values(b: bool, u: u64, i: i64, s: String, items: Vec<Json>, map: JsonMap)
    ensures
        Json::Null@ is Null,
        Json::Bool(b)@ == Tree::Bool(b),
        Json::Unsigned(u)@ == Tree::Int(u as int),
        Json::Signed(i)@ == Tree::Int(i as int),
        Json::String(s)@ == Tree::Text(s@),
        Json::Array(items)@ matches Tree::Array(trees) && trees.len() == items@.len() && (forall|
            n: int,
        |
            0 <= n < items@.len() ==> #[trigger] trees[n] == items@[n]@),
        Json::Object(map)@ matches Tree::Object(members) && members == map@,
{
    json::lemma_item_trees(items@);
}

/// A map keeps the order in which its keys came: a new key goes to the end, and one that
/// is there keeps its place and takes the new value. Nothing else changes.
pub proof fn lemma_put_keeps_order(members: Seq<(Seq<char>, Tree)>, key: Seq<char>, value: Tree)
    ensures
        ({
            let after = json::put(members, key, value);
            &&& forall|i: int|
                0 <= i < members.len() ==> (#[trigger] after[i]).0 == members[i].0
            &&& forall|i: int|
                0 <= i < members.len() ==> (#[trigger] after[i]).1 == if members[i].0 == key {
                    value
                } else {
                    members[i].1
                }
            &&& (forall|i: int| 0 <= i < members.len() ==> (#[trigger] members[i]).0 != key)
                ==> after.len() == members.len() + 1 && after[members.len() as int] == (key, value)
            &&& (exists|i: int| 0 <= i < members.len() && (#[trigger] members[i]).0 == key)
                ==> after.len() == members.len()
        }),
{
    let after = json::put(members, key, value);
    if exists|i: int| 0 <= i < members.len() && (#[trigger] members[i]).0 == key {
        let i = choose|i: int| 0 <= i < members.len() && (#[trigger] members[i]).0 == key;
        assert(members[i].0 == key);
    }
}

/// An integer is one of the unsigned 64-bit range or none at all.
pub proof fn lemma_unsigned_integers(tree: Tree)
    ensures
        json::tree_u64(tree) matches Some(n) ==> tree == Tree::Int(n as int),
        json::tree_u64(tree) is None <==> !(tree matches Tree::Int(i) && 0 <= i
            <= 18446744073709551615),
{
}

/// A value without floats is exact; each array or object takes one level.
pub proof fn lemma_exact_values(tree: Tree, levels: nat)
    ensures
        !(tree is Float || tree is Array || tree is Object) ==> json::exact_within(tree, levels),
        tree is Float ==> !json::exact_within(tree, levels),
        tree is Array ==> (json::exact_within(tree, levels) <==> levels > 0 && forall|i: int|
            0 <= i < tree->Array_0.len() ==> json::exact_within(
                #[trigger] tree->Array_0[i],
                (levels - 1) as nat,
            )),
        tree is Object ==> (json::exact_within(tree, levels) <==> levels > 0 && forall|i: int|
            0 <= i < tree->Object_0.len() ==> json::exact_within(
                (#[trigger] tree->Object_0[i]).1,
                (levels - 1) as nat,
            )),
{
}

/// The number that decimal digits write.
pub open spec fn number_of(digits: Seq<char>) -> int
    decreases digits.len(),
{
    if digits.len() == 0 {
        0
    } else {
        10 * number_of(digits.drop_last()) + (digits.last() as int - '0' as int)
    }
}

/// A numeral is made of decimal digits that write the number, without leading zeros.
pub proof fn lemma_numeral_writes_number(n: nat)
    ensures
        number_of(text::decimal(n)) == n,
        text::decimal(n).len() > 0,
        forall|i: int|
            0 <= i < text::decimal(n).len() ==> '0' <= #[trigger] text::decimal(n)[i] <= '9',
        n > 0 ==> text::decimal(n)[0] != '0',
    decreases n,
{
    reveal_with_fuel(number_of, 2);
    let numeral = text::decimal(n);
    if n < 10 {
        assert(numeral.drop_last() =~= Seq::empty());
    } else {
        lemma_numeral_writes_number(n / 10);
        let front = text::decimal(n / 10);
        assert(numeral == front.push(text::digit(n % 10)));
        assert(numeral.drop_last() =~= front);
    }
}

/// A negative number has a minus sign in front of its numeral, any other has none.
pub proof fn lemma_signed_numerals(n: int)
    ensures
        n >= 0 ==> number_of(text::signed_decimal(n)) == n,
        n < 0 ==> text::signed_decimal(n)[0] == '-' && number_of(
            text::signed_decimal(n).subrange(1, text::signed_decimal(n).len() as int),
        ) == -n,
{
    if n >= 0 {
        lemma_numeral_writes_number(n as nat);
    } else {
        lemma_numeral_writes_number((-n) as nat);
        assert(text::signed_decimal(n).subrange(1, text::signed_decimal(n).len() as int)
            =~= text::decimal((-n) as nat));
    }
}

/// A byte is written with the prefix `0x` and one or two small hexadecimal digits.
pub proof fn lemma_hexadecimal_bytes(value: u8, d: nat)
    requires
        d < 16,
    ensures
        error::hex(value)[0] == '0',
        error::hex(value)[1] == 'x',
        value < 16 ==> error::hex(value).len() == 3 && error::hex(value)[2] == error::hex_digit(
            value as nat,
        ),
        value >= 16 ==> error::hex(value).len() == 4 && error::hex(value)[2] == error::hex_digit(
            (value / 16) as nat,
        ) && error::hex(value)[3] == error::hex_digit((value % 16) as nat),
        error::hex_digit(d) == "0123456789abcdef"@[d as int],
{
    reveal_strlit("0123456789abcdef");
}

/// The texts of the protocol's errors.
pub proof fn lemma_protocol_error_texts(a: nat, b: nat, byte: u8, text: Seq<char>)
    ensures
        Failure::FrameTooShort.text() == "frame too short"@,
        (Failure::FrameLengthMismatch { declared: a, actual: b }).text()
            == "frame length mismatch: declared="@ + text::decimal(a) + ", actual="@
            + text::decimal(b),
        (Failure::PayloadTooLarge { actual: a, max: b }).text() == "payload too large: actual="@
            + text::decimal(a) + ", max="@ + text::decimal(b),
        (Failure::FrameTooLarge { actual: a, max: b }).text() == "frame too large: actual="@
            + text::decimal(a) + ", max="@ + text::decimal(b),
        Failure::UnknownMessageType(byte).text() == "unknown message type: "@ + error::hex(byte),
        Failure::UnknownEncryption(byte).text() == "unknown encryption kind: "@ + error::hex(byte),
        Failure::UnsupportedEncryption(byte).text() == "unsupported encryption kind: "@
            + error::hex(byte),
        Failure::InvalidEncryptionKey(text).text() == "invalid encryption key for "@ + text,
        Failure::MissingEncryptionKey(text).text() == "missing encryption key for "@ + text,
        Failure::EncryptionFailed(text).text() == "encryption failed for "@ + text,
        Failure::DecryptionFailed(text).text() == "decryption failed for "@ + text,
        Failure::Random(text).text() == "secure random generation failed: "@ + text,
        Failure::EcdhHandshake(text).text() == "ECDH handshake failed: "@ + text,
        (Failure::InvalidEcdhPublicKey { expected: a, actual: b }).text()
            == "invalid ECDH public key: expected "@ + text::decimal(a) + " bytes, got "@
            + text::decimal(b),
        (Failure::EncryptedPayloadTooShort { algorithm: text, expected_min: a, actual: b }).text()
            == "encrypted payload too short for "@ + text + ": expected at least "@
            + text::decimal(a) + ", actual="@ + text::decimal(b),
        Failure::MessageTypeMismatch.text() == "message type does not match packet body"@,
        Failure::InvalidAttachmentEncoding(text).text() == "invalid attachment encoding: "@ + text,
        Failure::Json(text).text() == "json error: "@ + text,
{
}

/// The texts of the server's and the client's errors.
pub proof fn lemma_side_error_texts(text: Seq<char>, e: Failure, payload: ErrorInfo)
    ensures
        ServerFailure::Io(text).text() == "io error: "@ + text,
        ServerFailure::WebSocket(text).text() == "websocket error: "@ + text,
        ServerFailure::Protocol(e).text() == "protocol error: "@ + e.text(),
        ServerFailure::IdleTimeout(text).text() == "connection idle timeout: "@ + text,
        ServerFailure::OutboundQueueFull(text).text() == "outbound queue is full for connection "@
            + text,
        ServerFailure::Api(payload).text() == "api error: "@ + payload.debug_form("ApiError"@),
        ClientFailure::WebSocket(text).text() == "websocket error: "@ + text,
        ClientFailure::Protocol(e).text() == "protocol error: "@ + e.text(),
        ClientFailure::Disconnected.text() == "client disconnected"@,
        ClientFailure::ConnectionClosed(text).text() == "connection closed: "@ + text,
        ClientFailure::IdleTimeout.text() == "connection idle timeout"@,
        ClientFailure::Timeout.text() == "request timed out"@,
        ClientFailure::Remote(payload).text() == "remote error: "@ + payload.debug_form(
            "ErrorPayload"@,
        ),
        ClientFailure::AuthFailed(payload).text() == "authentication failed: "@
            + payload.debug_form("ErrorPayload"@),
        payload.debug_form("ErrorPayload"@) == "ErrorPayload"@ + " { code: "@ + text::debug_str(
            payload.code,
        ) + ", message: "@ + text::debug_str(payload.message) + ", status: "@ + text::decimal(
            payload.status as nat,
        ) + ", details: "@ + (if payload.details is Some {
            "Some("@ + json::value_debug(payload.details->Some_0) + ")"@
        } else {
            "None"@
        }) + " }"@,
{
}

/// The session key of a handshake is the SHA-256 digest of the tag `wscall-ecdh-v1` and
/// the shared secret.
pub proof fn lemma_session_key(shared: Seq<u8>)
    ensures
        ecdh::session_key(shared) == crypto::sha256(
            seq![
                'w' as u8,
                's' as u8,
                'c' as u8,
                'a' as u8,
                'l' as u8,
                'l' as u8,
                '-' as u8,
                'e' as u8,
                'c' as u8,
                'd' as u8,
                'h' as u8,
                '-' as u8,
                'v' as u8,
                '1' as u8,
            ] + shared,
        ),
{
    assert(ecdh::ECDH_DOMAIN_TAG@ =~= seq![
        'w' as u8,
        's' as u8,
        'c' as u8,
        'a' as u8,
        'l' as u8,
        'l' as u8,
        '-' as u8,
        'e' as u8,
        'c' as u8,
        'd' as u8,
        'h' as u8,
        '-' as u8,
        'v' as u8,
        '1' as u8,
    ]);
}

/// The value at an optional key, null where there is none.
pub open spec fn value_or_null(members: Seq<(Seq<char>, Tree)>, key: Seq<char>) -> Tree {
    if json::member(members, key) is Some {
        json::member(members, key)->Some_0
    } else {
        Tree::Null
    }
}

/// An object with the tag of a request, an id and a route is read as that request;
/// params and metadata may be left out.
pub proof fn lemma_request_is_read(members: Seq<(Seq<char>, Tree)>, id: u64, route: Seq<char>)
    requires
        json::member(members, "k"@) == Some(Tree::Int(0)),
        json::member(members, "i"@) == Some(Tree::Int(id as int)),
        json::member(members, "r"@) == Some(Tree::Text(route)),
        json::member(members, "a"@) is None,
    ensures
        packet::read_body(Tree::Object(members)) matches Ok(Body::ApiRequest {
            request_id,
            route: wanted,
            params,
            attachments,
            metadata,
        }) && request_id == id && wanted == route && params == value_or_null(members, "p"@)
            && attachments.len() == 0 && metadata == value_or_null(members, "m"@),
{
}

/// An object with the tag of an event, an id and a name is read as that event; data and
/// metadata may be left out, and only a `true` asks for an acknowledgement.
pub proof fn lemma_event_is_read(members: Seq<(Seq<char>, Tree)>, id: u64, name: Seq<char>)
    requires
        json::member(members, "k"@) == Some(Tree::Int(1)),
        json::member(members, "i"@) == Some(Tree::Int(id as int)),
        json::member(members, "n"@) == Some(Tree::Text(name)),
        json::member(members, "a"@) is None,
        json::member(members, "d"@) is None || json::member(members, "d"@)->Some_0 is Object,
    ensures
        packet::read_body(Tree::Object(members)) matches Ok(Body::EventEmit {
            event_id,
            name: title,
            data,
            attachments,
            metadata,
            expect_ack,
        }) && event_id == id && title == name && data == (if json::member(members, "d"@) is Some {
            json::member(members, "d"@)->Some_0->Object_0
        } else {
            Seq::empty()
        }) && attachments.len() == 0 && metadata == value_or_null(members, "m"@) && (expect_ack
            <==> json::member(members, "e"@) == Some(Tree::Bool(true))),
{
}

/// An object with the tag of a response and an id is read as that response. A status
/// that is left out is 0, one over 65535 is cut to 16 bits, and only a `true` is success.
pub proof fn lemma_response_is_read(members: Seq<(Seq<char>, Tree)>, id: u64)
    requires
        json::member(members, "k"@) == Some(Tree::Int(2)),
        json::member(members, "i"@) == Some(Tree::Int(id as int)),
        json::member(members, "er"@) is None,
    ensures
        packet::read_body(Tree::Object(members)) matches Ok(Body::ApiResponse {
            request_id,
            ok,
            status,
            data,
            error,
            metadata,
        }) && request_id == id && (ok <==> json::member(members, "o"@) == Some(Tree::Bool(true)))
            && data == value_or_null(members, "d"@) && error is None && metadata == value_or_null(
            members,
            "m"@,
        ) && (json::member(members, "s"@) is None ==> status == 0) && (json::member(members, "s"@)
            matches Some(Tree::Int(n)) ==> (0 <= n <= u64::MAX ==> status == n % 65536)),
{
}

/// An object with the tag of an acknowledgement and an id is read as that
/// acknowledgement.
pub proof fn lemma_acknowledgement_is_read(members: Seq<(Seq<char>, Tree)>, id: u64)
    requires
        json::member(members, "k"@) == Some(Tree::Int(3)),
        json::member(members, "i"@) == Some(Tree::Int(id as int)),
        json::member(members, "er"@) is None,
    ensures
        packet::read_body(Tree::Object(members)) matches Ok(Body::EventAck {
            event_id,
            ok,
            receipt,
            error,
        }) && event_id == id && (ok <==> json::member(members, "o"@) == Some(Tree::Bool(true)))
            && receipt == value_or_null(members, "rc"@) && error is None,
{
}

/// The members say no integer of the unsigned 64-bit range at a key.
pub open spec fn has_no_number(members: Seq<(Seq<char>, Tree)>, key: Seq<char>) -> bool {
    !(json::member(members, key) matches Some(Tree::Int(n)) && 0 <= n <= u64::MAX)
}

/// What is not read as a packet body: anything but an object, an object without a known
/// tag or without an id, a request without a route, and an event without a name or with
/// data that is no object.
pub proof fn lemma_unreadable_bodies(tree: Tree, members: Seq<(Seq<char>, Tree)>)
    ensures
        !(tree is Object) ==> packet::read_body(tree) is Err,
        has_no_number(members, "k"@) ==> packet::read_body(Tree::Object(members)) is Err,
        json::member(members, "k"@) matches Some(Tree::Int(k)) && k > 3 ==> packet::read_body(
            Tree::Object(members),
        ) is Err,
        has_no_number(members, "i"@) ==> packet::read_body(Tree::Object(members)) is Err,
        json::member(members, "k"@) == Some(Tree::Int(0)) && !(json::member(members, "r"@) matches
            Some(Tree::Text(_))) ==> packet::read_body(Tree::Object(members)) is Err,
        json::member(members, "k"@) == Some(Tree::Int(1)) && !(json::member(members, "n"@) matches
            Some(Tree::Text(_))) ==> packet::read_body(Tree::Object(members)) is Err,
        json::member(members, "k"@) == Some(Tree::Int(1)) && (json::member(members, "d"@) matches
            Some(data) && !(data is Object)) ==> packet::read_body(Tree::Object(members)) is Err,
{
}

/// A JSON text that is parsed is read as the body that its value stands for.
pub proof fn lemma_text_is_read(text: Seq<u8>, tree: Tree)
    requires
        json::json_parse(text) == Ok::<Tree, Seq<char>>(tree),
    ensures
        codec::read_text(text) == packet::read_body(tree),
{
    reveal(codec::read_text);
}

/// The JSON form of an attachment: its three texts, and its data as an array of numbers.
pub proof fn lemma_json_form_of_attachment(file: Attachment)
    ensures
        file.tree() matches Tree::Object(members) && members.len() == 4 && members[0] == (
            "id"@,
            Tree::Text(file.id),
        ) && members[1] == ("name"@, Tree::Text(file.name)) && members[2] == (
            "content_type"@,
            Tree::Text(file.content_type),
        ) && members[3].0 == "data"@ && (members[3].1 matches Tree::Array(items) && items.len()
            == file.data.len() && forall|i: int|
            0 <= i < items.len() ==> #[trigger] items[i] == Tree::Int(file.data[i] as int)),
{
}

/// The JSON form of an envelope: the names of its type and of its mode, and its body.
pub proof fn lemma_json_form_of_envelope(packet: Packet)
    ensures
        packet.tree() matches Tree::Object(members) && members.len() == 3 && members[0] == (
            "message_type"@,
            Tree::Text(
                match packet.message_type {
                    MessageType::Api => "Api"@,
                    MessageType::Event => "Event"@,
                },
            ),
        ) && members[1] == (
            "encryption"@,
            Tree::Text(
                match packet.encryption {
                    EncryptionKind::Plaintext => "None"@,
                    EncryptionKind::ChaCha20 => "ChaCha20"@,
                    EncryptionKind::Aes256 => "Aes256"@,
                },
            ),
        ) && members[2] == ("body"@, packet.body.tree()),
{
}

/// Of several faults the first in the order of the members is told; there is none where
/// no member has one.
pub proof fn lemma_first_fault_is_told(
    members: Seq<(Seq<char>, Tree)>,
    fault: spec_fn(Seq<char>, Tree) -> Option<Seq<char>>,
    n: int,
)
    requires
        0 <= n < members.len(),
        forall|i: int|
            0 <= i < n ==> fault((#[trigger] members[i]).0, members[i].1) is None,
        fault(members[n].0, members[n].1) is Some,
    ensures
        mismatch::first_fault(members, fault) == fault(members[n].0, members[n].1),
    decreases members.len(),
{
    let front = members.drop_last();
    if n < front.len() {
        assert forall|i: int| 0 <= i < n implies fault(
            (#[trigger] front[i]).0,
            front[i].1,
        ) is None by {
            assert(front[i] == members[i]);
        }
        assert(front[n] == members[n]);
        lemma_first_fault_is_told(front, fault, n);
    } else {
        assert forall|i: int| 0 <= i < front.len() implies fault(
            (#[trigger] front[i]).0,
            front[i].1,
        ) is None by {
            assert(front[i] == members[i]);
        }
        lemma_no_fault_is_told(front, fault);
    }
}

proof fn lemma_no_fault_is_told(
    members: Seq<(Seq<char>, Tree)>,
    fault: spec_fn(Seq<char>, Tree) -> Option<Seq<char>>,
)
    requires
        forall|i: int|
            0 <= i < members.len() ==> fault((#[trigger] members[i]).0, members[i].1) is None,
    ensures
        mismatch::first_fault(members, fault) is None,
    decreases members.len(),
{
    if members.len() > 0 {
        let front = members.drop_last();
        assert forall|i: int| 0 <= i < front.len() implies fault(
            (#[trigger] front[i]).0,
            front[i].1,
        ) is None by {
            assert(front[i] == members[i]);
        }
        lemma_no_fault_is_told(front, fault);
        assert(members.last() == members[members.len() - 1]);
    }
}

/// A variant is its name, or an object with the name as its only key and null.
pub proof fn lemma_variant_is_its_name(tree: Tree, names: Seq<&str>, name: Seq<char>)
    ensures
        mismatch::variant_in(tree, names) == Ok::<Seq<char>, Seq<char>>(name) <==> (exists|i: int|
            0 <= i < names.len() && (#[trigger] names[i])@ == name) && (tree == Tree::Text(name) || (
        tree matches Tree::Object(members) && members.len() == 1 && members[0] == (
            name,
            Tree::Null,
        ))),
{
    if let Tree::Object(members) = tree {
        if members.len() == 1 && members[0].0 == name && members[0].1 is Null {
            assert(members[0] == (name, Tree::Null));
        }
    }
}

/// A validation succeeds exactly where the value is valid; else it tells the violation.
pub proof fn lemma_validation_outcome(
    r: Result<(), ValidationError>,
    valid: bool,
    violation: Violation,
)
    requires
        validation::outcome(r, valid, violation),
    ensures
        r is Ok <==> valid,
        r matches Err(e) ==> {
            &&& e@.code == violation.code
            &&& e@.message == violation.message
            &&& e@.params == violation.params
        },
{
}

/// A violation has the code, the message and the parameters that it was made of.
pub proof fn lemma_violations(
    code: Seq<char>,
    message: Seq<char>,
    params: Seq<(Seq<char>, Tree)>,
)
    ensures
        validation::plain_violation(code, message).code == code,
        validation::plain_violation(code, message).message == Some(message),
        validation::plain_violation(code, message).params.len() == 0,
        validation::violation(code, message, params).code == code,
        validation::violation(code, message, params).message == Some(message),
        validation::violation(code, message, params).params == params,
{
}

/// The classes of the ASCII characters, by their numbers.
pub proof fn lemma_ascii_classes(c: char)
    requires
        (c as int) < 128,
    ensures
        validation::char_whitespace(c) <==> c as int == 32 || 9 <= c as int <= 13,
        validation::char_alphabetic(c) <==> 65 <= c as int <= 90 || 97 <= c as int <= 122,
        validation::char_numeric(c) <==> 48 <= c as int <= 57,
        validation::is_ascii_digit(c) <==> 48 <= c as int <= 57,
        validation::char_alphanumeric(c) <==> 48 <= c as int <= 57 || 65 <= c as int <= 90 || 97
            <= c as int <= 122,
        validation::char_lowercase(c) <==> 97 <= c as int <= 122,
        validation::is_ascii_small(c) <==> 97 <= c as int <= 122,
        validation::char_uppercase(c) <==> 65 <= c as int <= 90,
        validation::is_ascii_capital(c) <==> 65 <= c as int <= 90,
{
}

/// Beyond ASCII the properties of Unicode decide, and no character is a digit.
pub proof fn lemma_unicode_classes(c: char)
    requires
        c as int >= 128,
    ensures
        validation::char_whitespace(c) == validation::unicode_whitespace(c),
        validation::char_alphabetic(c) == validation::unicode_alphabetic(c),
        validation::char_numeric(c) == validation::unicode_numeric(c),
        validation::char_alphanumeric(c) == (validation::unicode_alphabetic(c)
            || validation::unicode_numeric(c)),
        validation::char_lowercase(c) == validation::unicode_lowercase(c),
        validation::char_uppercase(c) == validation::unicode_uppercase(c),
        !validation::is_ascii_digit(c),
        !validation::is_ascii_small(c),
        !validation::is_ascii_capital(c),
{
}

/// A text belongs to a class exactly where each of its characters does: adding one
/// character keeps it there exactly where that character belongs too.
pub proof fn lemma_text_classes(text: Seq<char>, c: char)
    ensures
        validation::is_alphabetic_text(Seq::empty()),
        validation::is_alphanumeric_text(Seq::empty()),
        validation::is_digit_text(Seq::empty()),
        validation::is_lowercase_text(Seq::empty()),
        validation::is_uppercase_text(Seq::empty()),
        validation::is_alphabetic_text(text.push(c)) <==> validation::is_alphabetic_text(text)
            && validation::char_alphabetic(c),
        validation::is_alphanumeric_text(text.push(c)) <==> validation::is_alphanumeric_text(text)
            && (validation::char_alphabetic(c) || validation::char_numeric(c)),
        validation::is_digit_text(text.push(c)) <==> validation::is_digit_text(text) && 48
            <= c as int <= 57,
        validation::is_lowercase_text(text.push(c)) <==> validation::is_lowercase_text(text) && (
        validation::char_alphabetic(c) ==> validation::char_lowercase(c)),
        validation::is_uppercase_text(text.push(c)) <==> validation::is_uppercase_text(text) && (
        validation::char_alphabetic(c) ==> validation::char_uppercase(c)),
{
    let longer = text.push(c);
    assert(longer[text.len() as int] == c);
    assert forall|i: int| 0 <= i < text.len() implies longer[i] == #[trigger] text[i] by {}
}

/// A text holds each of its parts, wherever they stand, and what it holds stands in it
/// somewhere.
pub proof fn lemma_parts_of_text(
    before: Seq<char>,
    part: Seq<char>,
    after: Seq<char>,
    whole: Seq<char>,
)
    ensures
        validation::has_part(before + part + after, part),
        validation::has_part(whole, part) ==> exists|head: Seq<char>, tail: Seq<char>|
            whole == #[trigger] (head + part + tail),
{
    let sum = before + part + after;
    let at = before.len() as int;
    assert(sum.subrange(at, at + part.len()) =~= part);
    if validation::has_part(whole, part) {
        let i = choose|i: int|
            0 <= i <= whole.len() - part.len() && #[trigger] whole.subrange(i, i + part.len())
                == part;
        let head = whole.subrange(0, i);
        let tail = whole.subrange(i + part.len(), whole.len() as int);
        assert(whole =~= head + whole.subrange(i, i + part.len()) + tail);
        assert(whole == head + part + tail);
    }
}

/// The JSON form of a violation.
pub proof fn lemma_json_form_of_violation(violation: Violation)
    ensures
        violation.tree() matches Tree::Object(members) && members.len() == 3 && members[0] == (
            "code"@,
            Tree::Text(violation.code),
        ) && members[1].0 == "message"@ && (violation.message matches Some(message)
            ==> members[1].1 == Tree::Text(message)) && (violation.message is None
            ==> members[1].1 is Null) && members[2] == ("params"@, Tree::Object(violation.params)),
{
}

/// The errors of a value are told field by field: under a field's name stands what was
/// last told of it, and no name stands twice.
pub proof fn lemma_details_are_by_field(errors: ValidationErrors, i: int)
    requires
        0 <= i < errors.fields@.len(),
        forall|j: int|
            i < j < errors.fields@.len() ==> (#[trigger] errors.fields@[j]).0@
                != errors.fields@[i].0@,
    ensures
        validation::details(errors) matches Tree::Object(members) && json::distinct_keys(members)
            && json::member(members, errors.fields@[i].0@) == Some(
            validation::kind_details(errors.fields@[i].1),
        ),
{
    let pairs = validation::field_details(errors.fields@);
    let name = errors.fields@[i].0@;
    json::lemma_collapse_distinct(pairs);
    json::lemma_collapse_member(pairs, name);
    lemma_field_is_found(errors.fields@, i);
}

proof fn lemma_field_is_found(fields: Seq<(String, ValidationErrorsKind)>, i: int)
    requires
        0 <= i < fields.len(),
        forall|j: int| i < j < fields.len() ==> (#[trigger] fields[j]).0@ != fields[i].0@,
    ensures
        json::member(validation::field_details(fields), fields[i].0@) == Some(
            validation::kind_details(fields[i].1),
        ),
    decreases fields.len(),
{
    let front = fields.drop_last();
    let pairs = validation::field_details(fields);
    assert(pairs.drop_last() =~= validation::field_details(front));
    if i < front.len() {
        assert(front[i] == fields[i]);
        assert(fields[fields.len() - 1].0@ != fields[i].0@);
        assert forall|j: int| i < j < front.len() implies (#[trigger] front[j]).0@
            != front[i].0@ by {
            assert(front[j] == fields[j]);
        }
        lemma_field_is_found(front, i);
    }
}

/// The errors of one field: an array of its violations, or the form of what it holds.
pub proof fn lemma_details_of_field(
    violations: Vec<ValidationError>,
    nested: ValidationErrors,
    i: int,
)
    requires
        0 <= i < violations@.len(),
    ensures
        validation::kind_details(ValidationErrorsKind::Field(violations)) matches Tree::Array(items)
            && items.len() == violations@.len() && items[i] == violations@[i]@.tree(),
        validation::kind_details(ValidationErrorsKind::Struct(Box::new(nested)))
            == validation::details(nested),
{
}

/// Params that a validator has rejected are a bad request whose details hold the
/// validator's errors.
pub proof fn lemma_rejected_params(errors: ValidationErrors)
    ensures
        ({
            let e = server_types::validation_failure(errors);
            &&& e.code == "bad_request"@
            &&& e.message == "params validation failed"@
            &&& e.status == 400
            &&& e.details matches Some(Tree::Object(members)) && members.len() == 1 && members[0]
                == ("validation_errors"@, validation::details(errors))
        }),
{
}

/// A value is an array of numbers from 0 to 255 that are these bytes.
pub open spec fn is_bytes(tree: Tree, data: Seq<u8>) -> bool {
    tree matches Tree::Array(items) && items.len() == data.len() && forall|i: int|
        0 <= i < items.len() ==> #[trigger] items[i] == Tree::Int(data[i] as int)
}

/// An attachment is read from an object that has its four fields and no others: three
/// texts, and an array of bytes.
pub proof fn lemma_attachment_is_read_from_fields(
    members: Seq<(Seq<char>, Tree)>,
    file: Attachment,
    i: int,
)
    requires
        attachment::tree_attachment(Tree::Object(members)) == Ok::<Attachment, Seq<char>>(file),
        0 <= i < members.len(),
    ensures
        json::member(members, "id"@) is Some,
        members[i].0 == "id"@ || members[i].0 == "name"@ || members[i].0 == "content_type"@
            || members[i].0 == "data"@,
        members[i].0 == "data"@ ==> members[i].1 is Array,
        members[i].0 != "data"@ ==> members[i].1 is Text,
        json::distinct_keys(members) ==> {
            &&& members[i].0 == "id"@ ==> members[i].1 == Tree::Text(file.id)
            &&& members[i].0 == "name"@ ==> members[i].1 == Tree::Text(file.name)
            &&& members[i].0 == "content_type"@ ==> members[i].1 == Tree::Text(file.content_type)
            &&& members[i].0 == "data"@ ==> is_bytes(members[i].1, file.data)
        },
        json::member(members, "name"@) is Some,
        json::member(members, "content_type"@) is Some,
        json::member(members, "data"@) is Some,
{
    let fault = |key: Seq<char>, tree: Tree| attachment::attachment_fault(key, tree);
    if attachment::attachment_fault(members[i].0, members[i].1) is Some {
        assert(fault(members[i].0, members[i].1) is Some);
        lemma_some_fault_is_told(members, fault, i);
    }
    attachment::lemma_attachment_keys();
    if json::distinct_keys(members) {
        json::lemma_member_at(members, i);
        if members[i].0 == "data"@ {
            lemma_bytes_are_read(members[i].1->Array_0);
        }
    }
}

proof fn lemma_some_fault_is_told(
    members: Seq<(Seq<char>, Tree)>,
    fault: spec_fn(Seq<char>, Tree) -> Option<Seq<char>>,
    i: int,
)
    requires
        0 <= i < members.len(),
        fault(members[i].0, members[i].1) is Some,
    ensures
        mismatch::first_fault(members, fault) is Some,
    decreases members.len(),
{
    if i < members.len() - 1 {
        assert(members.drop_last()[i] == members[i]);
        lemma_some_fault_is_told(members.drop_last(), fault, i);
    }
}

proof fn lemma_bytes_are_read(items: Seq<Tree>)
    requires
        attachment::items_fault(items) is None,
    ensures
        forall|i: int|
            0 <= i < items.len() ==> (#[trigger] items[i] matches Tree::Int(n) && 0 <= n <= 255),
    decreases items.len(),
{
    if items.len() > 0 {
        let front = items.drop_last();
        lemma_bytes_are_read(front);
        assert forall|i: int| 0 <= i < items.len() implies (#[trigger] items[i] matches Tree::Int(
            n,
        ) && 0 <= n <= 255) by {
            if i < front.len() {
                assert(front[i] == items[i]);
            }
        }
    }
}

/// The attachments of an array are read one by one, in order; one that cannot be read
/// makes the whole unreadable.
pub proof fn lemma_attachments_are_read_in_order(items: Seq<Tree>, item: Tree)
    ensures
        attachment::tree_attachments(Tree::Array(Seq::empty())) matches Ok(files) && files.len()
            == 0,
        !(item is Array) ==> attachment::tree_attachments(item) == Err::<
            Seq<Attachment>,
            Seq<char>,
        >("invalid type: "@ + mismatch::described(item) + ", expected "@ + "a sequence"@),
        match (
            attachment::tree_attachments(Tree::Array(items)),
            attachment::tree_attachment(item),
        ) {
            (Ok(files), Ok(file)) => attachment::tree_attachments(Tree::Array(items.push(item)))
                == Ok::<Seq<Attachment>, Seq<char>>(files.push(file)),
            _ => attachment::tree_attachments(Tree::Array(items.push(item))) is Err,
        },
{
    assert(items.push(item).drop_last() =~= items);
}

/// An error payload is read from an object with a code, a message and a status that fits
/// in 16 bits; details that are null are none.
pub proof fn lemma_error_is_read(
    members: Seq<(Seq<char>, Tree)>,
    code: Seq<char>,
    message: Seq<char>,
    status: u16,
)
    requires
        packet::error_faults(members) is None,
        json::member(members, "code"@) == Some(Tree::Text(code)),
        json::member(members, "message"@) == Some(Tree::Text(message)),
        json::member(members, "status"@) == Some(Tree::Int(status as int)),
    ensures
        packet::tree_error(Tree::Object(members)) matches Ok(e) && e.code == code && e.message
            == message && e.status == status && (json::member(members, "details"@) matches Some(
            details,
        ) ==> (details is Null ==> e.details is None) && (!(details is Null) ==> e.details == Some(
            details,
        ))) && (json::member(members, "details"@) is None ==> e.details is None),
{
}

/// What is not read as an error payload: an object that lacks a code, a message or a
/// status, or has one of another kind, and what is no object or array.
pub proof fn lemma_unreadable_errors(tree: Tree, members: Seq<(Seq<char>, Tree)>, i: int)
    ensures
        !(tree is Object || tree is Array) ==> packet::tree_error(tree) is Err,
        json::member(members, "code"@) is None ==> packet::tree_error(Tree::Object(members)) is Err,
        json::member(members, "message"@) is None ==> packet::tree_error(
            Tree::Object(members),
        ) is Err,
        json::member(members, "status"@) is None ==> packet::tree_error(
            Tree::Object(members),
        ) is Err,
        0 <= i < members.len() && members[i].0 == "code"@ && !(members[i].1 is Text)
            ==> packet::tree_error(Tree::Object(members)) is Err,
        0 <= i < members.len() && members[i].0 == "message"@ && !(members[i].1 is Text)
            ==> packet::tree_error(Tree::Object(members)) is Err,
        0 <= i < members.len() && members[i].0 == "status"@ && !(members[i].1 matches Tree::Int(n)
            && 0 <= n <= 65535) ==> packet::tree_error(Tree::Object(members)) is Err,
{
    let fault = |key: Seq<char>, tree: Tree| packet::error_fault(key, tree);
    packet::lemma_error_keys();
    if 0 <= i < members.len() && packet::error_fault(members[i].0, members[i].1) is Some {
        assert(fault(members[i].0, members[i].1) is Some);
        lemma_some_fault_is_told(members, fault, i);
    }
}

/// How a value is described in the text of a mismatch.
pub proof fn lemma_descriptions(b: bool, n: int, found: Seq<char>, tree: Tree)
    ensures
        mismatch::described(Tree::Null) == "null"@,
        mismatch::described(Tree::Bool(b)) == if b {
            "boolean `true`"@
        } else {
            "boolean `false`"@
        },
        mismatch::described(Tree::Int(n)) == "integer `"@ + text::signed_decimal(n) + "`"@,
        mismatch::described(Tree::Text(found)) == "string "@ + text::debug_str(found),
        tree is Array ==> mismatch::described(tree) == "sequence"@,
        tree is Object ==> mismatch::described(tree) == "map"@,
        mismatch::type_error_text(tree, found) == "invalid type: "@ + mismatch::described(tree)
            + ", expected "@ + found,
        mismatch::value_error_text(tree, found) == "invalid value: "@ + mismatch::described(tree)
            + ", expected "@ + found,
        mismatch::missing_field_text(found) == "missing field `"@ + found + "`"@,
{
}

/// Names that were expected are quoted and listed in order.
pub proof fn lemma_listed_names(names: Seq<&str>, a: &str, b: &str, c: &str)
    ensures
        mismatch::one_of(seq![a]) == "`"@ + a@ + "`"@,
        mismatch::one_of(seq![a, b]) == "`"@ + a@ + "` or `"@ + b@ + "`"@,
        names.len() >= 1 ==> mismatch::listed(names.push(c)) == mismatch::listed(names) + ", `"@
            + c@ + "`"@,
        names.len() >= 3 ==> mismatch::one_of(names) == "one of "@ + mismatch::listed(names),
{
    assert(names.push(c).drop_last() =~= names);
}

/// A list of texts is shown in brackets, quoted, in order, with commas between.
pub proof fn lemma_shown_lists(values: Seq<&str>, value: &str)
    ensures
        validation::debug_list(Seq::empty()) == "["@ + "]"@,
        validation::debug_list(seq![value]) == "["@ + text::debug_str(value@) + "]"@,
        values.len() >= 1 ==> validation::debug_items(values.push(value))
            == validation::debug_items(values) + ", "@ + text::debug_str(value@),
{
    assert(values.push(value).drop_last() =~= values);
    assert("["@ + Seq::<char>::empty() =~= "["@);
}

/// Why a packet body is not read.
pub proof fn lemma_reasons_of_unreadable_bodies(tree: Tree, members: Seq<(Seq<char>, Tree)>)
    ensures
        !(tree is Object) ==> packet::read_body(tree) == Err::<Body, Seq<char>>(
            "packet body must be a JSON object"@,
        ),
        has_no_number(members, "k"@) ==> packet::read_body(Tree::Object(members)) == Err::<
            Body,
            Seq<char>,
        >("missing or non-numeric '"@ + "k"@ + "' field in packet body"@),
        json::member(members, "k"@) matches Some(Tree::Int(k)) ==> (3 < k <= 255
            ==> packet::read_body(Tree::Object(members)) == Err::<Body, Seq<char>>(
            "unknown 'k' value: "@ + text::decimal(k as nat),
        )),
        json::member(members, "k"@) matches Some(Tree::Int(k)) ==> (255 < k <= u64::MAX
            ==> packet::read_body(Tree::Object(members)) == Err::<Body, Seq<char>>(
            "'k' value "@ + text::decimal(k as nat) + " is outside the valid range"@,
        )),
        json::member(members, "k"@) == Some(Tree::Int(0)) && has_no_number(members, "i"@)
            ==> packet::read_body(Tree::Object(members)) == Err::<Body, Seq<char>>(
            "missing or non-numeric '"@ + "i"@ + "' field in packet body"@,
        ),
        json::member(members, "k"@) == Some(Tree::Int(0)) && !has_no_number(members, "i"@) && !(
        json::member(members, "r"@) matches Some(Tree::Text(_))) ==> packet::read_body(
            Tree::Object(members),
        ) == Err::<Body, Seq<char>>(
            "missing or non-string '"@ + "r"@ + "' field in packet body"@,
        ),
        json::member(members, "k"@) == Some(Tree::Int(1)) && !has_no_number(members, "i"@) && (
        json::member(members, "n"@) matches Some(Tree::Text(_))) && (json::member(members, "d"@)
            matches Some(data) && !(data is Object)) ==> packet::read_body(Tree::Object(members))
            == Err::<Body, Seq<char>>("'"@ + "d"@ + "' field must be a JSON object"@),
{
}

/// An error of a response or an acknowledgement is read where it is told, and one that
/// is unreadable makes the whole unreadable. So do attachments in the JSON text.
pub proof fn lemma_told_error_is_read(members: Seq<(Seq<char>, Tree)>, id: u64, told: Tree)
    requires
        json::member(members, "i"@) == Some(Tree::Int(id as int)),
    ensures
        json::member(members, "er"@) == Some(told) && json::member(members, "k"@) == Some(
            Tree::Int(2),
        ) ==> (match packet::tree_error(told) {
            Ok(e) => packet::read_body(Tree::Object(members)) matches Ok(Body::ApiResponse {
                request_id,
                error,
                ..
            }) && request_id == id && error == Some(e),
            Err(reason) => packet::read_body(Tree::Object(members)) == Err::<Body, Seq<char>>(
                reason,
            ),
        }),
        json::member(members, "er"@) == Some(told) && json::member(members, "k"@) == Some(
            Tree::Int(3),
        ) ==> (match packet::tree_error(told) {
            Ok(e) => packet::read_body(Tree::Object(members)) matches Ok(Body::EventAck {
                event_id,
                error,
                ..
            }) && event_id == id && error == Some(e),
            Err(reason) => packet::read_body(Tree::Object(members)) == Err::<Body, Seq<char>>(
                reason,
            ),
        }),
        json::member(members, "a"@) == Some(told) && json::member(members, "k"@) == Some(
            Tree::Int(0),
        ) && (json::member(members, "r"@) matches Some(Tree::Text(_))) ==> (match attachment::tree_attachments(
            told,
        ) {
            Ok(files) => packet::read_body(Tree::Object(members)) matches Ok(Body::ApiRequest {
                attachments,
                ..
            }) && attachments == files,
            Err(reason) => packet::read_body(Tree::Object(members)) == Err::<Body, Seq<char>>(
                reason,
            ),
        }),
{
}

/// The names of the message types and of the encryption modes.
pub proof fn lemma_names_of_kinds()
    ensures
        packet::named_message_type("Api"@) is Api,
        packet::named_message_type("Event"@) is Event,
        packet::named_encryption("None"@) is Plaintext,
        packet::named_encryption("ChaCha20"@) is ChaCha20,
        packet::named_encryption("Aes256"@) is Aes256,
        packet::message_type_names() == seq!["Api", "Event"],
        packet::encryption_names() == seq!["None", "ChaCha20", "Aes256"],
{
    reveal_strlit("Api");
    reveal_strlit("Event");
    reveal_strlit("None");
    reveal_strlit("ChaCha20");
    reveal_strlit("Aes256");
    assert("Api"@.len() == 3);
    assert("Event"@.len() == 5);
    assert("None"@.len() == 4);
    assert("ChaCha20"@.len() == 8);
    assert("Aes256"@.len() == 6);
}

/// An attachment, an error payload and an envelope are read from an array of their
/// values too, in the order of the fields; an array of another length is none.
pub proof fn lemma_array_forms(file: Attachment, error: ErrorInfo, packet: Packet, items: Seq<Tree>)
    requires
        !(error.details is None),
        error.details != Some(Tree::Null),
    ensures
        attachment::tree_attachment(
            Tree::Array(
                seq![
                    Tree::Text(file.id),
                    Tree::Text(file.name),
                    Tree::Text(file.content_type),
                    attachment::bytes_tree(file.data),
                ],
            ),
        ) == Ok::<Attachment, Seq<char>>(file),
        packet::tree_error(
            Tree::Array(
                seq![
                    Tree::Text(error.code),
                    Tree::Text(error.message),
                    Tree::Int(error.status as int),
                    error.details->Some_0,
                ],
            ),
        ) == Ok::<ErrorInfo, Seq<char>>(error),
        packet::tree_packet(
            Tree::Array(
                seq![
                    Tree::Text(packet.message_type.name()),
                    Tree::Text(packet.encryption.name()),
                    packet.body.tree(),
                ],
            ),
        ) == packet::tree_packet(packet.tree()),
        items.len() != 4 ==> attachment::tree_attachment(Tree::Array(items)) is Err,
        items.len() != 4 ==> packet::tree_error(Tree::Array(items)) is Err,
        items.len() != 3 ==> packet::tree_packet(Tree::Array(items)) is Err,
{
    let values = seq![
        Tree::Text(file.id),
        Tree::Text(file.name),
        Tree::Text(file.content_type),
        attachment::bytes_tree(file.data),
    ];
    assert(mismatch::keyed(values, attachment::attachment_keys())
        =~= file.tree()->Object_0);
    attachment::lemma_tree_round_trip(file);
    let parts = seq![
        Tree::Text(error.code),
        Tree::Text(error.message),
        Tree::Int(error.status as int),
        error.details->Some_0,
    ];
    assert(mismatch::keyed(parts, packet::error_keys()) =~= error.tree()->Object_0);
    packet::lemma_error_round_trip(error);
    let fields = seq![
        Tree::Text(packet.message_type.name()),
        Tree::Text(packet.encryption.name()),
        packet.body.tree(),
    ];
    assert(mismatch::keyed(fields, packet::packet_keys()) =~= packet.tree()->Object_0);
}

/// A field that is missing is told by its name: the first in the order of the fields.
pub proof fn lemma_missing_fields_are_told(members: Seq<(Seq<char>, Tree)>)
    ensures
        json::member(members, "id"@) is None ==> attachment::attachment_of(members) == Err::<
            Attachment,
            Seq<char>,
        >("missing field `"@ + "id"@ + "`"@),
        json::member(members, "id"@) is Some && json::member(members, "name"@) is None
            ==> attachment::attachment_of(members) == Err::<Attachment, Seq<char>>(
            "missing field `"@ + "name"@ + "`"@,
        ),
        json::member(members, "id"@) is Some && json::member(members, "name"@) is Some
            && json::member(members, "content_type"@) is None ==> attachment::attachment_of(members)
            == Err::<Attachment, Seq<char>>("missing field `"@ + "content_type"@ + "`"@),
        json::member(members, "id"@) is Some && json::member(members, "name"@) is Some
            && json::member(members, "content_type"@) is Some && json::member(
            members,
            "data"@,
        ) is None ==> attachment::attachment_of(members) == Err::<Attachment, Seq<char>>(
            "missing field `"@ + "data"@ + "`"@,
        ),
        json::member(members, "code"@) is Some && json::member(members, "message"@) is Some
            && json::member(members, "status"@) is None ==> packet::error_of(members) == Err::<
            ErrorInfo,
            Seq<char>,
        >("missing field `"@ + "status"@ + "`"@),
        json::member(members, "code"@) is None ==> packet::error_of(members) == Err::<
            ErrorInfo,
            Seq<char>,
        >("missing field `"@ + "code"@ + "`"@),
        json::member(members, "code"@) is Some && json::member(members, "message"@) is None
            ==> packet::error_of(members) == Err::<ErrorInfo, Seq<char>>(
            "missing field `"@ + "message"@ + "`"@,
        ),
        json::member(members, "message_type"@) is None ==> packet::packet_from(members) == Err::<
            Packet,
            Seq<char>,
        >("missing field `"@ + "message_type"@ + "`"@),
        json::member(members, "message_type"@) is Some && json::member(members, "encryption"@) is None
            ==> packet::packet_from(members) == Err::<Packet, Seq<char>>(
            "missing field `"@ + "encryption"@ + "`"@,
        ),
        json::member(members, "message_type"@) is Some && json::member(members, "encryption"@) is Some
            && json::member(members, "body"@) is None ==> packet::packet_from(members) == Err::<
            Packet,
            Seq<char>,
        >("missing field `"@ + "body"@ + "`"@),
{
}

/// The texts for a name that is not known and for a list of the wrong length.
pub proof fn lemma_mismatch_texts(name: Seq<char>, expected: Seq<&str>, len: nat, wanted: Seq<char>)
    ensures
        mismatch::unknown_field_text(name, expected) == "unknown field `"@ + name + "`, expected "@
            + mismatch::one_of(expected),
        mismatch::unknown_variant_text(name, expected) == "unknown variant `"@ + name
            + "`, expected "@ + mismatch::one_of(expected),
        mismatch::length_error_text(len, wanted) == "invalid length "@ + text::decimal(len)
            + ", expected "@ + wanted,
{
}

/// A value is a text or it is not, and an unsigned integer within its bound or not; what
/// is found instead is told.
pub proof fn lemma_faults_of_values(tree: Tree, max: int, name: Seq<char>)
    ensures
        mismatch::text_fault(tree) is None <==> tree is Text,
        mismatch::text_fault(tree) matches Some(reason) ==> reason == "invalid type: "@
            + mismatch::described(tree) + ", expected "@ + "a string"@,
        mismatch::uint_fault(tree, max, name) is None <==> (tree matches Tree::Int(n) && 0 <= n
            <= max),
        mismatch::uint_fault(tree, max, name) matches Some(reason) ==> reason == (
        if tree is Int {
            "invalid value: "@
        } else {
            "invalid type: "@
        }) + mismatch::described(tree) + ", expected "@ + name,
{
}

/// The errors of the items of a list stand under the numerals of their indices.
pub proof fn lemma_details_of_items(
    items: Seq<(usize, ValidationErrors)>,
    item: (usize, ValidationErrors),
)
    ensures
        validation::item_details(items.push(item)) == validation::item_details(items).push(
            (text::decimal(item.0 as nat), validation::details(item.1)),
        ),
        validation::item_details(Seq::empty()) == Seq::<(Seq<char>, Tree)>::empty(),
{
    assert(items.push(item).drop_last() =~= items);
}

/// What is not read as an envelope: a member that names no type or no mode, or whose body
/// cannot be read. What is read has what its members say.
pub proof fn lemma_envelope_is_read(
    members: Seq<(Seq<char>, Tree)>,
    message_type: Tree,
    mode: Tree,
    told: Tree,
    i: int,
)
    ensures
        0 <= i < members.len() && members[i].0 == "message_type"@ && mismatch::variant_in(
            members[i].1,
            packet::message_type_names(),
        ) is Err ==> packet::tree_packet(Tree::Object(members)) is Err,
        0 <= i < members.len() && members[i].0 == "encryption"@ && mismatch::variant_in(
            members[i].1,
            packet::encryption_names(),
        ) is Err ==> packet::tree_packet(Tree::Object(members)) is Err,
        0 <= i < members.len() && members[i].0 == "body"@ && packet::read_body(members[i].1) is Err
            ==> packet::tree_packet(Tree::Object(members)) is Err,
        packet::tree_packet(Tree::Object(members)) matches Ok(packet) && json::member(
            members,
            "message_type"@,
        ) == Some(message_type) && json::member(members, "encryption"@) == Some(mode)
            && json::member(members, "body"@) == Some(told) ==> {
            let packet = packet::tree_packet(Tree::Object(members))->Ok_0;
            &&& mismatch::variant_in(message_type, packet::message_type_names()) == Ok::<
                Seq<char>,
                Seq<char>,
            >(packet.message_type.name())
            &&& mismatch::variant_in(mode, packet::encryption_names()) == Ok::<
                Seq<char>,
                Seq<char>,
            >(packet.encryption.name())
            &&& packet::read_body(told) == Ok::<Body, Seq<char>>(packet.body)
        },
        !(told is Object || told is Array) ==> packet::tree_packet(told) == Err::<
            Packet,
            Seq<char>,
        >("invalid type: "@ + mismatch::described(told) + ", expected "@
            + "struct PacketEnvelope"@),
{
    let fault = |key: Seq<char>, tree: Tree| packet::packet_fault(key, tree);
    packet::lemma_packet_keys();
    if 0 <= i < members.len() && packet::packet_fault(members[i].0, members[i].1) is Some {
        assert(fault(members[i].0, members[i].1) is Some);
        lemma_some_fault_is_told(members, fault, i);
    }
    if packet::packet_faults(members) is None {
        mismatch::lemma_no_fault(members, fault, "message_type"@);
        mismatch::lemma_no_fault(members, fault, "encryption"@);
        mismatch::lemma_no_fault(members, fault, "body"@);
        if json::member(members, "message_type"@) is Some {
            let found = json::member(members, "message_type"@)->Some_0;
            assert(fault("message_type"@, found) is None);
            lemma_variant_is_its_name(
                found,
                packet::message_type_names(),
                mismatch::variant_in(found, packet::message_type_names())->Ok_0,
            );
        }
        if json::member(members, "encryption"@) is Some {
            let found = json::member(members, "encryption"@)->Some_0;
            assert(fault("encryption"@, found) is None);
            lemma_variant_is_its_name(
                found,
                packet::encryption_names(),
                mismatch::variant_in(found, packet::encryption_names())->Ok_0,
            );
        }
        if json::member(members, "body"@) is Some {
            assert(fault("body"@, json::member(members, "body"@)->Some_0) is None);
        }
    }
}

/// What is wrong with the members of an attachment and of an error, as it is told.
pub proof fn lemma_member_faults(tree: Tree, key: Seq<char>)
    ensures
        attachment::attachment_fault("id"@, tree) == mismatch::text_fault(tree),
        !(tree is Array) ==> attachment::bytes_fault(tree) == Some(
            "invalid type: "@ + mismatch::described(tree) + ", expected "@ + "a sequence"@,
        ),
        attachment::items_fault(seq![tree]) == mismatch::uint_fault(tree, 255, "u8"@),
        packet::error_fault("status"@, tree) == mismatch::uint_fault(tree, 65535, "u16"@),
        packet::error_fault("code"@, tree) == mismatch::text_fault(tree),
        packet::error_fault("message"@, tree) == mismatch::text_fault(tree),
        packet::error_fault("details"@, tree) is None,
        !(tree is Object || tree is Array) ==> packet::tree_error(tree) == Err::<
            ErrorInfo,
            Seq<char>,
        >("invalid type: "@ + mismatch::described(tree) + ", expected "@ + "struct ErrorPayload"@),
        !(tree is Object || tree is Array) ==> attachment::tree_attachment(tree) == Err::<
            Attachment,
            Seq<char>,
        >("invalid type: "@ + mismatch::described(tree) + ", expected "@
            + "struct FileAttachment"@),
{
    packet::lemma_error_keys();
    reveal_with_fuel(attachment::items_fault, 2);
    assert(seq![tree].drop_last() =~= Seq::empty());
}

} // verus!
