//! Connection authentication: the credential that a client submits before its
//! connection goes live, and the server's answer.
//!
//! Both travel under the connection's cipher, in frames of a message type of their
//! own. Once the connection is live there are no such frames: [`FrameCodec::decode`]
//! does not know the type.
use crate::buffer;
use crate::buffer::{as_slice, be32_at, be32_bytes};
use crate::client;
use crate::codec;
use crate::codec::{Codec, FrameCodec, HEADER_LEN};
use crate::crypto::NONCE_LEN;
use crate::error::{Failure, ProtocolError};
use crate::json;
use crate::json::{Json, JsonMap, Tree};
use crate::packet;
use crate::packet::{
    take_bool, take_error, take_string, take_u64, EncryptionKind, ErrorInfo, ErrorPayload,
};
use crate::text;
use crate::text::{decimal_text, join};
use bytes::Bytes;
use vstd::prelude::*;

verus! {

/// The byte that stands for authentication in a frame header.
pub const AUTH_TYPE_CODE: u8 = 2;

/// Compact numeric tag of a submitted credential.
pub const K_AUTH_REQUEST: u8 = 4;

/// Compact numeric tag of the answer to a credential.
pub const K_AUTH_RESPONSE: u8 = 5;

/// A message of the authentication phase.
///
/// | Variant | `k` | Fields |
/// | --- | --- | --- |
/// | `AuthRequest`  | 4 | `c` |
/// | `AuthResponse` | 5 | `o` [`er`] |
#[derive(Debug)]
pub enum AuthMessage {
    /// Submits a credential.
    AuthRequest { credential: String },
    /// Accepts the credential, or tells why not.
    AuthResponse { ok: bool, error: Option<ErrorPayload> },
}

/// What an [`AuthMessage`] holds.
pub enum AuthInfo {
    AuthRequest { credential: Seq<char> },
    AuthResponse { ok: bool, error: Option<ErrorInfo> },
}

impl View for AuthMessage {
    type V = AuthInfo;

    open spec fn view(&self) -> AuthInfo {
        match self {
            AuthMessage::AuthRequest { credential } => AuthInfo::AuthRequest {
                credential: credential@,
            },
            AuthMessage::AuthResponse { ok, error } => AuthInfo::AuthResponse {
                ok: *ok,
                error: packet::error_view(*error),
            },
        }
    }
}

/// A message of the authentication phase with its encryption mode.
#[derive(Debug)]
pub struct AuthPacket {
    pub encryption: EncryptionKind,
    pub message: AuthMessage,
}

/// What an [`AuthPacket`] holds.
pub struct AuthEnvelope {
    pub encryption: EncryptionKind,
    pub message: AuthInfo,
}

impl View for AuthPacket {
    type V = AuthEnvelope;

    open spec fn view(&self) -> AuthEnvelope {
        AuthEnvelope { encryption: self.encryption, message: self.message@ }
    }
}

impl AuthInfo {
    /// The members of the message's JSON form.
    pub open spec fn members(self) -> Seq<(Seq<char>, Tree)> {
        match self {
            AuthInfo::AuthRequest { credential } => seq![
                ("k"@, Tree::Int(K_AUTH_REQUEST as int)),
                ("c"@, Tree::Text(credential)),
            ],
            AuthInfo::AuthResponse { ok, error } => seq![
                ("k"@, Tree::Int(K_AUTH_RESPONSE as int)),
                ("o"@, Tree::Bool(ok)),
            ] + packet::error_members(error),
        }
    }

    /// The JSON form of the message.
    pub open spec fn tree(self) -> Tree {
        Tree::Object(self.members())
    }

    /// The message as reading its JSON form gives it back: details of an error that
    /// are null are left out.
    pub open spec fn normal(self) -> AuthInfo {
        match self {
            AuthInfo::AuthRequest { .. } => self,
            AuthInfo::AuthResponse { ok, error } => AuthInfo::AuthResponse {
                ok,
                error: packet::normal_error(error),
            },
        }
    }

    /// The composite payload of the message. It has no attachments.
    pub open spec fn composite(self) -> Seq<u8> {
        let text = json::json_text(self.tree());
        buffer::be32(text.len()) + text + seq![0u8]
    }

    /// The JSON text of the message is read as its JSON form.
    pub open spec fn survives(self) -> bool {
        ||| json::exact_within(self.tree(), json::MAX_DEPTH as nat)
        ||| json::reads_as(json::json_text(self.tree()), self.tree())
    }
}

/// The message that a JSON value stands for, or the reason why it stands for none.
pub open spec fn read_auth(tree: Tree) -> Result<AuthInfo, Seq<char>> {
    match tree {
        Tree::Object(members) => match packet::read_u64(members, "k"@) {
            Err(reason) => Err(reason),
            Ok(k) => if k == K_AUTH_REQUEST {
                match packet::read_text(members, "c"@) {
                    Err(reason) => Err(reason),
                    Ok(credential) => Ok(AuthInfo::AuthRequest { credential }),
                }
            } else if k == K_AUTH_RESPONSE {
                match packet::read_error(members) {
                    Err(reason) => Err(reason),
                    Ok(error) => Ok(
                        AuthInfo::AuthResponse { ok: packet::read_bool(members, "o"@), error },
                    ),
                }
            } else {
                Err("unknown 'k' value: "@ + text::decimal(k as nat))
            },
        },
        _ => Err("packet body must be a JSON object"@),
    }
}

/// The message that a JSON text stands for, or the reason why it stands for none.
#[verifier::opaque]
pub open spec fn read_auth_text(text: Seq<u8>) -> Result<AuthInfo, Seq<char>> {
    match json::json_parse(text) {
        Err(reason) => Err(reason),
        Ok(tree) => read_auth(tree),
    }
}

/// The message that a composite payload is decoded to.
#[verifier::opaque]
pub open spec fn decode_composite(plaintext: Seq<u8>) -> Result<AuthInfo, Failure> {
    if plaintext.len() < 5 || plaintext.len() < 5 + buffer::be32_value(plaintext) {
        Err(Failure::FrameTooShort)
    } else {
        match read_auth_text(plaintext.subrange(4, 4 + buffer::be32_value(plaintext) as int)) {
            Err(reason) => Err(Failure::Json(reason)),
            Ok(message) => Ok(message),
        }
    }
}

impl Codec {
    /// The frame that a message is encoded to; an encrypted one depends on a nonce.
    pub open spec fn encode_auth(self, packet: AuthEnvelope, nonce: Seq<u8>) -> Result<
        Seq<u8>,
        Failure,
    > {
        self.encode_composite(
            AUTH_TYPE_CODE,
            packet.encryption,
            packet.message.composite(),
            nonce,
        )
    }

    /// A message has a frame.
    pub open spec fn has_room_for_auth(self, packet: AuthEnvelope) -> bool {
        self.has_room(packet.encryption, packet.message.composite().len())
    }

    /// The bytes are the frame of a message, with a nonce from the random source where it
    /// is encrypted.
    pub open spec fn encodes_auth_to(self, packet: AuthEnvelope, bytes: Seq<u8>) -> bool {
        exists|nonce: Seq<u8>|
            nonce.len() == NONCE_LEN && (packet.encryption != EncryptionKind::Plaintext
                ==> codec::is_fresh(nonce)) && #[trigger] self.encode_auth(packet, nonce) == Ok::<
                Seq<u8>,
                Failure,
            >(bytes)
    }

    /// The message that a frame of the authentication phase is decoded to. A frame of
    /// another type is told from one of a type that does not exist.
    pub open spec fn decode_auth(self, frame: Seq<u8>) -> Result<AuthEnvelope, Failure> {
        match self.length_fault(frame) {
            Some(e) => Err(e),
            None => if frame[4] > AUTH_TYPE_CODE {
                Err(Failure::UnknownMessageType(frame[4]))
            } else if frame[4] < AUTH_TYPE_CODE {
                Err(Failure::MessageTypeMismatch)
            } else {
                match self.unpack(frame) {
                    Err(e) => Err(e),
                    Ok((encryption, plaintext)) => match decode_composite(plaintext) {
                        Err(e) => Err(e),
                        Ok(message) => Ok(AuthEnvelope { encryption, message }),
                    },
                }
            },
        }
    }
}

/// A message as decoding gives it back.
pub open spec fn received(packet: AuthEnvelope) -> AuthEnvelope {
    AuthEnvelope { message: packet.message.normal(), ..packet }
}

/// A peer with the same key and a limit that the frame keeps to decodes the frame of a
/// message to that message.
pub open spec fn round_trips(sender: Codec, packet: AuthEnvelope, bytes: Seq<u8>) -> bool {
    packet.message.survives() && bytes.len() - 4 < 0x1_0000_0000 ==> forall|peer: Codec|
        peer.opens(sender, packet.encryption) && bytes.len() <= peer.max_frame_bytes
            ==> #[trigger] peer.decode_auth(bytes) == Ok::<AuthEnvelope, Failure>(received(packet))
}

/// The keys of a message are pairwise distinct.
proof fn lemma_keys()
    ensures
        "k"@ != "c"@,
        "k"@ != "o"@,
        "k"@ != "er"@,
        "o"@ != "er"@,
{
    reveal_strlit("k");
    reveal_strlit("c");
    reveal_strlit("o");
    reveal_strlit("er");
    assert("k"@[0] == 'k');
    assert("c"@[0] == 'c');
    assert("o"@[0] == 'o');
    assert("er"@.len() == 2);
}

/// Reading the JSON form of a message gives the message back, but for details of an
/// error that are null.
pub proof fn lemma_auth_round_trip(message: AuthInfo)
    ensures
        read_auth(message.tree()) == Ok::<AuthInfo, Seq<char>>(message.normal()),
{
    let members = message.members();
    lemma_keys();
    json::lemma_member_at(members, 0);
    json::lemma_member_at(members, 1);
    if let AuthInfo::AuthResponse { error, .. } = message {
        match error {
            Some(e) => {
                packet::lemma_error_round_trip(e);
                json::lemma_member_at(members, 2);
            },
            None => {
                json::lemma_member_absent(members, "er"@);
            },
        }
    }
}

/// A credential and an answer without details survive the way to the peer, whatever
/// they say.
pub proof fn lemma_auth_survives(message: AuthInfo)
    requires
        match message {
            AuthInfo::AuthRequest { .. } => true,
            AuthInfo::AuthResponse { error, .. } => error matches Some(e) ==> e.details is None,
        },
    ensures
        message.survives(),
{
    let levels = json::MAX_DEPTH as nat;
    let members = message.members();
    assert forall|i: int| 0 <= i < members.len() implies json::exact_within(
        (#[trigger] members[i]).1,
        (levels - 1) as nat,
    ) by {
        if i == 2 {
            let error = message->AuthResponse_error->Some_0;
            let inner = error.tree()->Object_0;
            assert forall|j: int| 0 <= j < inner.len() implies json::exact_within(
                (#[trigger] inner[j]).1,
                (levels - 2) as nat,
            ) by {}
        }
    }
}

proof fn lemma_composite_decodes(message: AuthInfo)
    requires
        json::reads_as(json::json_text(message.tree()), message.tree()),
        json::json_text(message.tree()).len() < 0x1_0000_0000,
    ensures
        decode_composite(message.composite()) == Ok::<AuthInfo, Failure>(message.normal()),
{
    reveal(decode_composite);
    reveal(read_auth_text);
    let text = json::json_text(message.tree());
    lemma_auth_round_trip(message);
    codec::lemma_composite_parts(text, 0, Seq::empty());
    assert(message.composite() =~= buffer::be32(text.len()) + text + seq![0u8] + Seq::empty());
}

proof fn lemma_round_trips(sender: Codec, packet: AuthEnvelope, bytes: Seq<u8>)
    requires
        json::exact_within(packet.message.tree(), json::MAX_DEPTH as nat) ==> json::reads_as(
            json::json_text(packet.message.tree()),
            packet.message.tree(),
        ),
        codec::is_unpacked(sender, packet.encryption, packet.message.composite(), bytes),
        bytes.len() >= packet.message.composite().len() + HEADER_LEN,
        bytes[4] == AUTH_TYPE_CODE,
    ensures
        round_trips(sender, packet, bytes),
{
    if packet.message.survives() && bytes.len() - 4 < 0x1_0000_0000 {
        lemma_composite_decodes(packet.message);
        assert forall|peer: Codec|
            peer.opens(sender, packet.encryption) && bytes.len()
                <= peer.max_frame_bytes implies #[trigger] peer.decode_auth(bytes) == Ok::<
            AuthEnvelope,
            Failure,
        >(received(packet)) by {
            assert(peer.unpack(bytes) == Ok::<(EncryptionKind, Seq<u8>), Failure>(
                (packet.encryption, packet.message.composite()),
            ));
        }
    }
}

impl AuthMessage {
    /// The message's JSON form.
    pub fn to_json(&self) -> (r: Json)
        ensures
            r@ == self@.tree(),
    {
        let mut members: Vec<(String, Json)> = Vec::with_capacity(3);
        match self {
            AuthMessage::AuthRequest { credential } => {
                members.push(("k".to_owned(), Json::Unsigned(K_AUTH_REQUEST as u64)));
                members.push(("c".to_owned(), Json::String(credential.clone())));
            },
            AuthMessage::AuthResponse { ok, error } => {
                members.push(("k".to_owned(), Json::Unsigned(K_AUTH_RESPONSE as u64)));
                members.push(("o".to_owned(), Json::Bool(*ok)));
                if let Some(error) = error {
                    members.push(("er".to_owned(), error.to_json()));
                }
            },
        }
        proof {
            json::lemma_pair_trees(members@);
            assert(json::pair_trees(members@) =~= self@.members());
            lemma_keys();
            json::lemma_collapse_same(self@.members());
        }
        Json::Object(JsonMap { members })
    }

    /// Reads a message from its JSON form.
    pub fn from_json(value: Json) -> (r: Result<Self, String>)
        ensures
            match r {
                Ok(message) => read_auth(value@) == Ok::<AuthInfo, Seq<char>>(message@),
                Err(reason) => read_auth(value@) == Err::<AuthInfo, Seq<char>>(reason@),
            },
    {
        let mut map = match value {
            Json::Object(map) => map,
            _ => return Err("packet body must be a JSON object".to_owned()),
        };
        proof {
            lemma_keys();
        }
        let k: u64 = match take_u64(&mut map, "k") {
            Ok(k) => k,
            Err(reason) => return Err(reason),
        };
        if k == K_AUTH_REQUEST as u64 {
            match take_string(&mut map, "c") {
                Ok(credential) => Ok(AuthMessage::AuthRequest { credential }),
                Err(reason) => Err(reason),
            }
        } else if k == K_AUTH_RESPONSE as u64 {
            let ok = take_bool(&mut map, "o");
            match take_error(&mut map) {
                Ok(error) => Ok(AuthMessage::AuthResponse { ok, error }),
                Err(reason) => Err(reason),
            }
        } else {
            Err(join("unknown 'k' value: ", decimal_text(k as u128).as_str()))
        }
    }

    fn composite_bytes(&self) -> (bytes: Vec<u8>)
        ensures
            bytes@ == self@.composite(),
            json::exact_within(self@.tree(), json::MAX_DEPTH as nat) ==> json::reads_as(
                json::json_text(self@.tree()),
                self@.tree(),
            ),
    {
        let text = self.to_json().to_vec();
        let mut bytes: Vec<u8> = Vec::new();
        bytes.extend_from_slice(&be32_bytes(text.len()));
        bytes.extend_from_slice(text.as_slice());
        bytes.push(0);
        proof {
            assert(bytes@ =~= self@.composite());
        }
        bytes
    }
}

impl FrameCodec {
    /// Encodes a message of the authentication phase, with the nonce that an encrypted
    /// frame is to have.
    pub fn encode_auth_with_nonce(&self, packet: &AuthPacket, nonce: &[u8; 12]) -> (r: Result<
        Vec<u8>,
        ProtocolError,
    >)
        ensures
            codec::encode_agrees(r, self@.encode_auth(packet@, nonce@)),
            r is Ok <==> self@.has_room_for_auth(packet@),
            r matches Ok(bytes) ==> round_trips(self@, packet@, bytes@),
    {
        let plaintext = packet.message.composite_bytes();
        let r = self.encode_composite(AUTH_TYPE_CODE, packet.encryption, plaintext, nonce);
        proof {
            if r is Ok {
                lemma_round_trips(self@, packet@, r->Ok_0@);
            }
        }
        r
    }

    /// Encodes a message of the authentication phase. An encrypted frame has a fresh
    /// random nonce.
    pub fn encode_auth(&self, packet: &AuthPacket) -> (r: Result<Vec<u8>, ProtocolError>)
        ensures
            match r {
                Ok(bytes) => {
                    &&& self@.encodes_auth_to(packet@, bytes@)
                    &&& round_trips(self@, packet@, bytes@)
                },
                Err(e) => {
                    ||| self@.draws_nonce(packet@.encryption, packet@.message.composite().len())
                        && codec::is_random_fault(e@)
                    ||| self@.refusal(packet@.encryption, packet@.message.composite().len())
                        == Some(e@)
                },
            },
            self@.has_room_for_auth(packet@) ==> (r matches Err(e) ==> e@ is Random),
    {
        let plaintext = packet.message.composite_bytes();
        let r = self.encode_freshly(AUTH_TYPE_CODE, packet.encryption, plaintext);
        proof {
            if r is Ok {
                lemma_round_trips(self@, packet@, r->Ok_0@);
                let nonce = choose|nonce: Seq<u8>|
                    nonce.len() == NONCE_LEN && (packet@.encryption != EncryptionKind::Plaintext
                        ==> codec::is_fresh(nonce)) && #[trigger] self@.encode_composite(
                        AUTH_TYPE_CODE,
                        packet@.encryption,
                        packet@.message.composite(),
                        nonce,
                    ) == Ok::<Seq<u8>, Failure>(r->Ok_0@);
                assert(self@.encode_auth(packet@, nonce) == Ok::<Seq<u8>, Failure>(r->Ok_0@));
            }
        }
        r
    }

    /// Decodes a frame of the authentication phase.
    pub fn decode_auth(&self, frame: Bytes) -> (r: Result<AuthPacket, ProtocolError>)
        ensures
            match r {
                Ok(packet) => self@.decode_auth(buffer::contents(frame)) == Ok::<
                    AuthEnvelope,
                    Failure,
                >(packet@),
                Err(e) => self@.decode_auth(buffer::contents(frame)) == Err::<
                    AuthEnvelope,
                    Failure,
                >(e@),
            },
    {
        let bytes = as_slice(&frame);
        if let Err(e) = self.check_length(bytes) {
            return Err(e);
        }
        let type_code: u8 = bytes[4];
        if type_code > AUTH_TYPE_CODE {
            return Err(ProtocolError::UnknownMessageType(type_code));
        }
        if type_code < AUTH_TYPE_CODE {
            return Err(ProtocolError::MessageTypeMismatch);
        }
        match self.unpack(&frame) {
            Ok((encryption, plaintext)) => match message_in(as_slice(&plaintext)) {
                Ok(message) => Ok(AuthPacket { encryption, message }),
                Err(e) => Err(e),
            },
            Err(e) => Err(e),
        }
    }
}

/// Decodes a composite payload.
fn message_in(plaintext: &[u8]) -> (r: Result<AuthMessage, ProtocolError>)
    ensures
        match r {
            Ok(message) => decode_composite(plaintext@) == Ok::<AuthInfo, Failure>(message@),
            Err(e) => decode_composite(plaintext@) == Err::<AuthInfo, Failure>(e@),
        },
{
    proof {
        reveal(decode_composite);
        reveal(read_auth_text);
    }
    if plaintext.len() < 5 {
        return Err(ProtocolError::FrameTooShort);
    }
    let meta_len: usize = be32_at(plaintext, 0) as usize;
    proof {
        assert(meta_len == buffer::be32_value(plaintext@));
    }
    if plaintext.len() - 5 < meta_len {
        return Err(ProtocolError::FrameTooShort);
    }
    let value = match Json::from_slice(&plaintext[4..4 + meta_len]) {
        Ok(value) => value,
        Err(reason) => return Err(ProtocolError::Json(reason)),
    };
    match AuthMessage::from_json(value) {
        Ok(message) => Ok(message),
        Err(reason) => Err(ProtocolError::Json(reason)),
    }
}

/// The packet that submits a credential.
pub open spec fn auth_request(credential: Seq<char>, encryption: EncryptionKind) -> AuthEnvelope {
    AuthEnvelope { encryption, message: AuthInfo::AuthRequest { credential } }
}

/// The packet that accepts a credential.
pub open spec fn auth_accepted(encryption: EncryptionKind) -> AuthEnvelope {
    AuthEnvelope { encryption, message: AuthInfo::AuthResponse { ok: true, error: None } }
}

/// The packet that refuses a credential.
pub open spec fn auth_refused(error: ErrorInfo, encryption: EncryptionKind) -> AuthEnvelope {
    AuthEnvelope { encryption, message: AuthInfo::AuthResponse { ok: false, error: Some(error) } }
}

/// What a message says of the submitted credential: whether it is accepted, or why not.
pub open spec fn verdict_in(message: AuthInfo) -> Option<Result<(), ErrorInfo>> {
    match message {
        AuthInfo::AuthRequest { .. } => None,
        AuthInfo::AuthResponse { ok, error } => if ok {
            Some(Ok(()))
        } else {
            match error {
                Some(e) => Some(Err(e)),
                None => Some(Err(client::unexplained())),
            }
        },
    }
}

/// What a message says of the submitted credential.
pub(crate) fn take_verdict(message: AuthMessage) -> (r: Option<Result<(), ErrorPayload>>)
    ensures
        match r {
            Some(Ok(_)) => verdict_in(message@) == Some(Ok::<(), ErrorInfo>(())),
            Some(Err(e)) => verdict_in(message@) == Some(Err::<(), ErrorInfo>(e@)),
            None => verdict_in(message@) is None,
        },
{
    match message {
        AuthMessage::AuthRequest { .. } => None,
        AuthMessage::AuthResponse { ok, error } => {
            if ok {
                Some(Ok(()))
            } else {
                match error {
                    Some(e) => Some(Err(e)),
                    None => Some(Err(client::unexplained_payload())),
                }
            }
        },
    }
}

/// What the server says of a credential is what the client learns: that it is
/// accepted, or the error with which it is refused.
pub proof fn lemma_verdict_reaches_client(error: ErrorInfo, encryption: EncryptionKind)
    ensures
        verdict_in(received(auth_accepted(encryption)).message) == Some(Ok::<(), ErrorInfo>(())),
        verdict_in(received(auth_refused(error, encryption)).message) == Some(
            Err::<(), ErrorInfo>(error.normal()),
        ),
{
}

/// No frame is at once one of the authentication phase and one of a live connection.
pub proof fn lemma_auth_frames_are_apart(codec: Codec, bytes: Seq<u8>)
    ensures
        !(codec.decode(bytes) is Ok && codec.decode_auth(bytes) is Ok),
{
}

} // verus!
