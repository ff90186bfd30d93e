//! Packet bodies, their envelope, and the compact JSON form of a body.
use crate::attachment;
use crate::attachment::{Attachment, FileAttachment};
use crate::error::{Failure, ProtocolError};
use crate::json;
use crate::json::{Json, JsonMap, Tree};
use crate::mismatch;
use crate::mismatch::{
    check_text, check_uint, find_fault, length_error, missing_field, read_variant, with_keys,
    wrong_type,
};
use crate::text;
use crate::text::{debug_text, decimal_text, join, text_eq};
use vstd::prelude::*;

verus! {

/// Distinguishes API messages from event messages inside a WSCALL frame.
#[derive(Debug, Clone, Copy, PartialEq, Eq, Structural)]
pub enum MessageType {
    /// API request or API response.
    Api,
    /// Event emit or event acknowledgement.
    Event,
}

/// Selects how the payload section of a frame is encoded.
#[derive(Debug, Clone, Copy, PartialEq, Eq, Structural)]
pub enum EncryptionKind {
    /// Unencrypted JSON payload.
    Plaintext,
    /// ChaCha20-Poly1305 encrypted payload.
    ChaCha20,
    /// AES256-GCM encrypted payload.
    Aes256,
}

impl MessageType {
    /// The byte that stands for the message type in a frame header.
    pub open spec fn code(self) -> u8 {
        match self {
            MessageType::Api => 0,
            MessageType::Event => 1,
        }
    }

    /// The byte that stands for the message type in a frame header.
    pub fn to_byte(self) -> (value: u8)
        ensures
            value == self.code(),
    {
        match self {
            MessageType::Api => 0,
            MessageType::Event => 1,
        }
    }
}

impl TryFrom<u8> for MessageType {
    type Error = ProtocolError;

    fn try_from(value: u8) -> (r: Result<Self, ProtocolError>)
        ensures
            match r {
                Ok(kind) => kind.code() == value,
                Err(e) => value > 1 && e@ == Failure::UnknownMessageType(value),
            },
    {
        match value {
            0 => Ok(MessageType::Api),
            1 => Ok(MessageType::Event),
            _ => Err(ProtocolError::UnknownMessageType(value)),
        }
    }
}

impl vstd::std_specs::convert::TryFromSpecImpl<u8> for MessageType {
    open spec fn obeys_try_from_spec() -> bool {
        true
    }

    open spec fn try_from_spec(value: u8) -> Result<Self, ProtocolError> {
        match value {
            0 => Ok(MessageType::Api),
            1 => Ok(MessageType::Event),
            _ => Err(ProtocolError::UnknownMessageType(value)),
        }
    }
}

impl EncryptionKind {
    /// The byte that stands for the encryption mode in a frame header.
    pub open spec fn code(self) -> u8 {
        match self {
            EncryptionKind::Plaintext => 0,
            EncryptionKind::ChaCha20 => 1,
            EncryptionKind::Aes256 => 2,
        }
    }

    /// The byte that stands for the encryption mode in a frame header.
    pub fn to_byte(self) -> (value: u8)
        ensures
            value == self.code(),
    {
        match self {
            EncryptionKind::Plaintext => 0,
            EncryptionKind::ChaCha20 => 1,
            EncryptionKind::Aes256 => 2,
        }
    }
}

impl TryFrom<u8> for EncryptionKind {
    type Error = ProtocolError;

    fn try_from(value: u8) -> (r: Result<Self, ProtocolError>)
        ensures
            match r {
                Ok(kind) => kind.code() == value,
                Err(e) => value > 2 && e@ == Failure::UnknownEncryption(value),
            },
    {
        match value {
            0 => Ok(EncryptionKind::Plaintext),
            1 => Ok(EncryptionKind::ChaCha20),
            2 => Ok(EncryptionKind::Aes256),
            _ => Err(ProtocolError::UnknownEncryption(value)),
        }
    }
}

impl vstd::std_specs::convert::TryFromSpecImpl<u8> for EncryptionKind {
    open spec fn obeys_try_from_spec() -> bool {
        true
    }

    open spec fn try_from_spec(value: u8) -> Result<Self, ProtocolError> {
        match value {
            0 => Ok(EncryptionKind::Plaintext),
            1 => Ok(EncryptionKind::ChaCha20),
            2 => Ok(EncryptionKind::Aes256),
            _ => Err(ProtocolError::UnknownEncryption(value)),
        }
    }
}

/// Standard error payload embedded in API responses and event acknowledgements.
#[derive(Debug)]
pub struct ErrorPayload {
    pub code: String,
    pub message: String,
    pub status: u16,
    pub details: Option<Json>,
}

/// What an [`ErrorPayload`] holds.
pub struct ErrorInfo {
    pub code: Seq<char>,
    pub message: Seq<char>,
    pub status: u16,
    pub details: Option<Tree>,
}

impl View for ErrorPayload {
    type V = ErrorInfo;

    open spec fn view(&self) -> ErrorInfo {
        ErrorInfo {
            code: self.code@,
            message: self.message@,
            status: self.status,
            details: match self.details {
                Some(details) => Some(details@),
                None => None,
            },
        }
    }
}

/// What an optional error payload holds.
pub open spec fn error_view(error: Option<ErrorPayload>) -> Option<ErrorInfo> {
    match error {
        Some(e) => Some(e@),
        None => None,
    }
}

/// JSON-level message body transported inside a WSCALL frame.
///
/// The JSON form uses short keys and a numeric `k` tag:
///
/// | Variant | `k` | Fields |
/// | --- | --- | --- |
/// | `ApiRequest`  | 0 | `i` `r` `p` `a` `m` |
/// | `EventEmit`   | 1 | `i` `n` `d` `a` `m` `e` |
/// | `ApiResponse` | 2 | `i` `o` `s` `d` `m` [`er`] |
/// | `EventAck`    | 3 | `i` `o` `rc` [`er`] |
#[derive(Debug)]
#[allow(inconsistent_fields)]
pub enum PacketBody {
    /// Client-to-server API request.
    ApiRequest {
        request_id: u64,
        route: String,
        params: Json,
        attachments: Vec<FileAttachment>,
        metadata: Json,
    },
    /// Server-to-client API response.
    ApiResponse {
        request_id: u64,
        ok: bool,
        status: u16,
        data: Json,
        error: Option<ErrorPayload>,
        metadata: Json,
    },
    /// Event emission in either direction. The data is always a JSON object.
    EventEmit {
        event_id: u64,
        name: String,
        data: JsonMap,
        attachments: Vec<FileAttachment>,
        metadata: Json,
        expect_ack: bool,
    },
    /// Acknowledgement for an emitted event.
    EventAck { event_id: u64, ok: bool, receipt: Json, error: Option<ErrorPayload> },
}

/// What a [`PacketBody`] holds.
#[allow(inconsistent_fields)]
pub enum Body {
    ApiRequest {
        request_id: u64,
        route: Seq<char>,
        params: Tree,
        attachments: Seq<Attachment>,
        metadata: Tree,
    },
    ApiResponse {
        request_id: u64,
        ok: bool,
        status: u16,
        data: Tree,
        error: Option<ErrorInfo>,
        metadata: Tree,
    },
    EventEmit {
        event_id: u64,
        name: Seq<char>,
        data: Seq<(Seq<char>, Tree)>,
        attachments: Seq<Attachment>,
        metadata: Tree,
        expect_ack: bool,
    },
    EventAck { event_id: u64, ok: bool, receipt: Tree, error: Option<ErrorInfo> },
}

impl View for PacketBody {
    type V = Body;

    open spec fn view(&self) -> Body {
        match self {
            PacketBody::ApiRequest { request_id, route, params, attachments, metadata } => {
                Body::ApiRequest {
                    request_id: *request_id,
                    route: route@,
                    params: params@,
                    attachments: attachment::attachment_views(attachments@),
                    metadata: metadata@,
                }
            },
            PacketBody::ApiResponse { request_id, ok, status, data, error, metadata } => {
                Body::ApiResponse {
                    request_id: *request_id,
                    ok: *ok,
                    status: *status,
                    data: data@,
                    error: error_view(*error),
                    metadata: metadata@,
                }
            },
            PacketBody::EventEmit { event_id, name, data, attachments, metadata, expect_ack } => {
                Body::EventEmit {
                    event_id: *event_id,
                    name: name@,
                    data: data@,
                    attachments: attachment::attachment_views(attachments@),
                    metadata: metadata@,
                    expect_ack: *expect_ack,
                }
            },
            PacketBody::EventAck { event_id, ok, receipt, error } => Body::EventAck {
                event_id: *event_id,
                ok: *ok,
                receipt: receipt@,
                error: error_view(*error),
            },
        }
    }
}

/// Compact numeric tag of an API request.
pub const K_API_REQUEST: u8 = 0;

/// Compact numeric tag of an emitted event.
pub const K_EVENT_EMIT: u8 = 1;

/// Compact numeric tag of an API response.
pub const K_API_RESPONSE: u8 = 2;

/// Compact numeric tag of an event acknowledgement.
pub const K_EVENT_ACK: u8 = 3;

/// The metadata carries no information: it is null or an empty object.
pub open spec fn is_empty_metadata(metadata: Tree) -> bool {
    metadata is Null || metadata == Tree::Object(Seq::empty())
}

/// The metadata member, left out where the metadata carries no information.
pub open spec fn metadata_members(metadata: Tree) -> Seq<(Seq<char>, Tree)> {
    if is_empty_metadata(metadata) {
        Seq::empty()
    } else {
        seq![("m"@, metadata)]
    }
}

impl ErrorInfo {
    /// The JSON form of an error payload.
    pub open spec fn tree(self) -> Tree {
        let members = seq![
            ("code"@, Tree::Text(self.code)),
            ("message"@, Tree::Text(self.message)),
            ("status"@, Tree::Int(self.status as int)),
        ];
        Tree::Object(
            match self.details {
                Some(details) => members.push(("details"@, details)),
                None => members,
            },
        )
    }

    /// The payload with details that are null left out: the JSON form does not
    /// tell the two apart when it is read.
    pub open spec fn normal(self) -> ErrorInfo {
        ErrorInfo {
            details: if self.details == Some(Tree::Null) {
                None
            } else {
                self.details
            },
            ..self
        }
    }
}

impl ErrorInfo {
    /// The `Debug` form of a structure named `name` with the payload's fields.
    pub open spec fn debug_form(self, name: Seq<char>) -> Seq<char> {
        name + " { code: "@ + text::debug_str(self.code) + ", message: "@ + text::debug_str(
            self.message,
        ) + ", status: "@ + text::decimal(self.status as nat) + ", details: "@ + (
        match self.details {
            Some(details) => "Some("@ + json::value_debug(details) + ")"@,
            None => "None"@,
        }) + " }"@
    }
}

/// The error member, left out where there is no error.
pub open spec fn error_members(error: Option<ErrorInfo>) -> Seq<(Seq<char>, Tree)> {
    match error {
        Some(e) => seq![("er"@, e.tree())],
        None => Seq::empty(),
    }
}

impl Body {
    pub open spec fn message_type(self) -> MessageType {
        match self {
            Body::ApiRequest { .. } | Body::ApiResponse { .. } => MessageType::Api,
            Body::EventEmit { .. } | Body::EventAck { .. } => MessageType::Event,
        }
    }

    /// The attachments of the body; responses and acknowledgements have none.
    pub open spec fn attachments(self) -> Seq<Attachment> {
        match self {
            Body::ApiRequest { attachments, .. } => attachments,
            Body::EventEmit { attachments, .. } => attachments,
            _ => Seq::empty(),
        }
    }

    /// The body with other attachments, where it can have any.
    pub open spec fn with_attachments(self, attachments: Seq<Attachment>) -> Body {
        match self {
            Body::ApiRequest { request_id, route, params, metadata, .. } => {
                Body::ApiRequest { request_id, route, params, attachments, metadata }
            },
            Body::EventEmit { event_id, name, data, metadata, expect_ack, .. } => {
                Body::EventEmit { event_id, name, data, attachments, metadata, expect_ack }
            },
            _ => self,
        }
    }

    /// The members of the body's JSON form, in the order in which they are written.
    pub open spec fn members(self) -> Seq<(Seq<char>, Tree)> {
        match self {
            Body::ApiRequest { request_id, route, params, metadata, .. } => seq![
                ("k"@, Tree::Int(K_API_REQUEST as int)),
                ("i"@, Tree::Int(request_id as int)),
                ("r"@, Tree::Text(route)),
                ("p"@, params),
            ] + metadata_members(metadata),
            Body::ApiResponse { request_id, ok, status, data, error, metadata } => seq![
                ("k"@, Tree::Int(K_API_RESPONSE as int)),
                ("i"@, Tree::Int(request_id as int)),
                ("o"@, Tree::Bool(ok)),
                ("s"@, Tree::Int(status as int)),
                ("d"@, data),
            ] + error_members(error) + metadata_members(metadata),
            Body::EventEmit { event_id, name, data, metadata, expect_ack, .. } => seq![
                ("k"@, Tree::Int(K_EVENT_EMIT as int)),
                ("i"@, Tree::Int(event_id as int)),
                ("n"@, Tree::Text(name)),
                ("d"@, Tree::Object(data)),
            ] + metadata_members(metadata) + seq![("e"@, Tree::Bool(expect_ack))],
            Body::EventAck { event_id, ok, receipt, error } => seq![
                ("k"@, Tree::Int(K_EVENT_ACK as int)),
                ("i"@, Tree::Int(event_id as int)),
                ("o"@, Tree::Bool(ok)),
                ("rc"@, receipt),
            ] + error_members(error),
        }
    }

    /// The JSON form of the body. Attachments are not part of it.
    pub open spec fn tree(self) -> Tree {
        Tree::Object(self.members())
    }

    /// The body as reading its JSON form gives it back: metadata that carries no
    /// information and details that are null are left out.
    pub open spec fn normal(self) -> Body {
        match self {
            Body::ApiRequest { request_id, route, params, attachments, metadata } => {
                Body::ApiRequest {
                    request_id,
                    route,
                    params,
                    attachments,
                    metadata: normal_metadata(metadata),
                }
            },
            Body::ApiResponse { request_id, ok, status, data, error, metadata } => {
                Body::ApiResponse {
                    request_id,
                    ok,
                    status,
                    data,
                    error: normal_error(error),
                    metadata: normal_metadata(metadata),
                }
            },
            Body::EventEmit { event_id, name, data, attachments, metadata, expect_ack } => {
                Body::EventEmit {
                    event_id,
                    name,
                    data,
                    attachments,
                    metadata: normal_metadata(metadata),
                    expect_ack,
                }
            },
            Body::EventAck { event_id, ok, receipt, error } => Body::EventAck {
                event_id,
                ok,
                receipt,
                error: normal_error(error),
            },
        }
    }
}

pub open spec fn normal_metadata(metadata: Tree) -> Tree {
    if is_empty_metadata(metadata) {
        Tree::Null
    } else {
        metadata
    }
}

pub open spec fn normal_error(error: Option<ErrorInfo>) -> Option<ErrorInfo> {
    match error {
        Some(e) => Some(e.normal()),
        None => None,
    }
}

/// The keys of an error payload's JSON form.
pub open spec fn error_keys() -> Seq<&'static str> {
    seq!["code", "message", "status", "details"]
}

/// What is wrong with a member of an error payload's JSON form. Other keys do not
/// matter.
pub open spec fn error_fault(key: Seq<char>, tree: Tree) -> Option<Seq<char>> {
    if key == "code"@ || key == "message"@ {
        mismatch::text_fault(tree)
    } else if key == "status"@ {
        mismatch::uint_fault(tree, u16::MAX as int, "u16"@)
    } else {
        None
    }
}

/// What is wrong with the first member of an error payload's JSON form that is not
/// right.
pub open spec fn error_faults(members: Seq<(Seq<char>, Tree)>) -> Option<Seq<char>> {
    mismatch::first_fault(members, |key: Seq<char>, tree: Tree| error_fault(key, tree))
}

/// The error payload that members without a fault stand for, or the reason why they
/// stand for none: one is missing. Details that are null are no details.
pub open spec fn error_of(members: Seq<(Seq<char>, Tree)>) -> Result<ErrorInfo, Seq<char>> {
    match (
        json::member(members, "code"@),
        json::member(members, "message"@),
        json::member(members, "status"@),
    ) {
        (None, _, _) => Err(mismatch::missing_field_text("code"@)),
        (_, None, _) => Err(mismatch::missing_field_text("message"@)),
        (_, _, None) => Err(mismatch::missing_field_text("status"@)),
        (Some(code), Some(message), Some(status)) => Ok(
            ErrorInfo {
                code: code->Text_0,
                message: message->Text_0,
                status: status->Int_0 as u16,
                details: match json::member(members, "details"@) {
                    Some(Tree::Null) => None,
                    details => details,
                },
            },
        ),
    }
}

/// The error payload that a JSON value stands for, or the reason why it stands for
/// none: an object with its fields, or an array of the four values.
pub open spec fn tree_error(tree: Tree) -> Result<ErrorInfo, Seq<char>> {
    match tree {
        Tree::Object(members) => match error_faults(members) {
            Some(reason) => Err(reason),
            None => error_of(members),
        },
        Tree::Array(items) => {
            let members = mismatch::keyed(items, error_keys());
            match error_faults(members) {
                Some(reason) => Err(reason),
                None => if items.len() < 4 {
                    Err(
                        mismatch::length_error_text(
                            items.len(),
                            "struct ErrorPayload with 4 elements"@,
                        ),
                    )
                } else if items.len() > 4 {
                    Err(mismatch::length_error_text(items.len(), "fewer elements in array"@))
                } else {
                    error_of(members)
                },
            }
        },
        _ => Err(mismatch::type_error_text(tree, "struct ErrorPayload"@)),
    }
}

/// The required integer at `key`, or the reason why there is none.
pub open spec fn read_u64(members: Seq<(Seq<char>, Tree)>, key: Seq<char>) -> Result<
    u64,
    Seq<char>,
> {
    match json::member(members, key) {
        Some(tree) => match json::tree_u64(tree) {
            Some(n) => Ok(n),
            None => Err("missing or non-numeric '"@ + key + "' field in packet body"@),
        },
        None => Err("missing or non-numeric '"@ + key + "' field in packet body"@),
    }
}

/// The required string at `key`, or the reason why there is none.
pub open spec fn read_text(members: Seq<(Seq<char>, Tree)>, key: Seq<char>) -> Result<
    Seq<char>,
    Seq<char>,
> {
    match json::member(members, key) {
        Some(Tree::Text(found)) => Ok(found),
        _ => Err("missing or non-string '"@ + key + "' field in packet body"@),
    }
}

/// The optional object at `key`, empty where it is absent.
pub open spec fn read_object(members: Seq<(Seq<char>, Tree)>, key: Seq<char>) -> Result<
    Seq<(Seq<char>, Tree)>,
    Seq<char>,
> {
    match json::member(members, key) {
        None => Ok(Seq::empty()),
        Some(Tree::Object(found)) => Ok(found),
        Some(_) => Err("'"@ + key + "' field must be a JSON object"@),
    }
}

/// The optional boolean at `key`, false where it is absent or of another kind.
pub open spec fn read_bool(members: Seq<(Seq<char>, Tree)>, key: Seq<char>) -> bool {
    json::member(members, key) == Some(Tree::Bool(true))
}

/// The low 16 bits of the optional integer at `key`, 0 where it is absent or of
/// another kind.
pub open spec fn read_u16(members: Seq<(Seq<char>, Tree)>, key: Seq<char>) -> u16 {
    match json::member(members, key) {
        Some(tree) => match json::tree_u64(tree) {
            Some(n) => (n % 65536) as u16,
            None => 0,
        },
        None => 0,
    }
}

/// The optional value at `key`, null where it is absent.
pub open spec fn read_value(members: Seq<(Seq<char>, Tree)>, key: Seq<char>) -> Tree {
    match json::member(members, key) {
        Some(tree) => tree,
        None => Tree::Null,
    }
}

/// The optional attachments at `a`.
pub open spec fn read_attachments(members: Seq<(Seq<char>, Tree)>) -> Result<
    Seq<Attachment>,
    Seq<char>,
> {
    match json::member(members, "a"@) {
        None => Ok(Seq::empty()),
        Some(tree) => attachment::tree_attachments(tree),
    }
}

/// The optional error payload at `er`.
pub open spec fn read_error(members: Seq<(Seq<char>, Tree)>) -> Result<
    Option<ErrorInfo>,
    Seq<char>,
> {
    match json::member(members, "er"@) {
        None => Ok(None),
        Some(tree) => match tree_error(tree) {
            Ok(error) => Ok(Some(error)),
            Err(reason) => Err(reason),
        },
    }
}

/// The body that an object with `k` of a request stands for.
pub open spec fn read_request(members: Seq<(Seq<char>, Tree)>) -> Result<Body, Seq<char>> {
    match (read_u64(members, "i"@), read_text(members, "r"@), read_attachments(members)) {
        (Err(reason), _, _) => Err(reason),
        (_, Err(reason), _) => Err(reason),
        (_, _, Err(reason)) => Err(reason),
        (Ok(request_id), Ok(route), Ok(attachments)) => Ok(
            Body::ApiRequest {
                request_id,
                route,
                params: read_value(members, "p"@),
                attachments,
                metadata: read_value(members, "m"@),
            },
        ),
    }
}

/// The body that an object with `k` of an event stands for.
pub open spec fn read_emit(members: Seq<(Seq<char>, Tree)>) -> Result<Body, Seq<char>> {
    match (
        read_u64(members, "i"@),
        read_text(members, "n"@),
        read_object(members, "d"@),
        read_attachments(members),
    ) {
        (Err(reason), _, _, _) => Err(reason),
        (_, Err(reason), _, _) => Err(reason),
        (_, _, Err(reason), _) => Err(reason),
        (_, _, _, Err(reason)) => Err(reason),
        (Ok(event_id), Ok(name), Ok(data), Ok(attachments)) => Ok(
            Body::EventEmit {
                event_id,
                name,
                data,
                attachments,
                metadata: read_value(members, "m"@),
                expect_ack: read_bool(members, "e"@),
            },
        ),
    }
}

/// The body that an object with `k` of a response stands for.
pub open spec fn read_response(members: Seq<(Seq<char>, Tree)>) -> Result<Body, Seq<char>> {
    match (read_u64(members, "i"@), read_error(members)) {
        (Err(reason), _) => Err(reason),
        (_, Err(reason)) => Err(reason),
        (Ok(request_id), Ok(error)) => Ok(
            Body::ApiResponse {
                request_id,
                ok: read_bool(members, "o"@),
                status: read_u16(members, "s"@),
                data: read_value(members, "d"@),
                error,
                metadata: read_value(members, "m"@),
            },
        ),
    }
}

/// The body that an object with `k` of an acknowledgement stands for.
pub open spec fn read_ack(members: Seq<(Seq<char>, Tree)>) -> Result<Body, Seq<char>> {
    match (read_u64(members, "i"@), read_error(members)) {
        (Err(reason), _) => Err(reason),
        (_, Err(reason)) => Err(reason),
        (Ok(event_id), Ok(error)) => Ok(
            Body::EventAck {
                event_id,
                ok: read_bool(members, "o"@),
                receipt: read_value(members, "rc"@),
                error,
            },
        ),
    }
}

/// The body that a JSON value stands for, or the reason why it stands for none.
pub open spec fn read_body(tree: Tree) -> Result<Body, Seq<char>> {
    match tree {
        Tree::Object(members) => match read_u64(members, "k"@) {
            Err(reason) => Err(reason),
            Ok(k) => if k > 255 {
                Err("'k' value "@ + text::decimal(k as nat) + " is outside the valid range"@)
            } else if k == K_API_REQUEST {
                read_request(members)
            } else if k == K_EVENT_EMIT {
                read_emit(members)
            } else if k == K_API_RESPONSE {
                read_response(members)
            } else if k == K_EVENT_ACK {
                read_ack(members)
            } else {
                Err("unknown 'k' value: "@ + text::decimal(k as nat))
            },
        },
        _ => Err("packet body must be a JSON object"@),
    }
}

/// The keys of a body are pairwise distinct.
proof fn lemma_keys()
    ensures
        "k"@ != "i"@,
        "k"@ != "r"@,
        "k"@ != "p"@,
        "k"@ != "m"@,
        "k"@ != "o"@,
        "k"@ != "s"@,
        "k"@ != "d"@,
        "k"@ != "er"@,
        "k"@ != "n"@,
        "k"@ != "e"@,
        "k"@ != "rc"@,
        "k"@ != "a"@,
        "i"@ != "r"@,
        "i"@ != "p"@,
        "i"@ != "m"@,
        "i"@ != "o"@,
        "i"@ != "s"@,
        "i"@ != "d"@,
        "i"@ != "er"@,
        "i"@ != "n"@,
        "i"@ != "e"@,
        "i"@ != "rc"@,
        "i"@ != "a"@,
        "r"@ != "p"@,
        "r"@ != "m"@,
        "r"@ != "a"@,
        "p"@ != "m"@,
        "p"@ != "a"@,
        "o"@ != "s"@,
        "o"@ != "d"@,
        "o"@ != "er"@,
        "o"@ != "m"@,
        "o"@ != "rc"@,
        "s"@ != "d"@,
        "s"@ != "er"@,
        "s"@ != "m"@,
        "d"@ != "er"@,
        "d"@ != "m"@,
        "d"@ != "e"@,
        "d"@ != "a"@,
        "n"@ != "d"@,
        "n"@ != "m"@,
        "n"@ != "e"@,
        "n"@ != "a"@,
        "er"@ != "m"@,
        "er"@ != "rc"@,
        "rc"@ != "m"@,
        "m"@ != "e"@,
        "m"@ != "a"@,
        "e"@ != "a"@,
{
    reveal_strlit("k");
    reveal_strlit("i");
    reveal_strlit("r");
    reveal_strlit("p");
    reveal_strlit("m");
    reveal_strlit("o");
    reveal_strlit("s");
    reveal_strlit("d");
    reveal_strlit("er");
    reveal_strlit("n");
    reveal_strlit("e");
    reveal_strlit("rc");
    reveal_strlit("a");
    assert("k"@[0] == 'k');
    assert("i"@[0] == 'i');
    assert("r"@[0] == 'r');
    assert("p"@[0] == 'p');
    assert("m"@[0] == 'm');
    assert("o"@[0] == 'o');
    assert("s"@[0] == 's');
    assert("d"@[0] == 'd');
    assert("n"@[0] == 'n');
    assert("e"@[0] == 'e');
    assert("a"@[0] == 'a');
    assert("er"@.len() == 2);
    assert("rc"@.len() == 2);
    assert("er"@[0] == 'e');
    assert("rc"@[0] == 'r');
}

/// The keys of an error payload are pairwise distinct.
pub(crate) proof fn lemma_error_keys()
    ensures
        "code"@ != "message"@,
        "code"@ != "status"@,
        "code"@ != "details"@,
        "message"@ != "status"@,
        "message"@ != "details"@,
        "status"@ != "details"@,
{
    reveal_strlit("code");
    reveal_strlit("message");
    reveal_strlit("status");
    reveal_strlit("details");
    assert("code"@[0] == 'c');
    assert("message"@[0] == 'm');
    assert("status"@[0] == 's');
    assert("details"@[0] == 'd');
}

proof fn lemma_members_distinct(body: Body)
    ensures
        json::distinct_keys(body.members()),
{
    lemma_keys();
}

proof fn lemma_error_distinct(error: ErrorInfo)
    ensures
        json::distinct_keys(error.tree()->Object_0),
{
    lemma_error_keys();
}

/// Reading the JSON form of an error payload gives it back, but for details that
/// are null.
pub proof fn lemma_error_round_trip(error: ErrorInfo)
    ensures
        tree_error(error.tree()) == Ok::<ErrorInfo, Seq<char>>(error.normal()),
{
    let members = error.tree()->Object_0;
    lemma_error_keys();
    assert forall|i: int| 0 <= i < members.len() implies error_fault(
        (#[trigger] members[i]).0,
        members[i].1,
    ) is None by {}
    mismatch::lemma_faultless(members, |key: Seq<char>, tree: Tree| error_fault(key, tree));
    lemma_error_distinct(error);
    json::lemma_member_at(members, 0);
    json::lemma_member_at(members, 1);
    json::lemma_member_at(members, 2);
    if error.details is Some {
        json::lemma_member_at(members, 3);
    } else {
        json::lemma_member_absent(members, "details"@);
    }
}

/// Reading the JSON form of a body gives the body back, without attachments and
/// without the metadata and details that carry no information.
pub proof fn lemma_body_round_trip(body: Body)
    ensures
        read_body(body.tree()) == Ok::<Body, Seq<char>>(
            body.normal().with_attachments(Seq::empty()),
        ),
{
    let members = body.members();
    lemma_keys();
    lemma_members_distinct(body);
    json::lemma_member_at(members, 0);
    json::lemma_member_at(members, 1);
    json::lemma_member_at(members, 2);
    json::lemma_member_at(members, 3);
    match body {
        Body::ApiRequest { metadata, .. } => {
            json::lemma_member_absent(members, "a"@);
            if is_empty_metadata(metadata) {
                json::lemma_member_absent(members, "m"@);
            } else {
                json::lemma_member_at(members, 4);
            }
        },
        Body::ApiResponse { error, metadata, .. } => {
            json::lemma_member_at(members, 4);
            match error {
                Some(e) => {
                    lemma_error_round_trip(e);
                    json::lemma_member_at(members, 5);
                    if is_empty_metadata(metadata) {
                        json::lemma_member_absent(members, "m"@);
                    } else {
                        json::lemma_member_at(members, 6);
                    }
                },
                None => {
                    json::lemma_member_absent(members, "er"@);
                    if is_empty_metadata(metadata) {
                        json::lemma_member_absent(members, "m"@);
                    } else {
                        json::lemma_member_at(members, 5);
                    }
                },
            }
        },
        Body::EventEmit { metadata, .. } => {
            json::lemma_member_absent(members, "a"@);
            json::lemma_member_at(members, 4);
            if is_empty_metadata(metadata) {
                json::lemma_member_absent(members, "m"@);
            } else {
                json::lemma_member_at(members, 5);
            }
        },
        Body::EventAck { error, .. } => {
            match error {
                Some(e) => {
                    lemma_error_round_trip(e);
                    json::lemma_member_at(members, 4);
                },
                None => {
                    json::lemma_member_absent(members, "er"@);
                },
            }
        },
    }
}

/// Metadata that carries no information is not written.
pub proof fn lemma_empty_metadata_is_omitted(body: Body)
    requires
        match body {
            Body::ApiRequest { metadata, .. } => is_empty_metadata(metadata),
            Body::ApiResponse { metadata, .. } => is_empty_metadata(metadata),
            Body::EventEmit { metadata, .. } => is_empty_metadata(metadata),
            Body::EventAck { .. } => true,
        },
    ensures
        json::member(body.members(), "m"@) is None,
{
    lemma_keys();
    json::lemma_member_absent(body.members(), "m"@);
}

/// True where the metadata carries no information (null or `{}`).
fn metadata_is_empty(metadata: &Json) -> (r: bool)
    ensures
        r == is_empty_metadata(metadata@),
{
    match metadata {
        Json::Null => true,
        Json::Object(map) => {
            proof {
                if map@.len() == 0 {
                    assert(map@ =~= Seq::empty());
                }
            }
            map.is_empty()
        },
        _ => false,
    }
}

impl ErrorPayload {
    /// The payload's JSON form.
    pub fn to_json(&self) -> (r: Json)
        ensures
            r@ == self@.tree(),
    {
        let mut members: Vec<(String, Json)> = Vec::with_capacity(4);
        members.push(("code".to_owned(), Json::String(self.code.clone())));
        members.push(("message".to_owned(), Json::String(self.message.clone())));
        members.push(("status".to_owned(), Json::Unsigned(self.status as u64)));
        if let Some(details) = &self.details {
            members.push(("details".to_owned(), details.clone()));
        }
        proof {
            json::lemma_pair_trees(members@);
            assert(json::pair_trees(members@) =~= self@.tree()->Object_0);
            lemma_error_distinct(self@);
            json::lemma_collapse_same(self@.tree()->Object_0);
        }
        Json::Object(JsonMap { members })
    }

    /// The payload that a JSON value stands for, or the reason why it stands for none.
    pub fn from_json(value: Json) -> (r: Result<Self, String>)
        ensures
            match r {
                Ok(error) => tree_error(value@) == Ok::<ErrorInfo, Seq<char>>(error@),
                Err(reason) => tree_error(value@) == Err::<ErrorInfo, Seq<char>>(reason@),
            },
    {
        proof {
            mismatch::lemma_expectations();
            lemma_error_keys();
        }
        match value {
            Json::Object(map) => {
                let map = map.compact();
                match Self::faults(&map) {
                    Some(reason) => Err(reason),
                    None => Self::from_members(map),
                }
            },
            Json::Array(items) => {
                let len: usize = items.len();
                let keys: &'static [&'static str] = &["code", "message", "status", "details"];
                proof {
                    assert(keys@ =~= error_keys());
                    json::lemma_item_trees(items@);
                }
                let map = with_keys(items, keys);
                if let Some(reason) = Self::faults(&map) {
                    return Err(reason);
                }
                if len < 4 {
                    Err(length_error(len, "struct ErrorPayload with 4 elements"))
                } else if len > 4 {
                    Err(length_error(len, "fewer elements in array"))
                } else {
                    Self::from_members(map)
                }
            },
            _ => Err(wrong_type(&value, "struct ErrorPayload")),
        }
    }

    /// The `Debug` form of a structure named `name` with the payload's fields.
    pub(crate) fn debug_form(&self, name: &str) -> (r: String)
        ensures
            r@ == self@.debug_form(name@),
    {
        let details = match &self.details {
            Some(details) => {
                let mut form = join("Some(", details.debug_text().as_str());
                form.append(")");
                form
            },
            None => "None".to_owned(),
        };
        let mut r = join(name, " { code: ");
        r.append(debug_text(self.code.as_str()).as_str());
        r.append(", message: ");
        r.append(debug_text(self.message.as_str()).as_str());
        r.append(", status: ");
        r.append(decimal_text(self.status as u128).as_str());
        r.append(", details: ");
        r.append(details.as_str());
        r.append(" }");
        r
    }

    fn faults(map: &JsonMap) -> (r: Option<String>)
        requires
            json::pair_trees(map.members@) == map@,
        ensures
            mismatch::optional_text(r) == error_faults(map@),
    {
        find_fault(
            map,
            check_error_member,
            Ghost(|key: Seq<char>, tree: Tree| error_fault(key, tree)),
        )
    }

    fn from_members(map: JsonMap) -> (r: Result<Self, String>)
        requires
            error_faults(map@) is None,
        ensures
            match r {
                Ok(error) => error_of(map@) == Ok::<ErrorInfo, Seq<char>>(error@),
                Err(reason) => error_of(map@) == Err::<ErrorInfo, Seq<char>>(reason@),
            },
    {
        let mut map = map;
        let ghost members = map@;
        proof {
            let fault = |key: Seq<char>, tree: Tree| error_fault(key, tree);
            lemma_error_keys();
            mismatch::lemma_no_fault(members, fault, "code"@);
            mismatch::lemma_no_fault(members, fault, "message"@);
            mismatch::lemma_no_fault(members, fault, "status"@);
        }
        let code = match map.take("code") {
            Some(code) => code.into_text(),
            None => return Err(missing_field("code")),
        };
        let message = match map.take("message") {
            Some(message) => message.into_text(),
            None => return Err(missing_field("message")),
        };
        let status: u16 = match map.take("status") {
            Some(status) => match status.as_u64() {
                Some(n) => n as u16,
                None => 0,
            },
            None => return Err(missing_field("status")),
        };
        let details = match map.take("details") {
            Some(Json::Null) => None,
            other => other,
        };
        Ok(ErrorPayload { code, message, status, details })
    }
}

/// Tells what is wrong with a member of an error payload's JSON form.
fn check_error_member(key: &str, value: &Json) -> (r: Option<String>)
    ensures
        mismatch::optional_text(r) == error_fault(key@, value@),
{
    if text_eq(key, "code") || text_eq(key, "message") {
        check_text(value)
    } else if text_eq(key, "status") {
        proof {
            mismatch::lemma_expectations();
        }
        check_uint(value, 65535, "u16")
    } else {
        None
    }
}

impl Clone for ErrorPayload {
    fn clone(&self) -> (copy: Self)
        ensures
            copy@ == self@,
    {
        ErrorPayload {
            code: self.code.clone(),
            message: self.message.clone(),
            status: self.status,
            details: match &self.details {
                Some(details) => Some(details.clone()),
                None => None,
            },
        }
    }
}

/// The outcome of a read agrees with the value that was to be read.
pub open spec fn read_agrees(r: Result<PacketBody, String>, expected: Result<Body, Seq<char>>) -> bool {
    match r {
        Ok(body) => expected == Ok::<Body, Seq<char>>(body@),
        Err(reason) => expected == Err::<Body, Seq<char>>(reason@),
    }
}

fn quoted(before: &str, key: &str, after: &str) -> (r: String)
    ensures
        r@ == before@ + key@ + after@,
{
    let mut r = before.to_owned();
    r.append(key);
    r.append(after);
    r
}

/// Moves a required unsigned integer field out of the map.
pub(crate) fn take_u64(map: &mut JsonMap, key: &str) -> (r: Result<u64, String>)
    ensures
        match r {
            Ok(n) => read_u64(old(map)@, key@) == Ok::<u64, Seq<char>>(n),
            Err(reason) => read_u64(old(map)@, key@) == Err::<u64, Seq<char>>(reason@),
        },
        forall|other: Seq<char>|
            other != key@ ==> #[trigger] json::member(final(map)@, other) == json::member(
                old(map)@,
                other,
            ),
{
    let found = match map.take(key) {
        Some(value) => value.as_u64(),
        None => None,
    };
    match found {
        Some(n) => Ok(n),
        None => Err(quoted("missing or non-numeric '", key, "' field in packet body")),
    }
}

/// Moves a required string field out of the map.
pub(crate) fn take_string(map: &mut JsonMap, key: &str) -> (r: Result<String, String>)
    ensures
        match r {
            Ok(found) => read_text(old(map)@, key@) == Ok::<Seq<char>, Seq<char>>(found@),
            Err(reason) => read_text(old(map)@, key@) == Err::<Seq<char>, Seq<char>>(reason@),
        },
        forall|other: Seq<char>|
            other != key@ ==> #[trigger] json::member(final(map)@, other) == json::member(
                old(map)@,
                other,
            ),
{
    match map.take(key) {
        Some(Json::String(found)) => Ok(found),
        _ => Err(quoted("missing or non-string '", key, "' field in packet body")),
    }
}

/// Moves an optional JSON object field, defaulting to an empty map.
fn take_object(map: &mut JsonMap, key: &str) -> (r: Result<JsonMap, String>)
    ensures
        match r {
            Ok(found) => read_object(old(map)@, key@) == Ok::<
                Seq<(Seq<char>, Tree)>,
                Seq<char>,
            >(found@),
            Err(reason) => read_object(old(map)@, key@) == Err::<
                Seq<(Seq<char>, Tree)>,
                Seq<char>,
            >(reason@),
        },
        forall|other: Seq<char>|
            other != key@ ==> #[trigger] json::member(final(map)@, other) == json::member(
                old(map)@,
                other,
            ),
{
    match map.take(key) {
        None => Ok(JsonMap::new()),
        Some(Json::Object(found)) => Ok(found),
        Some(_) => Err(quoted("'", key, "' field must be a JSON object")),
    }
}

/// Moves an optional boolean field, defaulting to `false`.
pub(crate) fn take_bool(map: &mut JsonMap, key: &str) -> (r: bool)
    ensures
        r == read_bool(old(map)@, key@),
        forall|other: Seq<char>|
            other != key@ ==> #[trigger] json::member(final(map)@, other) == json::member(
                old(map)@,
                other,
            ),
{
    match map.take(key) {
        Some(Json::Bool(b)) => b,
        _ => false,
    }
}

/// Moves an optional `u16` field, defaulting to `0`.
fn take_u16(map: &mut JsonMap, key: &str) -> (r: u16)
    ensures
        r == read_u16(old(map)@, key@),
        forall|other: Seq<char>|
            other != key@ ==> #[trigger] json::member(final(map)@, other) == json::member(
                old(map)@,
                other,
            ),
{
    match map.take(key) {
        Some(value) => match value.as_u64() {
            Some(n) => (n % 65536) as u16,
            None => 0,
        },
        None => 0,
    }
}

/// Moves an optional field, defaulting to null.
fn take_value(map: &mut JsonMap, key: &str) -> (r: Json)
    ensures
        r@ == read_value(old(map)@, key@),
        forall|other: Seq<char>|
            other != key@ ==> #[trigger] json::member(final(map)@, other) == json::member(
                old(map)@,
                other,
            ),
{
    match map.take(key) {
        Some(value) => value,
        None => Json::Null,
    }
}

/// Moves the optional binary-attachment list (`a`).
///
/// Attachments normally travel in the frame's binary section; the JSON `a` field
/// is honoured for completeness.
fn take_attachments(map: &mut JsonMap) -> (r: Result<Vec<FileAttachment>, String>)
    ensures
        match r {
            Ok(found) => read_attachments(old(map)@) == Ok::<Seq<Attachment>, Seq<char>>(
                attachment::attachment_views(found@),
            ),
            Err(reason) => read_attachments(old(map)@) == Err::<Seq<Attachment>, Seq<char>>(
                reason@,
            ),
        },
        forall|other: Seq<char>|
            other != "a"@ ==> #[trigger] json::member(final(map)@, other) == json::member(
                old(map)@,
                other,
            ),
{
    match map.take("a") {
        None => {
            let none: Vec<FileAttachment> = Vec::new();
            proof {
                assert(attachment::attachment_views(none@) =~= Seq::empty());
            }
            Ok(none)
        },
        Some(value) => FileAttachment::list_from_json(value),
    }
}

/// Moves the optional error payload (`er`).
pub(crate) fn take_error(map: &mut JsonMap) -> (r: Result<Option<ErrorPayload>, String>)
    ensures
        match r {
            Ok(found) => read_error(old(map)@) == Ok::<Option<ErrorInfo>, Seq<char>>(
                error_view(found),
            ),
            Err(reason) => read_error(old(map)@) == Err::<Option<ErrorInfo>, Seq<char>>(reason@),
        },
        forall|other: Seq<char>|
            other != "er"@ ==> #[trigger] json::member(final(map)@, other) == json::member(
                old(map)@,
                other,
            ),
{
    match map.take("er") {
        None => Ok(None),
        Some(value) => match ErrorPayload::from_json(value) {
            Ok(error) => Ok(Some(error)),
            Err(reason) => Err(reason),
        },
    }
}

impl PacketBody {
    /// The message category of the body.
    pub fn message_type(&self) -> (r: MessageType)
        ensures
            r == self@.message_type(),
    {
        match self {
            PacketBody::ApiRequest { .. } => MessageType::Api,
            PacketBody::ApiResponse { .. } => MessageType::Api,
            PacketBody::EventEmit { .. } => MessageType::Event,
            PacketBody::EventAck { .. } => MessageType::Event,
        }
    }

    /// Returns the attachments carried by this packet (empty for responses/acks).
    pub fn attachments(&self) -> (r: &[FileAttachment])
        ensures
            attachment::attachment_views(r@) == self@.attachments(),
    {
        match self {
            PacketBody::ApiRequest { attachments, .. } => attachments.as_slice(),
            PacketBody::EventEmit { attachments, .. } => attachments.as_slice(),
            _ => {
                let none: &[FileAttachment] = &[];
                proof {
                    assert(attachment::attachment_views(none@) =~= Seq::empty());
                }
                none
            },
        }
    }

    /// Injects decoded binary attachments back into the packet body.
    pub fn set_attachments(&mut self, attachments: Vec<FileAttachment>)
        ensures
            final(self)@ == old(self)@.with_attachments(
                attachment::attachment_views(attachments@),
            ),
    {
        match self {
            PacketBody::ApiRequest { attachments: held, .. } => {
                *held = attachments;
            },
            PacketBody::EventEmit { attachments: held, .. } => {
                *held = attachments;
            },
            _ => {},
        }
    }

    /// The members of the body's JSON form, with short keys and a numeric `k` tag.
    /// Metadata that is null or `{}` and an absent error are left out.
    fn members(&self) -> (members: Vec<(String, Json)>)
        ensures
            json::pair_trees(members@) == self@.members(),
    {
        let mut members: Vec<(String, Json)> = Vec::with_capacity(7);
        match self {
            PacketBody::ApiRequest { request_id, route, params, attachments: _, metadata } => {
                members.push(("k".to_owned(), Json::Unsigned(K_API_REQUEST as u64)));
                members.push(("i".to_owned(), Json::Unsigned(*request_id)));
                members.push(("r".to_owned(), Json::String(route.clone())));
                members.push(("p".to_owned(), params.clone()));
                if !metadata_is_empty(metadata) {
                    members.push(("m".to_owned(), metadata.clone()));
                }
            },
            PacketBody::ApiResponse { request_id, ok, status, data, error, metadata } => {
                members.push(("k".to_owned(), Json::Unsigned(K_API_RESPONSE as u64)));
                members.push(("i".to_owned(), Json::Unsigned(*request_id)));
                members.push(("o".to_owned(), Json::Bool(*ok)));
                members.push(("s".to_owned(), Json::Unsigned(*status as u64)));
                members.push(("d".to_owned(), data.clone()));
                if let Some(error) = error {
                    members.push(("er".to_owned(), error.to_json()));
                }
                if !metadata_is_empty(metadata) {
                    members.push(("m".to_owned(), metadata.clone()));
                }
            },
            PacketBody::EventEmit { event_id, name, data, attachments: _, metadata, expect_ack } => {
                members.push(("k".to_owned(), Json::Unsigned(K_EVENT_EMIT as u64)));
                members.push(("i".to_owned(), Json::Unsigned(*event_id)));
                members.push(("n".to_owned(), Json::String(name.clone())));
                members.push(("d".to_owned(), Json::Object(data.clone())));
                if !metadata_is_empty(metadata) {
                    members.push(("m".to_owned(), metadata.clone()));
                }
                members.push(("e".to_owned(), Json::Bool(*expect_ack)));
            },
            PacketBody::EventAck { event_id, ok, receipt, error } => {
                members.push(("k".to_owned(), Json::Unsigned(K_EVENT_ACK as u64)));
                members.push(("i".to_owned(), Json::Unsigned(*event_id)));
                members.push(("o".to_owned(), Json::Bool(*ok)));
                members.push(("rc".to_owned(), receipt.clone()));
                if let Some(error) = error {
                    members.push(("er".to_owned(), error.to_json()));
                }
            },
        }
        proof {
            json::lemma_pair_trees(members@);
            assert(json::pair_trees(members@) =~= self@.members());
        }
        members
    }

    /// The body's JSON form. Attachments are not part of it: they travel in the
    /// frame's binary section.
    pub fn to_json(&self) -> (r: Json)
        ensures
            r@ == self@.tree(),
    {
        let members = self.members();
        proof {
            lemma_members_distinct(self@);
            json::lemma_collapse_same(self@.members());
        }
        Json::Object(JsonMap { members })
    }

    /// Reads a body from its JSON form: the numeric `k` tag, then the fields of
    /// that variant, moved out by their short keys.
    pub fn from_json(value: Json) -> (r: Result<Self, String>)
        ensures
            read_agrees(r, read_body(value@)),
    {
        let mut map = match value {
            Json::Object(map) => map,
            _ => return Err("packet body must be a JSON object".to_owned()),
        };
        let ghost members = map@;
        proof {
            lemma_keys();
        }
        let k: u64 = match take_u64(&mut map, "k") {
            Ok(k) => k,
            Err(reason) => return Err(reason),
        };
        if k > 255 {
            return Err(
                quoted("'k' value ", decimal_text(k as u128).as_str(), " is outside the valid range"),
            );
        }
        if k == K_API_REQUEST as u64 {
            Self::request_from(map, Ghost(members))
        } else if k == K_EVENT_EMIT as u64 {
            Self::emit_from(map, Ghost(members))
        } else if k == K_API_RESPONSE as u64 {
            Self::response_from(map, Ghost(members))
        } else if k == K_EVENT_ACK as u64 {
            Self::ack_from(map, Ghost(members))
        } else {
            let mut reason = "unknown 'k' value: ".to_owned();
            reason.append(decimal_text(k as u128).as_str());
            Err(reason)
        }
    }

    fn request_from(map: JsonMap, Ghost(members): Ghost<Seq<(Seq<char>, Tree)>>) -> (r: Result<
        Self,
        String,
    >)
        requires
            same_but_k(map@, members),
        ensures
            read_agrees(r, read_request(members)),
    {
        let mut map = map;
        proof {
            lemma_keys();
        }
        let request_id: u64 = match take_u64(&mut map, "i") {
            Ok(id) => id,
            Err(reason) => return Err(reason),
        };
        let route = match take_string(&mut map, "r") {
            Ok(route) => route,
            Err(reason) => return Err(reason),
        };
        let params = take_value(&mut map, "p");
        let attachments = match take_attachments(&mut map) {
            Ok(attachments) => attachments,
            Err(reason) => return Err(reason),
        };
        let metadata = take_value(&mut map, "m");
        Ok(PacketBody::ApiRequest { request_id, route, params, attachments, metadata })
    }

    fn emit_from(map: JsonMap, Ghost(members): Ghost<Seq<(Seq<char>, Tree)>>) -> (r: Result<
        Self,
        String,
    >)
        requires
            same_but_k(map@, members),
        ensures
            read_agrees(r, read_emit(members)),
    {
        let mut map = map;
        proof {
            lemma_keys();
        }
        let event_id: u64 = match take_u64(&mut map, "i") {
            Ok(id) => id,
            Err(reason) => return Err(reason),
        };
        let name = match take_string(&mut map, "n") {
            Ok(name) => name,
            Err(reason) => return Err(reason),
        };
        let data = match take_object(&mut map, "d") {
            Ok(data) => data,
            Err(reason) => return Err(reason),
        };
        let attachments = match take_attachments(&mut map) {
            Ok(attachments) => attachments,
            Err(reason) => return Err(reason),
        };
        let metadata = take_value(&mut map, "m");
        let expect_ack = take_bool(&mut map, "e");
        Ok(PacketBody::EventEmit { event_id, name, data, attachments, metadata, expect_ack })
    }

    fn response_from(map: JsonMap, Ghost(members): Ghost<Seq<(Seq<char>, Tree)>>) -> (r: Result<
        Self,
        String,
    >)
        requires
            same_but_k(map@, members),
        ensures
            read_agrees(r, read_response(members)),
    {
        let mut map = map;
        proof {
            lemma_keys();
        }
        let request_id: u64 = match take_u64(&mut map, "i") {
            Ok(id) => id,
            Err(reason) => return Err(reason),
        };
        let ok = take_bool(&mut map, "o");
        let status: u16 = take_u16(&mut map, "s");
        let data = take_value(&mut map, "d");
        let error = match take_error(&mut map) {
            Ok(error) => error,
            Err(reason) => return Err(reason),
        };
        let metadata = take_value(&mut map, "m");
        Ok(PacketBody::ApiResponse { request_id, ok, status, data, error, metadata })
    }

    fn ack_from(map: JsonMap, Ghost(members): Ghost<Seq<(Seq<char>, Tree)>>) -> (r: Result<
        Self,
        String,
    >)
        requires
            same_but_k(map@, members),
        ensures
            read_agrees(r, read_ack(members)),
    {
        let mut map = map;
        proof {
            lemma_keys();
        }
        let event_id: u64 = match take_u64(&mut map, "i") {
            Ok(id) => id,
            Err(reason) => return Err(reason),
        };
        let ok = take_bool(&mut map, "o");
        let receipt = take_value(&mut map, "rc");
        let error = match take_error(&mut map) {
            Ok(error) => error,
            Err(reason) => return Err(reason),
        };
        Ok(PacketBody::EventAck { event_id, ok, receipt, error })
    }
}

/// The two agree on every key but `k`.
spec fn same_but_k(left: Seq<(Seq<char>, Tree)>, right: Seq<(Seq<char>, Tree)>) -> bool {
    forall|key: Seq<char>|
        key != "k"@ ==> #[trigger] json::member(left, key) == json::member(right, key)
}

/// Copies attachments.
pub(crate) fn clone_attachments(attachments: &Vec<FileAttachment>) -> (copy: Vec<FileAttachment>)
    ensures
        attachment::attachment_views(copy@) == attachment::attachment_views(attachments@),
{
    let mut copy: Vec<FileAttachment> = Vec::with_capacity(attachments.len());
    let mut i: usize = 0;
    while i < attachments.len()
        invariant
            i <= attachments@.len(),
            copy@.len() == i,
            forall|j: int| 0 <= j < i ==> (#[trigger] copy@[j])@ == attachments@[j]@,
        decreases attachments.len() - i,
    {
        copy.push(attachments[i].clone());
        i += 1;
    }
    proof {
        assert(attachment::attachment_views(copy@) =~= attachment::attachment_views(attachments@));
    }
    copy
}

/// Copies an optional error payload.
pub(crate) fn clone_error(error: &Option<ErrorPayload>) -> (copy: Option<ErrorPayload>)
    ensures
        error_view(copy) == error_view(*error),
{
    match error {
        Some(error) => Some(error.clone()),
        None => None,
    }
}

impl Clone for PacketBody {
    fn clone(&self) -> (copy: Self)
        ensures
            copy@ == self@,
    {
        match self {
            PacketBody::ApiRequest { request_id, route, params, attachments, metadata } => {
                PacketBody::ApiRequest {
                    request_id: *request_id,
                    route: route.clone(),
                    params: params.clone(),
                    attachments: clone_attachments(attachments),
                    metadata: metadata.clone(),
                }
            },
            PacketBody::ApiResponse { request_id, ok, status, data, error, metadata } => {
                PacketBody::ApiResponse {
                    request_id: *request_id,
                    ok: *ok,
                    status: *status,
                    data: data.clone(),
                    error: clone_error(error),
                    metadata: metadata.clone(),
                }
            },
            PacketBody::EventEmit { event_id, name, data, attachments, metadata, expect_ack } => {
                PacketBody::EventEmit {
                    event_id: *event_id,
                    name: name.clone(),
                    data: data.clone(),
                    attachments: clone_attachments(attachments),
                    metadata: metadata.clone(),
                    expect_ack: *expect_ack,
                }
            },
            PacketBody::EventAck { event_id, ok, receipt, error } => PacketBody::EventAck {
                event_id: *event_id,
                ok: *ok,
                receipt: receipt.clone(),
                error: clone_error(error),
            },
        }
    }
}

/// Full transport envelope before frame encoding.
#[derive(Debug)]
pub struct PacketEnvelope {
    /// Message category declared in the frame header.
    pub message_type: MessageType,
    /// Encryption mode declared in the frame header.
    pub encryption: EncryptionKind,
    /// JSON body payload.
    pub body: PacketBody,
}

/// What a [`PacketEnvelope`] holds.
pub struct Packet {
    pub message_type: MessageType,
    pub encryption: EncryptionKind,
    pub body: Body,
}

impl View for PacketEnvelope {
    type V = Packet;

    open spec fn view(&self) -> Packet {
        Packet {
            message_type: self.message_type,
            encryption: self.encryption,
            body: self.body@,
        }
    }
}

impl PacketEnvelope {
    /// Builds a plaintext envelope from a body.
    pub fn new(body: PacketBody) -> (r: Self)
        ensures
            r.body == body,
            r.message_type == body@.message_type(),
            r.encryption == EncryptionKind::Plaintext,
    {
        Self::with_encryption(body, EncryptionKind::Plaintext)
    }

    /// Builds an envelope with an explicit encryption mode.
    pub fn with_encryption(body: PacketBody, encryption: EncryptionKind) -> (r: Self)
        ensures
            r.body == body,
            r.message_type == body@.message_type(),
            r.encryption == encryption,
    {
        PacketEnvelope { message_type: body.message_type(), encryption, body }
    }
}

impl Clone for PacketEnvelope {
    fn clone(&self) -> (copy: Self)
        ensures
            copy@ == self@,
    {
        PacketEnvelope {
            message_type: self.message_type,
            encryption: self.encryption,
            body: self.body.clone(),
        }
    }
}

/// The names of the message types in JSON.
pub open spec fn message_type_names() -> Seq<&'static str> {
    seq!["Api", "Event"]
}

/// The names of the encryption modes in JSON.
pub open spec fn encryption_names() -> Seq<&'static str> {
    seq!["None", "ChaCha20", "Aes256"]
}

impl MessageType {
    /// The name that stands for the message type in JSON.
    pub open spec fn name(self) -> Seq<char> {
        match self {
            MessageType::Api => "Api"@,
            MessageType::Event => "Event"@,
        }
    }

    /// The message type's JSON form: its name.
    pub fn to_json(&self) -> (r: Json)
        ensures
            r@ == Tree::Text(self.name()),
    {
        match self {
            MessageType::Api => Json::text("Api"),
            MessageType::Event => Json::text("Event"),
        }
    }

    /// The message type that a JSON value stands for, or the reason why it stands for
    /// none.
    pub fn from_json(value: &Json) -> (r: Result<Self, String>)
        ensures
            match r {
                Ok(kind) => mismatch::variant_in(value@, message_type_names()) == Ok::<
                    Seq<char>,
                    Seq<char>,
                >(kind.name()),
                Err(reason) => mismatch::variant_in(value@, message_type_names()) == Err::<
                    Seq<char>,
                    Seq<char>,
                >(reason@),
            },
    {
        let names: &'static [&'static str] = &["Api", "Event"];
        proof {
            assert(names@ =~= message_type_names());
        }
        match read_variant(value, names) {
            Ok(name) => {
                if text_eq(name.as_str(), "Api") {
                    Ok(MessageType::Api)
                } else {
                    Ok(MessageType::Event)
                }
            },
            Err(reason) => Err(reason),
        }
    }
}

impl EncryptionKind {
    /// The name that stands for the encryption mode in JSON.
    pub open spec fn name(self) -> Seq<char> {
        match self {
            EncryptionKind::Plaintext => "None"@,
            EncryptionKind::ChaCha20 => "ChaCha20"@,
            EncryptionKind::Aes256 => "Aes256"@,
        }
    }

    /// The encryption mode's JSON form: its name.
    pub fn to_json(&self) -> (r: Json)
        ensures
            r@ == Tree::Text(self.name()),
    {
        match self {
            EncryptionKind::Plaintext => Json::text("None"),
            EncryptionKind::ChaCha20 => Json::text("ChaCha20"),
            EncryptionKind::Aes256 => Json::text("Aes256"),
        }
    }

    /// The encryption mode that a JSON value stands for, or the reason why it stands
    /// for none.
    pub fn from_json(value: &Json) -> (r: Result<Self, String>)
        ensures
            match r {
                Ok(kind) => mismatch::variant_in(value@, encryption_names()) == Ok::<
                    Seq<char>,
                    Seq<char>,
                >(kind.name()),
                Err(reason) => mismatch::variant_in(value@, encryption_names()) == Err::<
                    Seq<char>,
                    Seq<char>,
                >(reason@),
            },
    {
        let names: &'static [&'static str] = &["None", "ChaCha20", "Aes256"];
        proof {
            assert(names@ =~= encryption_names());
        }
        match read_variant(value, names) {
            Ok(name) => {
                if text_eq(name.as_str(), "None") {
                    Ok(EncryptionKind::Plaintext)
                } else if text_eq(name.as_str(), "ChaCha20") {
                    Ok(EncryptionKind::ChaCha20)
                } else {
                    Ok(EncryptionKind::Aes256)
                }
            },
            Err(reason) => Err(reason),
        }
    }
}

/// The message type with a name.
pub open spec fn named_message_type(name: Seq<char>) -> MessageType {
    if name == "Api"@ {
        MessageType::Api
    } else {
        MessageType::Event
    }
}

/// The encryption mode with a name.
pub open spec fn named_encryption(name: Seq<char>) -> EncryptionKind {
    if name == "None"@ {
        EncryptionKind::Plaintext
    } else if name == "ChaCha20"@ {
        EncryptionKind::ChaCha20
    } else {
        EncryptionKind::Aes256
    }
}

/// The names of the message types and of the encryption modes tell them apart, and
/// reading the JSON form of either gives it back.
pub proof fn lemma_kind_round_trip(message_type: MessageType, encryption: EncryptionKind)
    ensures
        named_message_type(message_type.name()) == message_type,
        named_encryption(encryption.name()) == encryption,
        mismatch::variant_in(Tree::Text(message_type.name()), message_type_names()) == Ok::<
            Seq<char>,
            Seq<char>,
        >(message_type.name()),
        mismatch::variant_in(Tree::Text(encryption.name()), encryption_names()) == Ok::<
            Seq<char>,
            Seq<char>,
        >(encryption.name()),
{
    reveal_strlit("Api");
    reveal_strlit("Event");
    reveal_strlit("None");
    reveal_strlit("ChaCha20");
    reveal_strlit("Aes256");
    assert("Api"@.len() == 3);
    assert("Event"@.len() == 5);
    assert("None"@.len() == 4);
    assert("ChaCha20"@.len() == 8);
    assert("Aes256"@.len() == 6);
    let types = message_type_names();
    let modes = encryption_names();
    assert(types[0]@ == "Api"@ && types[1]@ == "Event"@);
    assert(modes[0]@ == "None"@ && modes[1]@ == "ChaCha20"@ && modes[2]@ == "Aes256"@);
}

/// The keys of an envelope's JSON form.
pub open spec fn packet_keys() -> Seq<&'static str> {
    seq!["message_type", "encryption", "body"]
}

impl Packet {
    /// The JSON form of an envelope. Attachments are not part of it.
    pub open spec fn tree(self) -> Tree {
        Tree::Object(
            seq![
                ("message_type"@, Tree::Text(self.message_type.name())),
                ("encryption"@, Tree::Text(self.encryption.name())),
                ("body"@, self.body.tree()),
            ],
        )
    }
}

/// The reason of a result that is an error.
pub open spec fn reason_in<T>(r: Result<T, Seq<char>>) -> Option<Seq<char>> {
    match r {
        Ok(_) => None,
        Err(reason) => Some(reason),
    }
}

/// What is wrong with a member of an envelope's JSON form. Other keys do not matter.
pub open spec fn packet_fault(key: Seq<char>, tree: Tree) -> Option<Seq<char>> {
    if key == "message_type"@ {
        reason_in(mismatch::variant_in(tree, message_type_names()))
    } else if key == "encryption"@ {
        reason_in(mismatch::variant_in(tree, encryption_names()))
    } else if key == "body"@ {
        reason_in(read_body(tree))
    } else {
        None
    }
}

/// What is wrong with the first member of an envelope's JSON form that is not right.
pub open spec fn packet_faults(members: Seq<(Seq<char>, Tree)>) -> Option<Seq<char>> {
    mismatch::first_fault(members, |key: Seq<char>, tree: Tree| packet_fault(key, tree))
}

/// The envelope that members without a fault stand for, or the reason why they stand
/// for none: one is missing.
pub open spec fn packet_from(members: Seq<(Seq<char>, Tree)>) -> Result<Packet, Seq<char>> {
    match (
        json::member(members, "message_type"@),
        json::member(members, "encryption"@),
        json::member(members, "body"@),
    ) {
        (None, _, _) => Err(mismatch::missing_field_text("message_type"@)),
        (_, None, _) => Err(mismatch::missing_field_text("encryption"@)),
        (_, _, None) => Err(mismatch::missing_field_text("body"@)),
        (Some(message_type), Some(encryption), Some(body)) => Ok(
            Packet {
                message_type: named_message_type(
                    mismatch::variant_in(message_type, message_type_names())->Ok_0,
                ),
                encryption: named_encryption(
                    mismatch::variant_in(encryption, encryption_names())->Ok_0,
                ),
                body: read_body(body)->Ok_0,
            },
        ),
    }
}

/// The envelope that a JSON value stands for, or the reason why it stands for none: an
/// object with its fields, or an array of their values.
pub open spec fn tree_packet(tree: Tree) -> Result<Packet, Seq<char>> {
    match tree {
        Tree::Object(members) => match packet_faults(members) {
            Some(reason) => Err(reason),
            None => packet_from(members),
        },
        Tree::Array(items) => {
            let members = mismatch::keyed(items, packet_keys());
            match packet_faults(members) {
                Some(reason) => Err(reason),
                None => if items.len() < 3 {
                    Err(
                        mismatch::length_error_text(
                            items.len(),
                            "struct PacketEnvelope with 3 elements"@,
                        ),
                    )
                } else if items.len() > 3 {
                    Err(mismatch::length_error_text(items.len(), "fewer elements in array"@))
                } else {
                    packet_from(members)
                },
            }
        },
        _ => Err(mismatch::type_error_text(tree, "struct PacketEnvelope"@)),
    }
}

/// The keys of an envelope are pairwise distinct.
pub(crate) proof fn lemma_packet_keys()
    ensures
        "message_type"@ != "encryption"@,
        "message_type"@ != "body"@,
        "encryption"@ != "body"@,
{
    reveal_strlit("message_type");
    reveal_strlit("encryption");
    reveal_strlit("body");
    assert("message_type"@[0] == 'm');
    assert("encryption"@[0] == 'e');
    assert("body"@[0] == 'b');
}

/// Reading the JSON form of an envelope gives the envelope back, without attachments
/// and without the metadata and details that carry no information.
pub proof fn lemma_packet_round_trip(packet: Packet)
    ensures
        tree_packet(packet.tree()) == Ok::<Packet, Seq<char>>(
            Packet { body: packet.body.normal().with_attachments(Seq::empty()), ..packet },
        ),
{
    let members = packet.tree()->Object_0;
    lemma_packet_keys();
    lemma_body_round_trip(packet.body);
    lemma_kind_round_trip(packet.message_type, packet.encryption);
    json::lemma_member_at(members, 0);
    json::lemma_member_at(members, 1);
    json::lemma_member_at(members, 2);
    assert forall|i: int| 0 <= i < members.len() implies packet_fault(
        (#[trigger] members[i]).0,
        members[i].1,
    ) is None by {}
    mismatch::lemma_faultless(members, |key: Seq<char>, tree: Tree| packet_fault(key, tree));
}

/// Tells what is wrong with a member of an envelope's JSON form.
fn check_packet_member(key: &str, value: &Json) -> (r: Option<String>)
    ensures
        mismatch::optional_text(r) == packet_fault(key@, value@),
{
    if text_eq(key, "message_type") {
        match MessageType::from_json(value) {
            Ok(_) => None,
            Err(reason) => Some(reason),
        }
    } else if text_eq(key, "encryption") {
        match EncryptionKind::from_json(value) {
            Ok(_) => None,
            Err(reason) => Some(reason),
        }
    } else if text_eq(key, "body") {
        match PacketBody::from_json(value.clone()) {
            Ok(_) => None,
            Err(reason) => Some(reason),
        }
    } else {
        None
    }
}

impl PacketEnvelope {
    /// The envelope's JSON form. Attachments are not part of it.
    pub fn to_json(&self) -> (r: Json)
        ensures
            r@ == self@.tree(),
    {
        let mut members: Vec<(String, Json)> = Vec::with_capacity(3);
        members.push(("message_type".to_owned(), self.message_type.to_json()));
        members.push(("encryption".to_owned(), self.encryption.to_json()));
        members.push(("body".to_owned(), self.body.to_json()));
        proof {
            json::lemma_pair_trees(members@);
            assert(json::pair_trees(members@) =~= self@.tree()->Object_0);
            lemma_packet_keys();
            json::lemma_collapse_same(self@.tree()->Object_0);
        }
        Json::Object(JsonMap { members })
    }

    /// The envelope that a JSON value stands for, or the reason why it stands for none.
    pub fn from_json(value: Json) -> (r: Result<Self, String>)
        ensures
            match r {
                Ok(packet) => tree_packet(value@) == Ok::<Packet, Seq<char>>(packet@),
                Err(reason) => tree_packet(value@) == Err::<Packet, Seq<char>>(reason@),
            },
    {
        proof {
            mismatch::lemma_expectations();
            lemma_packet_keys();
        }
        match value {
            Json::Object(map) => {
                let map = map.compact();
                match Self::faults(&map) {
                    Some(reason) => Err(reason),
                    None => Self::from_members(map),
                }
            },
            Json::Array(items) => {
                let len: usize = items.len();
                let keys: &'static [&'static str] = &["message_type", "encryption", "body"];
                proof {
                    assert(keys@ =~= packet_keys());
                    json::lemma_item_trees(items@);
                }
                let map = with_keys(items, keys);
                if let Some(reason) = Self::faults(&map) {
                    return Err(reason);
                }
                if len < 3 {
                    Err(length_error(len, "struct PacketEnvelope with 3 elements"))
                } else if len > 3 {
                    Err(length_error(len, "fewer elements in array"))
                } else {
                    Self::from_members(map)
                }
            },
            _ => Err(wrong_type(&value, "struct PacketEnvelope")),
        }
    }

    fn faults(map: &JsonMap) -> (r: Option<String>)
        requires
            json::pair_trees(map.members@) == map@,
        ensures
            mismatch::optional_text(r) == packet_faults(map@),
    {
        find_fault(
            map,
            check_packet_member,
            Ghost(|key: Seq<char>, tree: Tree| packet_fault(key, tree)),
        )
    }

    fn from_members(map: JsonMap) -> (r: Result<Self, String>)
        requires
            packet_faults(map@) is None,
        ensures
            match r {
                Ok(packet) => packet_from(map@) == Ok::<Packet, Seq<char>>(packet@),
                Err(reason) => packet_from(map@) == Err::<Packet, Seq<char>>(reason@),
            },
    {
        let mut map = map;
        let ghost members = map@;
        proof {
            let fault = |key: Seq<char>, tree: Tree| packet_fault(key, tree);
            lemma_packet_keys();
            mismatch::lemma_no_fault(members, fault, "message_type"@);
            mismatch::lemma_no_fault(members, fault, "encryption"@);
            mismatch::lemma_no_fault(members, fault, "body"@);
        }
        let message_type = match map.take("message_type") {
            Some(value) => value,
            None => return Err(missing_field("message_type")),
        };
        let encryption = match map.take("encryption") {
            Some(value) => value,
            None => return Err(missing_field("encryption")),
        };
        let body = match map.take("body") {
            Some(value) => value,
            None => return Err(missing_field("body")),
        };
        let message_type = match MessageType::from_json(&message_type) {
            Ok(message_type) => message_type,
            Err(reason) => return Err(reason),
        };
        let encryption = match EncryptionKind::from_json(&encryption) {
            Ok(encryption) => encryption,
            Err(reason) => return Err(reason),
        };
        proof {
            lemma_kind_round_trip(message_type, encryption);
        }
        match PacketBody::from_json(body) {
            Ok(body) => Ok(PacketEnvelope { message_type, encryption, body }),
            Err(reason) => Err(reason),
        }
    }
}

} // verus!
