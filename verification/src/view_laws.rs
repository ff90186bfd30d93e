//! Laws of the views: what the contracts say of a value is what its fields hold, all of
//! it and nothing else.
use crate::attachment;
use crate::attachment::FileAttachment;
use crate::auth::{AuthInfo, AuthMessage, AuthPacket};
use crate::buffer;
use crate::client;
use crate::client_types::{ClientError, ClientFailure, EventMessage, WscallClientConfig};
use crate::error::{Failure, ProtocolError};
use crate::json;
use crate::json::JsonMap;
use crate::packet;
use crate::packet::{Body, ErrorPayload, PacketBody, PacketEnvelope};
use crate::server::{ApiRun, ApiStep, EmissionStep, EventStep, RequestStep};
use crate::server_types;
use crate::server_types::{
    ApiContext, ApiError, EventContext, ExceptionContext, PeerAddr, ServerError, ServerFailure,
};
use crate::text;
use crate::validation::ValidationError;
use vstd::prelude::*;

verus! {

/// A list is viewed item by item.
pub proof fn lemma_list_views(
    strings: Seq<String>,
    files: Seq<FileAttachment>,
    places: Seq<usize>,
    i: int,
)
    ensures
        text::views(strings).len() == strings.len(),
        0 <= i < strings.len() ==> text::views(strings)[i] == strings[i]@,
        attachment::attachment_views(files).len() == files.len(),
        0 <= i < files.len() ==> attachment::attachment_views(files)[i] == files[i]@,
        client::place_views(places).len() == places.len(),
        0 <= i < places.len() ==> client::place_views(places)[i] == places[i],
{
}

/// An optional value is viewed as an optional view.
pub proof fn lemma_optional_views(
    error: ErrorPayload,
    peer: PeerAddr,
    map: JsonMap,
)
    ensures
        packet::error_view(Some(error)) == Some(error@),
        packet::error_view(None) is None,
        server_types::peer_view(Some(peer)) == Some(peer@),
        server_types::peer_view(None) is None,
        server_types::map_view(Some(map)) == Some(map@),
        server_types::map_view(None) is None,
        peer@.ip == peer.ip@,
        peer@.port == peer.port,
{
}

/// A map holds its members: all of them in order where no key occurs twice, and for
/// every key the value that was set last.
pub proof fn lemma_map_view(map: JsonMap, i: int)
    requires
        0 <= i < map.members@.len(),
    ensures
        (forall|a: int, b: int|
            0 <= a < b < map.members@.len() ==> (#[trigger] map.members@[a]).0@ != (
            #[trigger] map.members@[b]).0@) ==> map@.len() == map.members@.len() && map@[i] == (
            map.members@[i].0@,
            map.members@[i].1@,
        ),
        (forall|j: int|
            i < j < map.members@.len() ==> (#[trigger] map.members@[j]).0@ != map.members@[i].0@)
            ==> json::member(map@, map.members@[i].0@) == Some(map.members@[i].1@),
        json::distinct_keys(map@),
{
    let pairs = json::pair_trees(map.members@);
    json::lemma_pair_trees(map.members@);
    json::lemma_collapse_distinct(pairs);
    json::lemma_collapse_member(pairs, map.members@[i].0@);
    if forall|a: int, b: int|
        0 <= a < b < map.members@.len() ==> (#[trigger] map.members@[a]).0@ != (
        #[trigger] map.members@[b]).0@ {
        assert forall|a: int, b: int| 0 <= a < b < pairs.len() implies pairs[a].0
            != pairs[b].0 by {
            assert(pairs[a].0 == map.members@[a].0@);
            assert(pairs[b].0 == map.members@[b].0@);
        }
        json::lemma_collapse_same(pairs);
    }
    if forall|j: int|
        i < j < map.members@.len() ==> (#[trigger] map.members@[j]).0@ != map.members@[i].0@ {
        assert forall|j: int| i < j < pairs.len() implies (#[trigger] pairs[j]).0
            != pairs[i].0 by {
            assert(pairs[j].0 == map.members@[j].0@);
        }
        lemma_last_pair_is_the_member(pairs, i);
    }
}

proof fn lemma_last_pair_is_the_member(pairs: Seq<(Seq<char>, json::Tree)>, i: int)
    requires
        0 <= i < pairs.len(),
        forall|j: int| i < j < pairs.len() ==> (#[trigger] pairs[j]).0 != pairs[i].0,
    ensures
        json::member(pairs, pairs[i].0) == Some(pairs[i].1),
    decreases pairs.len(),
{
    let front = pairs.drop_last();
    if i < front.len() {
        assert(front[i] == pairs[i]);
        assert(pairs[pairs.len() - 1].0 != pairs[i].0);
        assert forall|j: int| i < j < front.len() implies (#[trigger] front[j]).0
            != front[i].0 by {
            assert(front[j] == pairs[j]);
        }
        lemma_last_pair_is_the_member(front, i);
    }
}

/// What an attachment, an error and a violation hold.
pub proof fn lemma_payload_views(
    file: FileAttachment,
    payload: ErrorPayload,
    error: ApiError,
    violation: ValidationError,
)
    ensures
        file@.id == file.id@,
        file@.name == file.name@,
        file@.content_type == file.content_type@,
        file@.data == buffer::contents(file.data),
        payload@.code == payload.code@,
        payload@.message == payload.message@,
        payload@.status == payload.status,
        payload.details matches Some(details) ==> payload@.details == Some(details@),
        payload.details is None ==> payload@.details is None,
        error@.code == error.code@,
        error@.message == error.message@,
        error@.status == error.status,
        error.details matches Some(details) ==> error@.details == Some(details@),
        error.details is None ==> error@.details is None,
        violation@.code == violation.code@,
        violation.message matches Some(message) ==> violation@.message == Some(message@),
        violation.message is None ==> violation@.message is None,
        violation@.params == violation.params@,
{
}

/// What a packet holds.
pub proof fn lemma_packet_views(packet: PacketEnvelope)
    ensures
        packet@.message_type == packet.message_type,
        packet@.encryption == packet.encryption,
        packet@.body == packet.body@,
        match packet.body {
            PacketBody::ApiRequest { request_id, route, params, attachments, metadata } => {
                packet@.body matches Body::ApiRequest {
                    request_id: id,
                    route: wanted,
                    params: given,
                    attachments: files,
                    metadata: noted,
                } && id == request_id && wanted == route@ && given == params@ && files
                    == attachment::attachment_views(attachments@) && noted == metadata@
            },
            PacketBody::ApiResponse { request_id, ok, status, data, error, metadata } => {
                packet@.body matches Body::ApiResponse {
                    request_id: id,
                    ok: success,
                    status: number,
                    data: value,
                    error: reason,
                    metadata: noted,
                } && id == request_id && success == ok && number == status && value == data@
                    && reason == packet::error_view(error) && noted == metadata@
            },
            PacketBody::EventEmit { event_id, name, data, attachments, metadata, expect_ack } => {
                packet@.body matches Body::EventEmit {
                    event_id: id,
                    name: title,
                    data: value,
                    attachments: files,
                    metadata: noted,
                    expect_ack: wanted,
                } && id == event_id && title == name@ && value == data@ && files
                    == attachment::attachment_views(attachments@) && noted == metadata@ && wanted
                    == expect_ack
            },
            PacketBody::EventAck { event_id, ok, receipt, error } => {
                packet@.body matches Body::EventAck {
                    event_id: id,
                    ok: success,
                    receipt: value,
                    error: reason,
                } && id == event_id && success == ok && value == receipt@ && reason
                    == packet::error_view(error)
            },
        },
{
}

/// What a message of the authentication phase holds.
pub proof fn lemma_auth_views(packet: AuthPacket)
    ensures
        packet@.encryption == packet.encryption,
        packet.message matches AuthMessage::AuthRequest { credential } ==> (packet@.message matches
            AuthInfo::AuthRequest { credential: told } && told == credential@),
        packet.message matches AuthMessage::AuthResponse { ok, error } ==> (packet@.message matches
            AuthInfo::AuthResponse { ok: accepted, error: reason } && accepted == ok && reason
            == packet::error_view(error)),
{
}

/// What the contexts of handlers hold.
pub proof fn lemma_context_views(
    request: ApiContext,
    event: EventContext,
    exception: ExceptionContext,
    message: EventMessage,
)
    ensures
        request@.connection_id == request.connection_id@,
        request@.peer_addr == server_types::peer_view(request.peer_addr),
        request@.request_id == request.request_id,
        request@.route == request.route@,
        request@.params == request.params@,
        request@.attachments == attachment::attachment_views(request.attachments@),
        request@.metadata == request.metadata@,
        request@.auth == server_types::map_view(request.auth),
        event@.connection_id == event.connection_id@,
        event@.peer_addr == server_types::peer_view(event.peer_addr),
        event@.event_id == event.event_id,
        event@.name == event.name@,
        event@.data == event.data@,
        event@.attachments == attachment::attachment_views(event.attachments@),
        event@.metadata == event.metadata@,
        event@.auth == server_types::map_view(event.auth),
        exception@.connection_id == exception.connection_id@,
        exception@.request_id == exception.request_id,
        exception@.target == exception.target@,
        exception@.message_kind == exception.message_kind@,
        exception@.error == exception.error@,
        message@.event_id == message.event_id,
        message@.name == message.name@,
        message@.data == message.data@,
        message@.attachments == attachment::attachment_views(message.attachments@),
        message@.metadata == message.metadata@,
{
}

/// What the steps of requests and events hold.
pub proof fn lemma_step_views(run: ApiRun, step: ApiStep, event_step: EventStep)
    ensures
        run@.connection_id == run.connection_id@,
        run@.request_id == run.request_id,
        run@.route == run.route@,
        run@.filters_run == run.filters_run,
        run@.status == run.status,
        step matches ApiStep::RunFilter(place, ctx) ==> (step@ matches RequestStep::Filter(p, c)
            && p == place && c == ctx@),
        step matches ApiStep::RunHandler(place, ctx) ==> (step@ matches RequestStep::Handler(p, c)
            && p == place && c == ctx@),
        step matches ApiStep::MapException(ctx) ==> step@ == RequestStep::MapException(ctx@),
        step matches ApiStep::Respond(packet) ==> step@ == RequestStep::Respond(packet@),
        event_step matches EventStep::RunHandler(place, ctx) ==> (event_step@ matches
            EmissionStep::Handler(p, c) && p == place && c == ctx@),
        event_step matches EventStep::MapException(ctx) ==> event_step@
            == EmissionStep::MapException(ctx@),
        event_step matches EventStep::Respond(packet) ==> event_step@ == EmissionStep::Respond(
            packet@,
        ),
{
}

/// What the errors say.
pub proof fn lemma_error_views(e: ProtocolError, server: ServerError, client: ClientError)
    ensures
        match e {
            ProtocolError::FrameTooShort => e@ is FrameTooShort,
            ProtocolError::FrameLengthMismatch { declared, actual } => e@ matches
                Failure::FrameLengthMismatch { declared: d, actual: a } && d == declared && a
                == actual,
            ProtocolError::PayloadTooLarge { actual, max } => e@ matches Failure::PayloadTooLarge {
                actual: a,
                max: m,
            } && a == actual && m == max,
            ProtocolError::FrameTooLarge { actual, max } => e@ matches Failure::FrameTooLarge {
                actual: a,
                max: m,
            } && a == actual && m == max,
            ProtocolError::UnknownMessageType(value) => e@ == Failure::UnknownMessageType(value),
            ProtocolError::UnknownEncryption(value) => e@ == Failure::UnknownEncryption(value),
            ProtocolError::UnsupportedEncryption(value) => e@ == Failure::UnsupportedEncryption(
                value,
            ),
            ProtocolError::MissingEncryptionKey(name) => e@ == Failure::MissingEncryptionKey(name@),
            ProtocolError::InvalidEncryptionKey(name) => e@ == Failure::InvalidEncryptionKey(name@),
            ProtocolError::Random(source) => e@ == Failure::Random(source@),
            ProtocolError::EncryptedPayloadTooShort { algorithm, expected_min, actual } => {
                e@ matches Failure::EncryptedPayloadTooShort {
                    algorithm: n,
                    expected_min: m,
                    actual: a,
                } && n == algorithm@ && m == expected_min && a == actual
            },
            ProtocolError::EncryptionFailed(name) => e@ == Failure::EncryptionFailed(name@),
            ProtocolError::DecryptionFailed(name) => e@ == Failure::DecryptionFailed(name@),
            ProtocolError::InvalidEcdhPublicKey { expected, actual } => e@ matches
                Failure::InvalidEcdhPublicKey { expected: x, actual: a } && x == expected && a
                == actual,
            ProtocolError::EcdhHandshake(reason) => e@ == Failure::EcdhHandshake(reason@),
            ProtocolError::MessageTypeMismatch => e@ is MessageTypeMismatch,
            ProtocolError::InvalidAttachmentEncoding(reason) => e@
                == Failure::InvalidAttachmentEncoding(reason@),
            ProtocolError::Json(reason) => e@ == Failure::Json(reason@),
        },
        match server {
            ServerError::Io(source) => server@ == ServerFailure::Io(source@),
            ServerError::WebSocket(source) => server@ == ServerFailure::WebSocket(source@),
            ServerError::Protocol(inner) => server@ == ServerFailure::Protocol(inner@),
            ServerError::Api(inner) => server@ == ServerFailure::Api(inner@),
            ServerError::IdleTimeout(id) => server@ == ServerFailure::IdleTimeout(id@),
            ServerError::OutboundQueueFull(id) => server@ == ServerFailure::OutboundQueueFull(id@),
        },
        match client {
            ClientError::WebSocket(source) => client@ == ClientFailure::WebSocket(source@),
            ClientError::Protocol(inner) => client@ == ClientFailure::Protocol(inner@),
            ClientError::Disconnected => client@ is Disconnected,
            ClientError::ConnectionClosed(reason) => client@ == ClientFailure::ConnectionClosed(
                reason@,
            ),
            ClientError::IdleTimeout => client@ is IdleTimeout,
            ClientError::Timeout => client@ is Timeout,
            ClientError::Remote(payload) => client@ == ClientFailure::Remote(payload@),
            ClientError::AuthFailed(payload) => client@ == ClientFailure::AuthFailed(payload@),
        },
{
}

/// What a client's configuration holds.
pub proof fn lemma_config_view(config: WscallClientConfig)
    ensures
        config@.codec == config.codec@,
        config@.default_encryption == config.default_encryption,
        config@.auto_reconnect == config.auto_reconnect,
        config@.use_ecdh == config.use_ecdh,
        config@.failover_urls == text::views(config.failover_urls@),
        config.credential matches Some(credential) ==> config@.credential == Some(credential@),
        config.credential is None ==> config@.credential is None,
{
}

} // verus!
