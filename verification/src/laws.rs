//! Laws that relate the client and the server.
//!
//! A packet reaches the other side in its normal form: decoding leaves out metadata
//! and error details that carry no information.
use crate::attachment::Attachment;
use crate::auth;
use crate::buffer;
use crate::client;
use crate::client::{Client, ClientAuthStep, ClientIncoming, ClientReaderStep, ClientStep};
use crate::client_laws;
use crate::client_types::ClientFailure;
use crate::codec;
use crate::codec::Codec;
use crate::crypto;
use crate::ecdh;
use crate::error::Failure;
use crate::frame_laws;
use crate::json::Tree;
use crate::packet::{Body, EncryptionKind, ErrorInfo, Packet};
use crate::rate_limiter::Verdict;
use crate::server;
use crate::server::{
    AuthStep, EmissionStep, EventRun, Handle, Incoming, Outcome, ReaderStep, RequestRun,
    RequestStep, Server, ServerOutbound,
};
use crate::server_types;
use crate::server_types::{Emission, Peer, Request};
use bytes::Bytes;
use vstd::prelude::*;

verus! {

/// A call of a registered route runs that route's handler with the call's params and
/// attachments, under the call's id.
pub proof fn lemma_call_runs_its_handler(
    client: Client,
    route: Seq<char>,
    params: Tree,
    attachments: Seq<Attachment>,
    server: Server,
    connection_id: Seq<char>,
    peer_addr: Option<Peer>,
    identity: Option<Seq<(Seq<char>, Tree)>>,
    next: (RequestRun, RequestStep),
)
    requires
        server.filters == 0,
        server.routes.contains(route),
        codec::received(client.call_packet(route, params, attachments)).body matches
            Body::ApiRequest {
            request_id,
            route: wanted,
            params: given,
            attachments: files,
            metadata,
        } && server.api_advance(
            RequestRun { connection_id, request_id, route: wanted, filters_run: 0, status: 200 },
            Request {
                connection_id,
                peer_addr,
                request_id,
                route: wanted,
                params: given,
                attachments: files,
                metadata,
                auth: identity,
            },
            next,
        ),
    ensures
        next.0.request_id == client::next_id(client.last_request_id),
        next.1 matches RequestStep::Handler(place, ctx) && {
            &&& place < server.routes.len()
            &&& server.routes[place as int] == route
            &&& ctx.request_id == client::next_id(client.last_request_id)
            &&& ctx.route == route
            &&& ctx.params == params
            &&& ctx.attachments == attachments
            &&& ctx.auth == identity
        },
{
}

/// The response that the server sends for a call completes that call at the client:
/// with the handler's value, or with the error as a remote error.
pub proof fn lemma_response_completes_call(
    server: Server,
    run: RequestRun,
    outcome: Outcome,
    client: Client,
    step: ClientStep,
)
    requires
        client.pending_api.contains(run.request_id),
        server.api_handled(run, outcome).1 matches RequestStep::Respond(packet)
            && client.packet_step(codec::received(packet).body, step),
    ensures
        step matches ClientStep::CompleteCall { request_id, result } && request_id
            == run.request_id && client::says(
            result,
            match outcome {
                Outcome::Done(data) => Ok::<Tree, ClientFailure>(data@),
                Outcome::Failed(e) => Err::<Tree, ClientFailure>(
                    ClientFailure::Remote(e@.normal()),
                ),
                Outcome::Panicked => Err::<Tree, ClientFailure>(
                    ClientFailure::Remote(server_types::internal("handler panicked"@)),
                ),
            },
        ),
{
}

/// An error payload that the exception handler has made reaches the caller as a
/// remote error.
pub proof fn lemma_mapped_error_reaches_caller(
    server: Server,
    run: RequestRun,
    payload: ErrorInfo,
    client: Client,
    step: ClientStep,
)
    requires
        client.pending_api.contains(run.request_id),
        client.packet_step(codec::received(server.api_mapped(run, payload)).body, step),
    ensures
        step matches ClientStep::CompleteCall { request_id, result } && request_id
            == run.request_id && client::says(
            result,
            Err::<Tree, ClientFailure>(ClientFailure::Remote(payload.normal())),
        ),
{
}

/// The acknowledgement that the server sends for an event completes that event at
/// the client: with the handler's receipt, or with the error as a remote error.
pub proof fn lemma_ack_completes_event(
    server: Server,
    run: EventRun,
    outcome: Outcome,
    client: Client,
    step: ClientStep,
)
    requires
        client.pending_event.contains(run.event_id),
        server.event_handled(run, outcome) matches EmissionStep::Respond(packet)
            && client.packet_step(codec::received(packet).body, step),
    ensures
        step matches ClientStep::CompleteEvent { event_id, result } && event_id == run.event_id
            && client::says(
            result,
            match outcome {
                Outcome::Done(receipt) => Ok::<Tree, ClientFailure>(receipt@),
                Outcome::Failed(e) => Err::<Tree, ClientFailure>(
                    ClientFailure::Remote(e@.normal()),
                ),
                Outcome::Panicked => Err::<Tree, ClientFailure>(
                    ClientFailure::Remote(server_types::internal("event handler panicked"@)),
                ),
            },
        ),
{
}

/// An event that no handler is registered for is acknowledged with an error, which
/// reaches its sender.
pub proof fn lemma_unhandled_event_fails(
    server: Server,
    event: Emission,
    first: EmissionStep,
    client: Client,
    step: ClientStep,
)
    requires
        !server.event_handlers.contains(event.name),
        server.event_start(event, first),
        client.pending_event.contains(event.event_id),
        first matches EmissionStep::Respond(packet) && client.packet_step(
            codec::received(packet).body,
            step,
        ),
    ensures
        step matches ClientStep::CompleteEvent { event_id, result } && event_id == event.event_id
            && client::says(
            result,
            Err::<Tree, ClientFailure>(
                ClientFailure::Remote(server_types::not_found("event handler not found"@)),
            ),
        ),
{
}

/// A call that the rate limiter rejects fails at the client with the remote error
/// `service_busy`, and an event that it rejects succeeds there with an empty receipt.
pub proof fn lemma_busy_reply_reaches_sender(client: Client, body: Body, step: ClientStep)
    requires
        server::busy_reply(body) matches Some(reply) && client.packet_step(reply.normal(), step),
        body matches Body::ApiRequest { request_id, .. } ==> client.pending_api.contains(
            request_id,
        ),
        body matches Body::EventEmit { event_id, .. } ==> client.pending_event.contains(event_id),
    ensures
        body matches Body::ApiRequest { request_id, .. } ==> (step matches
            ClientStep::CompleteCall { request_id: id, result } && id == request_id
            && client::says(
            result,
            Err::<Tree, ClientFailure>(
                ClientFailure::Remote(server_types::service_busy("service busy"@)),
            ),
        )),
        body matches Body::EventEmit { event_id, .. } ==> (step matches
            ClientStep::CompleteEvent { event_id: id, result } && id == event_id && client::says(
            result,
            Ok::<Tree, ClientFailure>(Tree::Object(Seq::empty())),
        )),
{
}

/// The credential that a client submits is the one that the server's authentication
/// handler judges.
pub proof fn lemma_submitted_credential_is_judged(
    credential: Seq<char>,
    encryption: EncryptionKind,
    codec: Codec,
    connection_id: Seq<char>,
    bytes: Bytes,
    step: AuthStep,
)
    requires
        codec.decode_auth(buffer::contents(bytes)) == Ok::<_, Failure>(
            auth::received(auth::auth_request(credential, encryption)),
        ),
        server::auth_step(codec, connection_id, Incoming::Binary(bytes), step),
    ensures
        step matches AuthStep::RunHandler(ctx) && ctx.credential@ == credential,
{
}

/// A connection that has no session yet gets on only by submitting a credential:
/// every other frame ends it, and none is processed.
pub proof fn lemma_only_a_credential_gets_on(
    codec: Codec,
    connection_id: Seq<char>,
    bytes: Bytes,
    step: AuthStep,
)
    requires
        server::auth_step(codec, connection_id, Incoming::Binary(bytes), step),
    ensures
        step is Stop || (codec.decode_auth(buffer::contents(bytes)) matches Ok(packet)
            && packet.message is AuthRequest && step is RunHandler),
        codec.decode(buffer::contents(bytes)) is Ok ==> server::is_unauthorized(step),
{
}

/// The server's verdict on a credential decides the client's connection: accepted, it
/// goes live; refused, it fails with the error that the handler returned.
pub proof fn lemma_verdict_decides_connection(
    error: Option<ErrorInfo>,
    encryption: EncryptionKind,
    codec: Codec,
    bytes: Bytes,
    step: ClientAuthStep,
)
    requires
        codec.decode_auth(buffer::contents(bytes)) == Ok::<_, Failure>(
            auth::received(
                match error {
                    Some(e) => auth::auth_refused(e, encryption),
                    None => auth::auth_accepted(encryption),
                },
            ),
        ),
        client::client_auth_step(codec, ClientIncoming::Binary(bytes), step),
    ensures
        match error {
            Some(e) => step matches ClientAuthStep::Failed(failure) && failure@
                == ClientFailure::AuthFailed(e.normal()),
            None => step is Accepted,
        },
{
}

/// A call on a server with filters is handed to the first of them with the call's route,
/// params and attachments, the client's metadata, and the identity of the connection.
pub proof fn lemma_call_reaches_first_filter(
    client: Client,
    route: Seq<char>,
    params: Tree,
    attachments: Seq<Attachment>,
    server: Server,
    connection_id: Seq<char>,
    peer_addr: Option<Peer>,
    identity: Option<Seq<(Seq<char>, Tree)>>,
    next: (RequestRun, RequestStep),
)
    requires
        server.filters > 0,
        codec::received(client.call_packet(route, params, attachments)).body matches
            Body::ApiRequest {
            request_id,
            route: wanted,
            params: given,
            attachments: files,
            metadata,
        } && server.api_advance(
            RequestRun { connection_id, request_id, route: wanted, filters_run: 0, status: 200 },
            Request {
                connection_id,
                peer_addr,
                request_id,
                route: wanted,
                params: given,
                attachments: files,
                metadata,
                auth: identity,
            },
            next,
        ),
    ensures
        next.0.request_id == client::next_id(client.last_request_id),
        next.1 matches RequestStep::Filter(place, ctx) && {
            &&& place == 0
            &&& ctx.connection_id == connection_id
            &&& ctx.peer_addr == peer_addr
            &&& ctx.request_id == client::next_id(client.last_request_id)
            &&& ctx.route == route
            &&& ctx.params == params
            &&& ctx.attachments == attachments
            &&& ctx.metadata == Tree::Object(seq![("client_name"@, Tree::Text("rust-demo"@))])
            &&& ctx.auth == identity
        },
{
    assert(client::client_metadata()->Object_0.len() == 1);
}

/// A call whose filters all pass its context on unchanged reaches the handler of its
/// route with the call's params and attachments: `next` is what the server does after
/// `passed` filters.
pub proof fn lemma_call_passes_its_filters(
    client: Client,
    route: Seq<char>,
    params: Tree,
    attachments: Seq<Attachment>,
    server: Server,
    request: Request,
    passed: nat,
    run: RequestRun,
    next: (RequestRun, RequestStep),
)
    requires
        codec::received(client.call_packet(route, params, attachments)).body matches
            Body::ApiRequest {
            request_id,
            route: wanted,
            params: given,
            attachments: files,
            metadata,
        } && request.request_id == request_id && request.route == wanted && request.params == given
            && request.attachments == files && request.metadata == metadata,
        run.filters_run == passed,
        server.api_advance(run, request, next),
    ensures
        passed < server.filters ==> (next.1 matches RequestStep::Filter(place, ctx) && place
            == passed && next.0.filters_run == passed + 1 && ctx.route == route && ctx.params
            == params && ctx.attachments == attachments && ctx.auth == request.auth),
        passed >= server.filters && server.routes.contains(route) ==> (next.1 matches
            RequestStep::Handler(place, ctx) && server.routes[place as int] == route && ctx.route
            == route && ctx.params == params && ctx.attachments == attachments && ctx.auth
            == request.auth),
{
}

/// An event that a client sends runs the server's handler of its name with the data and
/// the attachments that the caller gave, under the event's id.
pub proof fn lemma_sent_event_runs_its_handler(
    client: Client,
    name: Seq<char>,
    data: Seq<(Seq<char>, Tree)>,
    attachments: Seq<Attachment>,
    server: Server,
    connection_id: Seq<char>,
    peer_addr: Option<Peer>,
    identity: Option<Seq<(Seq<char>, Tree)>>,
    step: EmissionStep,
)
    requires
        server.event_handlers.contains(name),
        codec::received(client.event_packet(name, data, attachments)).body matches Body::EventEmit {
            event_id,
            name: title,
            data: value,
            attachments: files,
            metadata,
            ..
        } && server.event_start(
            Emission {
                connection_id,
                peer_addr,
                event_id,
                name: title,
                data: value,
                attachments: files,
                metadata,
                auth: identity,
            },
            step,
        ),
    ensures
        step matches EmissionStep::Handler(place, ctx) && {
            &&& place < server.event_handlers.len()
            &&& server.event_handlers[place as int] == name
            &&& ctx.connection_id == connection_id
            &&& ctx.peer_addr == peer_addr
            &&& ctx.event_id == client::next_id(client.last_event_id)
            &&& ctx.name == name
            &&& ctx.data == data
            &&& ctx.attachments == attachments
            &&& ctx.metadata == Tree::Object(seq![("client_name"@, Tree::Text("rust-demo"@))])
            &&& ctx.auth == identity
        },
{
    assert(client::client_metadata()->Object_0.len() == 1);
}

/// An event that the server pushes reaches the client's handlers of its name, each of
/// them and no others, with the data and the attachments that the server's caller gave.
pub proof fn lemma_pushed_event_reaches_handlers(
    handle: Handle,
    name: Seq<char>,
    data: Seq<(Seq<char>, Tree)>,
    attachments: Seq<Attachment>,
    client: Client,
    step: ClientStep,
)
    requires
        client.packet_step(
            codec::received(handle.event_packet(name, data, attachments)).body,
            step,
        ),
    ensures
        step matches ClientStep::RunHandlers { event, places, expect_ack } && {
            &&& event@.event_id == handle.after_event().last_event_id
            &&& event@.name == name
            &&& event@.data == data
            &&& event@.attachments == attachments
            &&& event@.metadata == Tree::Object(seq![("source"@, Tree::Text("server"@))])
            &&& expect_ack
            &&& forall|i: int|
                0 <= i < places@.len() ==> (#[trigger] places@[i]) < client.event_handlers.len()
                    && client.event_handlers[places@[i] as int] == name
            &&& forall|place: nat|
                place < client.event_handlers.len() && #[trigger] client.event_handlers[place as int]
                    == name ==> exists|i: int|
                    0 <= i < places@.len() && #[trigger] places@[i] == place
        },
{
    assert(seq![("source"@, Tree::Text("server"@))].len() == 1);
    client_laws::lemma_event_runs_its_handlers(
        client,
        codec::received(handle.event_packet(name, data, attachments)).body,
        step,
    );
}

/// An event that the server has encoded for its connections is handled by every client
/// that has the key: the bytes that are sent carry it to the client's handlers.
pub proof fn lemma_broadcast_reaches_client(
    handle: Handle,
    name: Seq<char>,
    data: Seq<(Seq<char>, Tree)>,
    attachments: Seq<Attachment>,
    outbound: ServerOutbound,
    bytes: Bytes,
    peer: Codec,
    step: ClientReaderStep,
)
    requires
        server::carries(
            outbound,
            handle.codec,
            handle.is_ecdh,
            handle.event_packet(name, data, attachments),
        ),
        outbound == ServerOutbound::PreEncoded(bytes),
        codec::survives(handle.event_packet(name, data, attachments)),
        buffer::contents(bytes).len() <= peer.max_frame_bytes,
        buffer::contents(bytes).len() - 4 < 0x1_0000_0000,
        peer.chacha20_key == handle.codec.chacha20_key,
        peer.aes256_key == handle.codec.aes256_key,
        client::client_read_step(peer, ClientIncoming::Binary(bytes), step),
    ensures
        step matches ClientReaderStep::Handle(packet) && (packet@.body matches Body::EventEmit {
            event_id,
            name: title,
            data: value,
            attachments: files,
            expect_ack,
            ..
        } && event_id == handle.after_event().last_event_id && title == name && value == data
            && files == attachments && expect_ack),
{
    frame_laws::lemma_frame_reaches_peer(
        handle.codec,
        peer,
        handle.event_packet(name, data, attachments),
        buffer::contents(bytes),
    );
}

/// The frame of a client's packet is processed by a server that has the key, as the
/// packet that was sent.
pub proof fn lemma_frame_is_processed(
    packet: Packet,
    sender: Codec,
    bytes: Bytes,
    server: Server,
    peer: Codec,
    connection_id: Seq<char>,
    step: ReaderStep,
)
    requires
        codec::round_trips(sender, packet, buffer::contents(bytes)),
        codec::survives(packet),
        buffer::contents(bytes).len() <= peer.max_frame_bytes,
        buffer::contents(bytes).len() <= server.max_frame_bytes,
        buffer::contents(bytes).len() - 4 < 0x1_0000_0000,
        peer.chacha20_key == sender.chacha20_key,
        peer.aes256_key == sender.aes256_key,
        server.read_step(peer, connection_id, Incoming::Binary(bytes), Verdict::Allowed, step),
    ensures
        step matches ReaderStep::Process { packet: got, .. } && got@ == codec::received(packet),
{
    frame_laws::lemma_frame_reaches_peer(sender, peer, packet, buffer::contents(bytes));
}

/// A client's acknowledgement of a pushed event, with the last handler's receipt, needs
/// nothing more at the server: it names the event that the server has pushed.
pub proof fn lemma_pushed_event_is_acknowledged(
    handle: Handle,
    name: Seq<char>,
    data: Seq<(Seq<char>, Tree)>,
    attachments: Seq<Attachment>,
    client: Client,
    step: ClientStep,
)
    requires
        client.packet_step(
            codec::received(handle.event_packet(name, data, attachments)).body,
            step,
        ),
    ensures
        step matches ClientStep::RunHandlers { event, expect_ack, .. } && expect_ack
            && event@.event_id == handle.after_event().last_event_id,
        client.after_packet(codec::received(handle.event_packet(name, data, attachments)).body)
            == client,
{
}

/// Both sides of a handshake come to the same session key: what the server's side states
/// of its key for every secret of the public key that it was sent holds of the client's.
pub proof fn lemma_handshake_agrees(
    client_secret: Seq<u8>,
    server_secret: Seq<u8>,
    client_key: Seq<u8>,
    server_key: Seq<u8>,
)
    requires
        client_secret.len() == 32,
        client_key == ecdh::session_key(
            crypto::x25519_shared(client_secret, crypto::x25519_public(server_secret)),
        ),
        forall|secret: Seq<u8>|
            secret.len() == 32 && crypto::x25519_public(client_secret)
                == #[trigger] crypto::x25519_public(secret) ==> server_key == ecdh::session_key(
                crypto::x25519_shared(secret, crypto::x25519_public(server_secret)),
            ),
    ensures
        client_key == server_key,
        client_key == crypto::sha256(
            ecdh::ECDH_DOMAIN_TAG@ + crypto::x25519_shared(
                client_secret,
                crypto::x25519_public(server_secret),
            ),
        ),
{
    let sent = crypto::x25519_public(client_secret);
    assert(sent == crypto::x25519_public(client_secret));
}

} // verus!
