//! Laws of the server: what a request, an event, a frame and a credential lead to.
use crate::attachment::Attachment;
use crate::auth::AuthInfo;
use crate::buffer;
use crate::codec;
use crate::codec::Codec;
use crate::json::{Json, Tree};
use crate::packet::{Body, EncryptionKind, ErrorInfo, Packet};
use crate::rate_limiter::Verdict;
use crate::server;
use crate::server::{
    AuthStep, EmissionStep, EventRun, Handle, Incoming, Outcome, ReaderStep, RequestRun,
    RequestStep, Server, ServerOutbound,
};
use crate::server_types;
use crate::server_types::{ApiError, AuthOutput, Emission, Exception, Request, ServerFailure};
use crate::text;
use crate::time;
use bytes::Bytes;
use vstd::prelude::*;

verus! {

/// Two contexts of a request hold the same.
pub open spec fn same_request(a: Request, b: Request) -> bool {
    &&& a.connection_id == b.connection_id
    &&& a.peer_addr == b.peer_addr
    &&& a.request_id == b.request_id
    &&& a.route == b.route
    &&& a.params == b.params
    &&& a.attachments == b.attachments
    &&& a.metadata == b.metadata
    &&& a.auth == b.auth
}

/// Two contexts of an event hold the same.
pub open spec fn same_emission(a: Emission, b: Emission) -> bool {
    &&& a.connection_id == b.connection_id
    &&& a.peer_addr == b.peer_addr
    &&& a.event_id == b.event_id
    &&& a.name == b.name
    &&& a.data == b.data
    &&& a.attachments == b.attachments
    &&& a.metadata == b.metadata
    &&& a.auth == b.auth
}

/// The context that a filter or the handler is run on is the one that was handed to
/// the step, field by field. The filters come first, in the order of their places; then
/// comes the handler at a place that the route was registered at. The run stays that of
/// the same request.
pub proof fn lemma_step_runs_on_the_context(
    server: Server,
    run: RequestRun,
    request: Request,
    next: (RequestRun, RequestStep),
)
    requires
        server.api_advance(run, request, next),
    ensures
        next.1 matches RequestStep::Filter(place, ctx) ==> place == run.filters_run
            && same_request(ctx, request),
        next.1 matches RequestStep::Handler(place, ctx) ==> place < server.routes.len()
            && server.routes[place as int] == request.route && same_request(ctx, request),
        run.filters_run < server.filters <==> next.1 is Filter,
        run.filters_run >= server.filters && server.routes.contains(request.route) <==> next.1 is Handler,
        next.0.filters_run == if next.1 is Filter {
            run.filters_run + 1
        } else {
            run.filters_run
        },
        next.0.connection_id == run.connection_id,
        next.0.request_id == run.request_id,
        next.0.route == run.route,
        next.1 is Filter || next.1 is Handler ==> next.0.status == run.status,
{
}

/// Each later filter, and at last the handler, is run on what the filter before it has
/// returned.
pub proof fn lemma_filter_hands_its_context_on(
    server: Server,
    run: RequestRun,
    request: Request,
    next: (RequestRun, RequestStep),
    returned: Request,
    last: (RequestRun, RequestStep),
)
    requires
        server.api_advance(run, request, next),
        next.1 is Filter,
        server.api_advance(next.0, returned, last),
    ensures
        run.filters_run + 1 < server.filters ==> (last.1 matches RequestStep::Filter(place, ctx)
            && place == run.filters_run + 1 && same_request(ctx, returned)),
        run.filters_run + 1 >= server.filters && server.routes.contains(returned.route) ==> (
        last.1 matches RequestStep::Handler(place, ctx) && server.routes[place as int]
            == returned.route && same_request(ctx, returned)),
{
}

/// What a handler returns is the data of a response with status 200 to the request.
pub proof fn lemma_returned_value_is_answered(server: Server, run: RequestRun, value: Json)
    ensures
        server.api_handled(run, Outcome::Done(value)).0 == run,
        server.api_handled(run, Outcome::Done(value)).1 matches RequestStep::Respond(packet) && {
            &&& packet.message_type is Api
            &&& packet.encryption == server.default_encryption
            &&& packet.body matches Body::ApiResponse {
                request_id,
                ok,
                status,
                data,
                error,
                metadata,
            } && request_id == run.request_id && ok && status == 200 && data == value@
                && error is None && metadata == Tree::Object(Seq::empty())
        },
{
}

/// The packet answers the request with this id with an error.
pub open spec fn answers_with_error(
    packet: Packet,
    encryption: EncryptionKind,
    id: u64,
    number: u16,
    reason: ErrorInfo,
) -> bool {
    &&& packet.message_type is Api
    &&& packet.encryption == encryption
    &&& packet.body matches Body::ApiResponse { request_id, ok, status, data, error, metadata }
        && request_id == id && !ok && status == number && data == Tree::Object(Seq::empty())
        && error == Some(reason) && metadata == Tree::Object(Seq::empty())
}

/// The packet acknowledges the event with this id with an error.
pub open spec fn acknowledges_with_error(
    packet: Packet,
    encryption: EncryptionKind,
    id: u64,
    reason: ErrorInfo,
) -> bool {
    &&& packet.message_type is Event
    &&& packet.encryption == encryption
    &&& packet.body matches Body::EventAck { event_id, ok, receipt, error } && event_id == id && !ok
        && receipt == Tree::Object(Seq::empty()) && error == Some(reason)
}

/// The exception handler is told what failed, where, and with which error.
pub open spec fn tells(
    exception: Exception,
    connection_id: Seq<char>,
    id: u64,
    target: Seq<char>,
    kind: Seq<char>,
    error: ErrorInfo,
) -> bool {
    &&& exception.connection_id == connection_id
    &&& exception.request_id == Some(id)
    &&& exception.target == target
    &&& exception.message_kind == kind
    &&& exception.error == error
}

/// The error that a handler returns is the one that the caller is answered, with its own
/// status; where there is an exception handler, it is told instead, and what it makes of
/// the error is answered with the status of the error.
pub proof fn lemma_returned_error_is_answered(
    server: Server,
    run: RequestRun,
    error: ApiError,
    payload: ErrorInfo,
)
    ensures
        ({
            let next = server.api_handled(run, Outcome::Failed(error));
            &&& next.0.request_id == run.request_id
            &&& next.0.status == error.status
            &&& !server.maps_exceptions ==> (next.1 matches RequestStep::Respond(packet)
                && answers_with_error(
                packet,
                server.default_encryption,
                run.request_id,
                error.status,
                error@,
            ))
            &&& server.maps_exceptions ==> (next.1 matches RequestStep::MapException(exception)
                && tells(
                exception,
                run.connection_id,
                run.request_id,
                run.route,
                "api"@,
                error@,
            ))
            &&& answers_with_error(
                server.api_mapped(next.0, payload),
                server.default_encryption,
                run.request_id,
                error.status,
                payload,
            )
        }),
{
}

/// A filter's error ends the request in the same way as a handler's.
pub proof fn lemma_filter_error_ends_request(server: Server, run: RequestRun, error: ErrorInfo)
    ensures
        server.api_fail(run, error).0.status == error.status,
        server.api_fail(run, error).0.request_id == run.request_id,
        !server.maps_exceptions ==> (server.api_fail(run, error).1 matches RequestStep::Respond(
            packet,
        ) && answers_with_error(
            packet,
            server.default_encryption,
            run.request_id,
            error.status,
            error,
        )),
        server.maps_exceptions ==> (server.api_fail(run, error).1 matches RequestStep::MapException(
            exception,
        ) && tells(exception, run.connection_id, run.request_id, run.route, "api"@, error)),
{
}

/// An error without details.
pub open spec fn is_plain(
    error: ErrorInfo,
    code: Seq<char>,
    message: Seq<char>,
    status: u16,
) -> bool {
    &&& error.code == code
    &&& error.message == message
    &&& error.status == status
    &&& error.details is None
}

/// A handler that panics is answered as an internal error, and a route that is not
/// registered as one that was not found.
pub proof fn lemma_panic_and_unknown_route_are_answered(
    server: Server,
    run: RequestRun,
    request: Request,
    next: (RequestRun, RequestStep),
)
    requires
        !server.maps_exceptions,
    ensures
        server.api_handled(run, Outcome::Panicked).1 matches RequestStep::Respond(packet) && (
        packet.body matches Body::ApiResponse { request_id, ok, status, error, .. } && request_id
            == run.request_id && !ok && status == 500 && (error matches Some(e) && is_plain(
            e,
            "internal_error"@,
            "handler panicked"@,
            500,
        ))),
        run.filters_run >= server.filters && !server.routes.contains(request.route)
            && server.api_advance(run, request, next) ==> (next.1 matches RequestStep::Respond(
            packet,
        ) && (packet.body matches Body::ApiResponse { request_id, ok, status, error, .. }
            && request_id == run.request_id && !ok && status == 404 && (error matches Some(e)
            && is_plain(e, "not_found"@, "route not found"@, 404)))),
{
}

/// An event of a registered name runs that handler on the event as it came. One that no
/// handler is registered for is acknowledged with the error that none was found.
pub proof fn lemma_event_runs_on_the_context(server: Server, event: Emission, step: EmissionStep)
    requires
        server.event_start(event, step),
    ensures
        server.event_handlers.contains(event.name) ==> (step matches EmissionStep::Handler(
            place,
            ctx,
        ) && place < server.event_handlers.len() && server.event_handlers[place as int]
            == event.name && same_emission(ctx, event)),
        !server.event_handlers.contains(event.name) ==> (step matches EmissionStep::Respond(packet)
            && packet.message_type is Event && packet.encryption == server.default_encryption && (
        packet.body matches Body::EventAck { event_id, ok, receipt, error } && event_id
            == event.event_id && !ok && receipt == Tree::Object(Seq::empty()) && (error matches
            Some(e) && is_plain(e, "not_found"@, "event handler not found"@, 404)))),
{
}

/// What an event's handler returns is the receipt of its acknowledgement; an error, or a
/// panic as an internal error, is acknowledged as such or told to the exception handler.
pub proof fn lemma_event_outcome_is_acknowledged(
    server: Server,
    run: EventRun,
    value: Json,
    error: ApiError,
    payload: ErrorInfo,
)
    ensures
        server.event_handled(run, Outcome::Done(value)) matches EmissionStep::Respond(packet)
            && packet.message_type is Event && packet.encryption == server.default_encryption && (
        packet.body matches Body::EventAck { event_id, ok, receipt, error: none } && event_id
            == run.event_id && ok && receipt == value@ && none is None),
        !server.maps_exceptions ==> {
            &&& server.event_handled(run, Outcome::Failed(error)) matches EmissionStep::Respond(
                packet,
            ) && acknowledges_with_error(
                packet,
                server.default_encryption,
                run.event_id,
                error@,
            )
            &&& server.event_handled(run, Outcome::Panicked) matches EmissionStep::Respond(packet)
                && (packet.body matches Body::EventAck { event_id, ok, error: reason, .. }
                && event_id == run.event_id && !ok && (reason matches Some(e) && is_plain(
                e,
                "internal_error"@,
                "event handler panicked"@,
                500,
            )))
        },
        server.maps_exceptions ==> {
            &&& server.event_handled(run, Outcome::Failed(error)) matches
                EmissionStep::MapException(exception) && tells(
                exception,
                run.connection_id@,
                run.event_id,
                run.name@,
                "event"@,
                error@,
            )
            &&& server.event_handled(run, Outcome::Panicked) matches EmissionStep::MapException(
                exception,
            ) && is_plain(exception.error, "internal_error"@, "event handler panicked"@, 500)
        },
        acknowledges_with_error(
            server::packet_of(
                server::failure_ack(run.event_id, payload),
                server.default_encryption,
            ),
            server.default_encryption,
            run.event_id,
            payload,
        ),
{
}

/// A frame is within its bounds: no larger than the limit and, where it holds a header,
/// as long as that says.
pub open spec fn is_accepted(frame: Seq<u8>, limit: nat) -> bool {
    &&& frame.len() <= limit
    &&& frame.len() >= 6 ==> frame[0] * 0x100_0000 + frame[1] * 0x1_0000 + frame[2] * 0x100
        + frame[3] == frame.len() - 4
}

/// What the reader does with a binary message. A frame that is not within its bounds is
/// answered with a 413 that names no request. One that cannot be decoded ends the
/// connection with the codec's error. A packet is processed as it was decoded where the
/// rate limiter allows it; otherwise a request is answered with a 503, an event is
/// acknowledged with an empty receipt, and any other packet is dropped.
pub proof fn lemma_frame_is_read(
    server: Server,
    codec: Codec,
    connection: Seq<char>,
    bytes: Bytes,
    verdict: Verdict,
    step: ReaderStep,
)
    requires
        server.read_step(codec, connection, Incoming::Binary(bytes), verdict, step),
    ensures
        ({
            let frame = buffer::contents(bytes);
            if !is_accepted(frame, server.max_frame_bytes as nat) {
                step matches ReaderStep::Reply(packet) && packet@.message_type is Api
                    && packet@.encryption == server.default_encryption && (packet@.body matches
                    Body::ApiResponse { request_id, ok, status, data, error, metadata }
                    && request_id == 0 && !ok && status == 413 && data == Tree::Object(
                    Seq::empty(),
                ) && metadata == Tree::Object(Seq::empty()) && (error matches Some(e) && e.code
                    == "frame_too_large"@ && e.status == 413 && e.details is None && (frame.len()
                    > server.max_frame_bytes ==> e.message == "frame size "@ + text::decimal(
                    frame.len(),
                ) + " exceeds limit "@ + text::decimal(server.max_frame_bytes as nat)) && (
                frame.len() <= server.max_frame_bytes ==> e.message
                    == "frame length mismatch: declared="@ + text::decimal(
                    (frame[0] * 0x100_0000 + frame[1] * 0x1_0000 + frame[2] * 0x100 + frame[3]) as nat,
                ) + ", actual="@ + text::decimal((frame.len() - 4) as nat))))
            } else {
                match codec.decode(frame) {
                    Err(e) => step matches ReaderStep::Stop(Err(error)) && error@
                        == ServerFailure::Protocol(e),
                    Ok(packet) => match (verdict, packet.body) {
                        (Verdict::Allowed, body) => step matches ReaderStep::Process {
                            packet: got,
                            spawn,
                        } && got@ == packet && (spawn <==> body is ApiRequest || body is EventEmit),
                        (_, Body::ApiRequest { request_id: id, .. }) => {
                            step matches ReaderStep::Reply(reply) && reply@.encryption
                                == server.default_encryption && reply@.message_type is Api && (
                            reply@.body matches Body::ApiResponse {
                                request_id,
                                ok,
                                status,
                                data,
                                error,
                                metadata,
                            } && request_id == id && !ok && status == 503 && data == Tree::Object(
                                Seq::empty(),
                            ) && metadata == Tree::Object(Seq::empty()) && (error matches Some(e)
                                && is_plain(e, "service_busy"@, "service busy"@, 503)))
                        },
                        (_, Body::EventEmit { event_id: id, .. }) => {
                            step matches ReaderStep::Reply(reply) && reply@.encryption
                                == server.default_encryption && reply@.message_type is Event && (
                            reply@.body matches Body::EventAck { event_id, ok, receipt, error }
                                && event_id == id && ok && receipt == Tree::Object(Seq::empty())
                                && error is None)
                        },
                        _ => step is Ignore,
                    },
                }
            }
        }),
{
}

/// What the reader does with a message that is not a binary one.
pub proof fn lemma_other_messages_are_read(
    server: Server,
    codec: Codec,
    connection: Seq<char>,
    message: Incoming,
    verdict: Verdict,
    step: ReaderStep,
)
    requires
        server.read_step(codec, connection, message, verdict, step),
    ensures
        match message {
            Incoming::Binary(_) => true,
            Incoming::Ping(sent) => step matches ReaderStep::Pong(reply) && reply@ == sent@,
            Incoming::Text | Incoming::Pong | Incoming::Frame => step is Ignore,
            Incoming::Close | Incoming::End => step matches ReaderStep::Stop(end) && end is Ok,
            Incoming::TimedOut => step matches ReaderStep::Stop(Err(e)) && (e@ matches
                ServerFailure::IdleTimeout(id) && id == connection),
            Incoming::Failed(reason) => step matches ReaderStep::Stop(Err(e)) && (e@ matches
                ServerFailure::WebSocket(source) && source == reason@),
        },
{
}

/// The rate limiter counts the binary messages that are within their bounds, and no
/// others.
pub proof fn lemma_limiter_counts_accepted_frames(server: Server, message: Incoming)
    ensures
        server.counts(message) <==> (message matches Incoming::Binary(bytes) && is_accepted(
            buffer::contents(bytes),
            server.max_frame_bytes as nat,
        )),
{
}

/// What is done with a message of a connection that has no session. A credential is
/// judged as it was submitted. A frame of another kind is refused as unauthorized, and
/// one that cannot be decoded ends the connection with the codec's error.
pub proof fn lemma_unauthenticated_message_is_read(
    codec: Codec,
    connection: Seq<char>,
    message: Incoming,
    step: AuthStep,
)
    requires
        server::auth_step(codec, connection, message, step),
    ensures
        match message {
            Incoming::Binary(bytes) => match codec.decode_auth(buffer::contents(bytes)) {
                Ok(packet) => match packet.message {
                    AuthInfo::AuthRequest { credential } => step matches AuthStep::RunHandler(ctx)
                        && ctx.credential@ == credential,
                    AuthInfo::AuthResponse { .. } => is_refused(step),
                },
                Err(e) => if e is MessageTypeMismatch {
                    is_refused(step)
                } else {
                    step matches AuthStep::Stop(Err(error)) && (error@ matches
                        ServerFailure::Protocol(reason) && reason == e)
                },
            },
            Incoming::Ping(sent) => step matches AuthStep::Pong(reply) && reply@ == sent@,
            Incoming::Text | Incoming::Pong | Incoming::Frame => step is Ignore,
            Incoming::Close | Incoming::End => step matches AuthStep::Stop(end) && end is Ok,
            Incoming::TimedOut => step matches AuthStep::Stop(Err(e)) && (e@ matches
                ServerFailure::IdleTimeout(id) && id == connection),
            Incoming::Failed(reason) => step matches AuthStep::Stop(Err(e)) && (e@ matches
                ServerFailure::WebSocket(source) && source == reason@),
        },
{
}

/// The connection ends with a 401.
pub open spec fn is_refused(step: AuthStep) -> bool {
    step matches AuthStep::Stop(Err(error)) && (error@ matches ServerFailure::Api(e) && is_plain(
        e,
        "unauthorized"@,
        "authentication required"@,
        401,
    ))
}

/// A session has the idle timeout that the authentication handler has set, or 45 s, and
/// the identity that it has given.
pub proof fn lemma_session_is_as_granted(output: AuthOutput)
    ensures
        output.session_timeout matches Some(timeout) ==> server::granted(output).idle_nanos
            == time::nanos(timeout),
        output.session_timeout is None ==> server::granted(output).idle_nanos == 45_000_000_000,
        output.context matches Some(map) ==> server::granted(output).context == Some(map@),
        output.context is None ==> server::granted(output).context is None,
{
}

/// A new server is a plaintext one without handlers: frames are at most 100 MiB, a
/// connection has at most 64 handlers at a time, and nothing else is limited.
pub proof fn lemma_new_server()
    ensures
        ({
            let server = server::new_server();
            &&& server.codec.chacha20_key is None
            &&& server.codec.aes256_key is None
            &&& server.codec.max_frame_bytes == 104857600
            &&& server.default_encryption is Plaintext
            &&& !server.is_ecdh
            &&& server.max_connections is None
            &&& server.max_in_flight == 64
            &&& server.max_frame_bytes == 104857600
            &&& server.rate_limiter is None
            &&& server.routes.len() == 0
            &&& server.event_handlers.len() == 0
            &&& server.filters == 0
            &&& !server.maps_exceptions
            &&& !server.authenticates
            &&& server.last_event_id == 0
            &&& server.clients == Set::<Seq<char>>::empty()
        }),
{
}

/// The times and sizes of the server.
pub proof fn lemma_server_constants()
    ensures
        server::SERVER_IDLE_TIMEOUT_SECS == 45,
        server::SERVER_AUTH_TIMEOUT_SECS == 10,
        server::SERVER_HEARTBEAT_SECS == 15,
        server::SERVER_OUTBOUND_QUEUE_CAPACITY == 256,
        server::OVERSIZE_ALLOWANCE == 1048576,
{
}

/// The event that a handle emits: its id is one more than the last, its name, data and
/// attachments are as the caller gave them, and it asks for an acknowledgement. Emitting
/// it changes nothing but the last id.
pub proof fn lemma_handle_emits_as_given(
    handle: Handle,
    name: Seq<char>,
    data: Seq<(Seq<char>, Tree)>,
    attachments: Seq<Attachment>,
)
    ensures
        ({
            let packet = handle.event_packet(name, data, attachments);
            &&& packet.message_type is Event
            &&& packet.encryption == handle.default_encryption
            &&& packet.body matches Body::EventEmit {
                event_id,
                name: title,
                data: value,
                attachments: files,
                metadata,
                expect_ack,
            } && title == name && value == data && files == attachments && expect_ack
                && event_id == handle.after_event().last_event_id && (metadata matches Tree::Object(
                members,
            ) && members.len() == 1 && members[0] == ("source"@, Tree::Text("server"@)))
        }),
        handle.last_event_id < u64::MAX ==> handle.after_event().last_event_id
            == handle.last_event_id + 1,
        handle.last_event_id == u64::MAX ==> handle.after_event().last_event_id == 0,
        handle.after_event().codec == handle.codec,
        handle.after_event().default_encryption == handle.default_encryption,
        handle.after_event().is_ecdh == handle.is_ecdh,
        handle.after_event().clients == handle.clients,
{
}

/// The handle that a server gives out is set up as the server is.
pub proof fn lemma_handle_is_the_servers(server: Server)
    ensures
        server.handle().codec == server.codec,
        server.handle().default_encryption == server.default_encryption,
        server.handle().is_ecdh == server.is_ecdh,
        server.handle().last_event_id == server.last_event_id,
        server.handle().clients == server.clients,
{
}

/// Registering a name that is not known puts it behind the others; one that is known
/// changes nothing.
pub proof fn lemma_registration(known: Seq<Seq<char>>, name: Seq<char>)
    ensures
        known.contains(name) ==> server::with_name(known, name) == known,
        !known.contains(name) ==> {
            &&& server::with_name(known, name).len() == known.len() + 1
            &&& server::with_name(known, name)[known.len() as int] == name
            &&& forall|i: int|
                0 <= i < known.len() ==> #[trigger] server::with_name(known, name)[i] == known[i]
        },
{
}

/// The codes and statuses of the ready-made errors.
pub proof fn lemma_ready_made_errors(message: Seq<char>)
    ensures
        is_plain(server_types::bad_request(message), "bad_request"@, message, 400),
        is_plain(server_types::not_found(message), "not_found"@, message, 404),
        is_plain(server_types::internal(message), "internal_error"@, message, 500),
        is_plain(server_types::unauthorized(message), "unauthorized"@, message, 401),
        is_plain(server_types::service_busy(message), "service_busy"@, message, 503),
        is_plain(
            server_types::bind_failure(message),
            "bad_request"@,
            "invalid params: "@ + message,
            400,
        ),
{
}

/// A parameter is found where the params are an object, under the last pair with its
/// key; nothing else has parameters.
pub proof fn lemma_param_is_the_member(
    members: Seq<(Seq<char>, Tree)>,
    key: Seq<char>,
    value: Tree,
    other: Seq<char>,
    params: Tree,
)
    ensures
        server_types::param_at(Tree::Object(members.push((key, value))), key) == Some(value),
        other != key ==> server_types::param_at(Tree::Object(members.push((key, value))), other)
            == server_types::param_at(Tree::Object(members), other),
        server_types::param_at(Tree::Object(Seq::empty()), key) is None,
        !(params is Object) ==> server_types::param_at(params, key) is None,
{
    assert(members.push((key, value)).drop_last() =~= members);
}

/// The summary of an attachment tells its id, its name, its content type and the number
/// of its bytes.
pub proof fn lemma_summary_of_attachment(file: Attachment)
    ensures
        server_types::attachment_summary(file) matches Tree::Object(members) && members.len() == 4
            && members[0] == ("id"@, Tree::Text(file.id)) && members[1] == (
            "name"@,
            Tree::Text(file.name),
        ) && members[2] == ("content_type"@, Tree::Text(file.content_type)) && members[3] == (
            "size"@,
            Tree::Int(file.data.len() as int),
        ),
{
}

/// With names that are registered once, a route or an event has one place.
pub proof fn lemma_name_has_one_place(server: Server, a: int, b: int)
    requires
        server.has_unique_names(),
    ensures
        0 <= a < server.routes.len() && 0 <= b < server.routes.len() && server.routes[a]
            == server.routes[b] ==> a == b,
        0 <= a < server.event_handlers.len() && 0 <= b < server.event_handlers.len()
            && server.event_handlers[a] == server.event_handlers[b] ==> a == b,
{
}

/// What is queued for a connection is the packet itself where every connection has a key
/// of its own, and else the packet's frame under the shared key.
pub proof fn lemma_queued_message_carries_packet(
    outbound: ServerOutbound,
    codec: Codec,
    is_ecdh: bool,
    packet: Packet,
)
    requires
        server::carries(outbound, codec, is_ecdh, packet),
    ensures
        is_ecdh ==> (outbound matches ServerOutbound::Packet(queued) && queued@ == packet),
        !is_ecdh ==> (outbound matches ServerOutbound::PreEncoded(bytes) && codec.encodes_to(
            packet,
            buffer::contents(bytes),
        ) && codec::round_trips(codec, packet, buffer::contents(bytes))),
{
}

} // verus!
