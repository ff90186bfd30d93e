//! Laws of the client: what it sends, what a reply or a push leads to, and what it does
//! about its connection.
use crate::attachment::Attachment;
use crate::auth::AuthInfo;
use crate::buffer;
use crate::client;
use crate::client::{
    Client, ClientAuthStep, ClientIncoming, ClientReaderStep, ClientStep, Disconnect, Supervisor,
    SupervisorEvent, SupervisorStep,
};
use crate::client_types;
use crate::client_types::{ClientFailure, ClientSetup};
use crate::codec::Codec;
use crate::crypto;
use crate::json::{Json, Tree};
use crate::packet::{Body, EncryptionKind, ErrorInfo};
use crate::time;
use vstd::prelude::*;

verus! {

/// The metadata of what a client sends tells its name.
pub open spec fn names_client(metadata: Tree) -> bool {
    metadata matches Tree::Object(members) && members.len() == 1 && members[0] == (
        "client_name"@,
        Tree::Text("rust-demo"@),
    )
}

/// The packet of a call asks for the route with the params and attachments that the
/// caller gave, under an id that is one more than the last.
pub proof fn lemma_call_is_sent_as_given(
    client: Client,
    route: Seq<char>,
    params: Tree,
    attachments: Seq<Attachment>,
)
    ensures
        ({
            let packet = client.call_packet(route, params, attachments);
            &&& packet.message_type is Api
            &&& packet.encryption == client.default_encryption
            &&& packet.body matches Body::ApiRequest {
                request_id,
                route: wanted,
                params: given,
                attachments: files,
                metadata,
            } && wanted == route && given == params && files == attachments && names_client(
                metadata,
            ) && request_id == client::next_id(client.last_request_id)
        }),
        client.last_request_id < u64::MAX ==> client::next_id(client.last_request_id)
            == client.last_request_id + 1,
        client.last_request_id == u64::MAX ==> client::next_id(client.last_request_id) == 0,
{
}

/// The packet of an event has the name, the data and the attachments that the caller
/// gave, under an id that is one more than the last, and asks for an acknowledgement.
pub proof fn lemma_event_is_sent_as_given(
    client: Client,
    name: Seq<char>,
    data: Seq<(Seq<char>, Tree)>,
    attachments: Seq<Attachment>,
)
    ensures
        ({
            let packet = client.event_packet(name, data, attachments);
            &&& packet.message_type is Event
            &&& packet.encryption == client.default_encryption
            &&& packet.body matches Body::EventEmit {
                event_id,
                name: title,
                data: value,
                attachments: files,
                metadata,
                expect_ack,
            } && title == name && value == data && files == attachments && names_client(metadata)
                && expect_ack && event_id == client::next_id(client.last_event_id)
        }),
{
}

/// The error for a failure that came without one.
pub open spec fn is_unexplained(error: ErrorInfo) -> bool {
    &&& error.code == "remote_error"@
    &&& error.message == "missing remote error"@
    &&& error.status == 500
    &&& error.details is None
}

/// What the one who waits is told of a reply: its value where the reply is a success,
/// and else its error as a remote error.
pub open spec fn tells_reply(
    result: Result<Json, client_types::ClientError>,
    ok: bool,
    value: Tree,
    error: Option<ErrorInfo>,
) -> bool {
    if ok {
        result matches Ok(told) && told@ == value
    } else {
        result matches Err(failure) && (failure@ matches ClientFailure::Remote(told) && match error {
            Some(reason) => told == reason,
            None => is_unexplained(told),
        })
    }
}

/// A response completes the call that waits under its id, and an acknowledgement the
/// event: with the reply's value or error. A reply that nothing waits for, and a
/// request, are dropped.
pub proof fn lemma_reply_completes_what_waits(client: Client, body: Body, step: ClientStep)
    requires
        client.packet_step(body, step),
    ensures
        body matches Body::ApiResponse { request_id: id, ok, data, error, .. } ==> {
            &&& client.pending_api.contains(id) ==> (step matches ClientStep::CompleteCall {
                request_id,
                result,
            } && request_id == id && tells_reply(result, ok, data, error))
            &&& !client.pending_api.contains(id) ==> step is Ignore
        },
        body matches Body::EventAck { event_id: id, ok, receipt, error } ==> {
            &&& client.pending_event.contains(id) ==> (step matches ClientStep::CompleteEvent {
                event_id,
                result,
            } && event_id == id && tells_reply(result, ok, receipt, error))
            &&& !client.pending_event.contains(id) ==> step is Ignore
        },
        body is ApiRequest ==> step is Ignore,
{
}

/// A reply ends the waiting for itself alone: no other call or event is touched, and
/// nothing else of the client changes. An event that comes in changes nothing.
pub proof fn lemma_reply_touches_nothing_else(client: Client, body: Body, other: u64)
    ensures
        ({
            let after = client.after_packet(body);
            &&& after.pending_api.contains(other) <==> client.pending_api.contains(other) && !(
            body matches Body::ApiResponse { request_id, .. } && request_id == other)
            &&& after.pending_event.contains(other) <==> client.pending_event.contains(other) && !(
            body matches Body::EventAck { event_id, .. } && event_id == other)
            &&& same_but_pending(after, client)
        }),
{
}

/// Two clients differ at most in what they wait for.
pub open spec fn same_but_pending(a: Client, b: Client) -> bool {
    &&& a.urls == b.urls
    &&& a.current == b.current
    &&& a.codec == b.codec
    &&& a.default_encryption == b.default_encryption
    &&& a.auto_reconnect == b.auto_reconnect
    &&& a.use_ecdh == b.use_ecdh
    &&& a.credential == b.credential
    &&& a.connected == b.connected
    &&& a.shutdown == b.shutdown
    &&& a.generation == b.generation
    &&& a.last_request_id == b.last_request_id
    &&& a.last_event_id == b.last_event_id
    &&& a.event_handlers == b.event_handlers
}

/// The places of the handlers for a name: exactly those that the name was registered
/// at, each once, in ascending order.
pub proof fn lemma_handlers_for_are_all(names: Seq<Seq<char>>, name: Seq<char>)
    ensures
        forall|place: nat|
            #[trigger] client::handlers_for(names, name).contains(place) <==> place < names.len()
                && names[place as int] == name,
        forall|i: int, j: int|
            0 <= i < j < client::handlers_for(names, name).len() ==> client::handlers_for(
                names,
                name,
            )[i] < client::handlers_for(names, name)[j],
    decreases names.len(),
{
    if names.len() > 0 {
        let rest = names.drop_last();
        let before = client::handlers_for(rest, name);
        let all = client::handlers_for(names, name);
        let last = (names.len() - 1) as nat;
        lemma_handlers_for_are_all(rest, name);
        assert forall|place: nat| #[trigger] all.contains(place) <==> place < names.len() && names[place as int]
            == name by {
            assert(before.contains(place) <==> place < rest.len() && rest[place as int] == name);
            if names.last() == name {
                assert(all == before.push(last));
                if all.contains(place) {
                    let i = choose|i: int| 0 <= i < all.len() && all[i] == place;
                    if i < before.len() {
                        assert(before[i] == place);
                        assert(before.contains(place));
                    }
                }
                if before.contains(place) {
                    let i = choose|i: int| 0 <= i < before.len() && before[i] == place;
                    assert(all[i] == place);
                }
                assert(all[before.len() as int] == last);
            }
        }
        assert forall|i: int, j: int| 0 <= i < j < all.len() implies all[i] < all[j] by {
            if names.last() == name {
                assert(all == before.push(last));
                if j == before.len() {
                    assert(before.contains(before[i]));
                    assert(before[i] < rest.len());
                }
            }
        }
    }
}

/// An event that comes in is handed on as it came, to exactly the handlers that were
/// registered for its name, in the order of their registration.
pub proof fn lemma_event_runs_its_handlers(client: Client, body: Body, step: ClientStep)
    requires
        client.packet_step(body, step),
    ensures
        body matches Body::EventEmit { event_id, name, data, attachments, metadata, expect_ack }
            ==> (step matches ClientStep::RunHandlers { event, places, expect_ack: wanted } && {
            &&& event@.event_id == event_id
            &&& event@.name == name
            &&& event@.data == data
            &&& event@.attachments == attachments
            &&& event@.metadata == metadata
            &&& wanted == expect_ack
            &&& forall|i: int|
                0 <= i < places@.len() ==> (#[trigger] places@[i]) < client.event_handlers.len()
                    && client.event_handlers[places@[i] as int] == name
            &&& forall|place: nat|
                place < client.event_handlers.len() && #[trigger] client.event_handlers[place as int]
                    == name ==> exists|i: int|
                    0 <= i < places@.len() && #[trigger] places@[i] == place
            &&& forall|i: int, j: int| 0 <= i < j < places@.len() ==> places@[i] < places@[j]
        }),
{
    if let Body::EventEmit { name, .. } = body {
        let places = step->places;
        let all = client::handlers_for(client.event_handlers, name);
        lemma_handlers_for_are_all(client.event_handlers, name);
        let seen = client::place_views(places@);
        assert(seen == all);
        assert forall|i: int| 0 <= i < places@.len() implies (#[trigger] places@[i])
            < client.event_handlers.len() && client.event_handlers[places@[i] as int] == name by {
            assert(seen[i] == places@[i] as nat);
            assert(all.contains(all[i]));
        }
        assert forall|place: nat|
            place < client.event_handlers.len() && #[trigger] client.event_handlers[place as int]
                == name implies exists|i: int|
            0 <= i < places@.len() && #[trigger] places@[i] == place by {
            assert(all.contains(place));
            let i = choose|i: int| 0 <= i < all.len() && all[i] == place;
            assert(seen[i] == places@[i] as nat);
        }
        assert forall|i: int, j: int| 0 <= i < j < places@.len() implies places@[i] < places@[j] by {
            assert(seen[i] == places@[i] as nat);
            assert(seen[j] == places@[j] as nat);
            assert(all[i] < all[j]);
        }
    }
}

/// The receipt of a pushed event is that of its last handler; without a handler it says
/// that the event was not handled.
pub proof fn lemma_last_receipt_counts(receipts: Seq<Json>, last: Json)
    ensures
        client::last_receipt(receipts.push(last)) == last@,
        client::last_receipt(Seq::empty()) matches Tree::Object(members) && members.len() == 1
            && members[0] == ("handled"@, Tree::Bool(false)),
{
}

/// The delay is that many seconds.
pub open spec fn waits(step: SupervisorStep, secs: nat) -> bool {
    step matches SupervisorStep::Sleep(delay) && time::nanos(delay) == secs * 1_000_000_000
}

/// The delays before the reconnect attempts: 3, 6, 12, 24 and then always 30 s.
pub proof fn lemma_backoff_in_seconds(attempt: u32)
    ensures
        client::backoff_secs(attempt) == if attempt <= 1 {
            3
        } else if attempt == 2 {
            6
        } else if attempt == 3 {
            12
        } else if attempt == 4 {
            24
        } else {
            30nat
        },
{
    reveal_with_fuel(client::doubled, 7);
}

/// What the supervisor does. On a wake-up it connects under the next number, unless the
/// client is closed. Once connected it counts its attempts anew and reports the first
/// success. A first connection that fails is given up with the error. Whatever is lost
/// or fails later is tried again after the delay of the next attempt, where the client
/// is open and reconnects; otherwise the supervisor ends.
pub proof fn lemma_supervisor_steps(
    client: Client,
    supervisor: Supervisor,
    event: SupervisorEvent,
    next: Client,
    after: Supervisor,
    step: SupervisorStep,
)
    requires
        client.supervise(supervisor, event, next, after, step),
    ensures
        match event {
            SupervisorEvent::Wake => {
                &&& after == supervisor
                &&& client.shutdown ==> step is Exit && next == client
                &&& !client.shutdown ==> {
                    &&& step matches SupervisorStep::Connect(number) && number == next.generation
                    &&& next.generation != client.generation
                    &&& client.generation < u64::MAX ==> next.generation == client.generation + 1
                    &&& next == (Client { generation: next.generation, ..client })
                }
            },
            SupervisorEvent::Connected => {
                &&& next == client
                &&& after.reported
                &&& after.attempts == 0
                &&& step matches SupervisorStep::Watch { report } && report == !supervisor.reported
            },
            SupervisorEvent::Failed(e) => {
                &&& next == client
                &&& !supervisor.reported ==> (step matches SupervisorStep::GiveUp(error) && error@
                    == e@ && after.reported && after.attempts == supervisor.attempts)
                &&& supervisor.reported ==> retries(client, supervisor, after, step)
            },
            SupervisorEvent::Lost => next == client && retries(client, supervisor, after, step),
        },
{
}

/// The supervisor waits for its next attempt, or ends.
pub open spec fn retries(
    client: Client,
    supervisor: Supervisor,
    after: Supervisor,
    step: SupervisorStep,
) -> bool {
    &&& after.reported == supervisor.reported
    &&& client.shutdown || !client.auto_reconnect ==> step is Exit && after.attempts
        == supervisor.attempts
    &&& !client.shutdown && client.auto_reconnect ==> {
        &&& supervisor.attempts < u32::MAX ==> after.attempts == supervisor.attempts + 1
        &&& supervisor.attempts == u32::MAX ==> after.attempts == u32::MAX
        &&& waits(step, client::backoff_secs(after.attempts))
    }
}

/// What the loss of the current connection tells: the URL that was connected, the
/// reason, whether the client reconnects and that it does so after 3 s. Exactly the calls
/// and events that wait for a reply are told, each once; then nothing waits, the client
/// is not connected, and nothing else has changed.
pub proof fn lemma_loss_tells_what_waits(
    client: Client,
    generation: u64,
    error: ClientFailure,
    after: Client,
    r: Option<Disconnect>,
)
    requires
        client.lose(generation, error, after, r),
    ensures
        generation == client.generation && client.connected <==> r is Some,
        r is None ==> after == client,
        r matches Some(told) ==> {
            &&& client.current < client.urls.len() ==> told.event.url@
                == client.urls[client.current as int]
            &&& told.event.reason@ == error.reason()
            &&& told.event.will_reconnect <==> client.auto_reconnect && !client.shutdown
            &&& told.event.retry_after is Some <==> client.auto_reconnect && !client.shutdown
            &&& told.event.retry_after matches Some(delay) ==> time::nanos(delay) == 3_000_000_000
            &&& forall|id: u64| told.calls@.contains(id) <==> client.pending_api.contains(id)
            &&& forall|id: u64| told.events@.contains(id) <==> client.pending_event.contains(id)
            &&& told.calls@.no_duplicates()
            &&& told.events@.no_duplicates()
            &&& !after.connected
            &&& forall|id: u64| !after.pending_api.contains(id)
            &&& forall|id: u64| !after.pending_event.contains(id)
            &&& same_but_pending(Client { connected: true, ..after }, client)
        },
{
    if let Some(told) = r {
        assert forall|id: u64| told.calls@.contains(id) <==> client.pending_api.contains(id) by {
            assert(told.calls@.to_set().contains(id) <==> told.calls@.contains(id));
        }
        assert forall|id: u64| told.events@.contains(id) <==> client.pending_event.contains(id) by {
            assert(told.events@.to_set().contains(id) <==> told.events@.contains(id));
        }
    }
}

/// The reason that is given for a disconnect.
pub proof fn lemma_disconnect_reasons(error: ClientFailure)
    ensures
        error matches ClientFailure::ConnectionClosed(reason) ==> error.reason() == reason,
        error is IdleTimeout ==> error.reason() == "idle timeout"@,
        error is Disconnected ==> error.reason() == "disconnected"@,
        error matches ClientFailure::WebSocket(source) ==> error.reason() == "websocket error: "@
            + source,
        error matches ClientFailure::Protocol(e) ==> error.reason() == "protocol error: "@
            + e.text(),
{
}

/// The connection ends because it was closed, for this reason.
pub open spec fn is_closed(failure: ClientFailure, reason: Seq<char>) -> bool {
    failure matches ClientFailure::ConnectionClosed(told) && told == reason
}

/// What the client's reader does: a frame that is decoded is handled as it was decoded,
/// one that is not is dropped with the codec's error; a ping is answered with its own
/// payload; the end of the connection and its reason are told.
pub proof fn lemma_client_reads(codec: Codec, message: ClientIncoming, step: ClientReaderStep)
    requires
        client::client_read_step(codec, message, step),
    ensures
        match message {
            ClientIncoming::Binary(bytes) => match codec.decode(buffer::contents(bytes)) {
                Ok(packet) => step matches ClientReaderStep::Handle(got) && got@ == packet,
                Err(e) => step matches ClientReaderStep::Drop(error) && error@ == e,
            },
            ClientIncoming::Ping(sent) => step matches ClientReaderStep::Pong(reply) && reply@
                == sent@,
            ClientIncoming::Text | ClientIncoming::Pong | ClientIncoming::Frame => step is Ignore,
            ClientIncoming::Close => step matches ClientReaderStep::Stop(e) && is_closed(
                e@,
                "server closed connection"@,
            ),
            ClientIncoming::End => step matches ClientReaderStep::Stop(e) && is_closed(
                e@,
                "reader loop stopped"@,
            ),
            ClientIncoming::TimedOut => step matches ClientReaderStep::Stop(e) && e@ is IdleTimeout,
            ClientIncoming::Failed(reason) => step matches ClientReaderStep::Stop(e) && is_closed(
                e@,
                reason@,
            ),
        },
{
}

/// What the client does while its credential is judged: an answer that accepts makes the
/// connection live, one that refuses fails it with the server's error. Frames of a live
/// connection, and credentials, are passed over.
pub proof fn lemma_client_awaits_verdict(
    codec: Codec,
    message: ClientIncoming,
    step: ClientAuthStep,
)
    requires
        client::client_auth_step(codec, message, step),
    ensures
        match message {
            ClientIncoming::Binary(bytes) => match codec.decode_auth(buffer::contents(bytes)) {
                Ok(packet) => match packet.message {
                    AuthInfo::AuthRequest { .. } => step is Ignore,
                    AuthInfo::AuthResponse { ok, error } => if ok {
                        step is Accepted
                    } else {
                        step matches ClientAuthStep::Failed(e) && (e@ matches
                            ClientFailure::AuthFailed(told) && match error {
                            Some(reason) => told == reason,
                            None => is_unexplained(told),
                        })
                    },
                },
                Err(error) => if error is MessageTypeMismatch {
                    step is Ignore
                } else {
                    step matches ClientAuthStep::Failed(e) && (e@ matches ClientFailure::Protocol(
                        told,
                    ) && told == error)
                },
            },
            ClientIncoming::Ping(sent) => step matches ClientAuthStep::Pong(reply) && reply@
                == sent@,
            ClientIncoming::Text | ClientIncoming::Pong | ClientIncoming::Frame => step is Ignore,
            ClientIncoming::Close => step matches ClientAuthStep::Failed(e) && is_closed(
                e@,
                "server closed connection"@,
            ),
            ClientIncoming::End => step matches ClientAuthStep::Failed(e) && is_closed(
                e@,
                "reader loop stopped"@,
            ),
            ClientIncoming::TimedOut => step matches ClientAuthStep::Failed(e) && e@ is Timeout,
            ClientIncoming::Failed(reason) => step matches ClientAuthStep::Failed(e) && is_closed(
                e@,
                reason@,
            ),
        },
{
}

/// A new client has the primary URL in front of the failover URLs, is set up as its
/// configuration says, is not connected and has sent nothing.
pub proof fn lemma_new_client(client: Client, url: Seq<char>, setup: ClientSetup)
    requires
        client.starts_as(url, setup),
    ensures
        client.urls.len() == setup.failover_urls.len() + 1,
        client.urls[0] == url,
        forall|i: int|
            0 <= i < setup.failover_urls.len() ==> client.urls[i + 1]
                == #[trigger] setup.failover_urls[i],
        client.current == 0,
        client.current_url() == url,
        client.codec == setup.codec,
        client.default_encryption == setup.default_encryption,
        client.auto_reconnect == setup.auto_reconnect,
        client.use_ecdh == setup.use_ecdh,
        client.credential == setup.credential,
        !client.connected,
        !client.shutdown,
        client.generation == 0,
        client.last_request_id == 0,
        client.last_event_id == 0,
        client.pending_api == Set::<u64>::empty(),
        client.pending_event == Set::<u64>::empty(),
        client.event_handlers.len() == 0,
{
}

/// Without a URL at its current place a client goes by its primary URL.
pub proof fn lemma_primary_url_stands_in(client: Client)
    requires
        client.current >= client.urls.len(),
    ensures
        client.current_url() == client.urls[0],
{
}

/// The URL of a client is the one at its current place.
pub proof fn lemma_current_url(client: Client)
    requires
        client.current < client.urls.len(),
    ensures
        client.current_url() == client.urls[client.current as int],
        client.candidate(0) == client.current,
        client.current + 1 < client.urls.len() ==> client.candidate(1) == client.current + 1,
        client.current + 1 == client.urls.len() ==> client.candidate(1) == 0,
{
    client::lemma_round_tries_every_url_once(client);
    let count = client.urls.len();
    if client.current + 1 < count {
        vstd::arithmetic::div_mod::lemma_small_mod(client.current + 1, count);
    } else {
        vstd::arithmetic::div_mod::lemma_mod_self_0(count as int);
    }
}

/// The default configuration negotiates a key for each connection, encrypts with
/// ChaCha20-Poly1305 and reconnects.
pub proof fn lemma_client_setups(codec: Codec, mode: EncryptionKind, use_ecdh: bool)
    ensures
        ({
            let setup = client_types::ecdh_setup();
            &&& setup.use_ecdh
            &&& setup.default_encryption is ChaCha20
            &&& setup.codec.chacha20_key is None
            &&& setup.codec.aes256_key is None
            &&& setup.codec.max_frame_bytes == 104857600
            &&& setup.auto_reconnect
            &&& setup.failover_urls.len() == 0
            &&& setup.credential is None
        }),
        ({
            let setup = client_types::basic_setup(codec, mode, use_ecdh);
            &&& setup.codec == codec
            &&& setup.default_encryption == mode
            &&& setup.use_ecdh == use_ecdh
            &&& setup.auto_reconnect
            &&& setup.failover_urls.len() == 0
            &&& setup.credential is None
        }),
{
}

/// The times and sizes of the client.
pub proof fn lemma_client_constants()
    ensures
        client::CLIENT_IDLE_TIMEOUT_SECS == 45,
        client::CLIENT_HEARTBEAT_SECS == 15,
        client::CLIENT_CALL_TIMEOUT_SECS == 10,
        client::CLIENT_OUTBOUND_QUEUE_CAPACITY == 256,
        client::CLIENT_JITTER_BOUND_NANOS == 1_500_000_000,
{
}

/// The jitter is what eight drawn bytes, read with the most significant first, leave
/// modulo 1.5 s; where nothing could be drawn there is none. It stays below 1.5 s.
pub proof fn lemma_jitter_is_drawn(delay: nat)
    requires
        client::is_jitter(delay),
    ensures
        delay < 1_500_000_000,
        (exists|bytes: [u8; 8]| #[trigger]
            crypto::is_drawn(bytes) && delay == (bytes@[0] * 0x100_0000_0000_0000 + bytes@[1]
                * 0x1_0000_0000_0000 + bytes@[2] * 0x100_0000_0000 + bytes@[3] * 0x1_0000_0000
                + bytes@[4] * 0x100_0000 + bytes@[5] * 0x1_0000 + bytes@[6] * 0x100 + bytes@[7])
                % 1_500_000_000) || (delay == 0 && exists|source: Seq<char>| #[trigger]
            crypto::draw_failed::<8>(source)),
{
    if exists|sample: [u8; 8]| #[trigger]
        crypto::is_drawn(sample) && delay == client::sample_value(sample@) % 1500000000 {
        let sample = choose|sample: [u8; 8]| #[trigger]
            crypto::is_drawn(sample) && delay == client::sample_value(sample@) % 1500000000;
        let low = sample@.subrange(4, 8);
        assert(low[0] == sample@[4]);
        assert(low[1] == sample@[5]);
        assert(low[2] == sample@[6]);
        assert(low[3] == sample@[7]);
        assert(crypto::is_drawn(sample));
    }
}

} // verus!
