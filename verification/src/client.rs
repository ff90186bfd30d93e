//! The client's decisions: calls and events and what completes them, the life of a
//! connection, and when to reconnect.
//!
//! The runtime performs the steps (it connects, reads and writes sockets, and awaits
//! handlers) and hands the outcomes back.
use crate::attachment;
use crate::attachment::{Attachment, FileAttachment};
use crate::auth;
use crate::auth::{take_verdict, AuthMessage, AuthPacket};
use crate::buffer;
use crate::buffer::from_vec;
use crate::client_types::{
    ClientConnectionEvent, ClientDisconnectEvent, ClientError, ClientFailure, ClientOutbound,
    ClientSetup, EventMessage, Message, WscallClientConfig,
};
use crate::codec;
use crate::codec::{Codec, FrameCodec};
use crate::crypto;
use crate::crypto::draw;
use crate::ecdh;
use crate::ecdh::{parse_peer_public, EcdhKeypair};
use crate::error::{Failure, ProtocolError};
use crate::json::{Json, JsonMap, Tree};
use crate::packet;
use crate::packet::{
    Body, EncryptionKind, ErrorInfo, ErrorPayload, Packet, PacketBody, PacketEnvelope,
};
use crate::server;
use crate::text;
use crate::text::text_eq;
use crate::time;
use bytes::Bytes;
use dashmap::DashMap;
use std::time::Duration;
use vstd::prelude::*;

verus! {

/// Seconds without an inbound message after which a connection is given up.
pub const CLIENT_IDLE_TIMEOUT_SECS: u64 = 45;

/// Seconds between two heartbeat pings.
pub const CLIENT_HEARTBEAT_SECS: u64 = 15;

/// Seconds that a call waits for its response.
pub const CLIENT_CALL_TIMEOUT_SECS: u64 = 10;

/// Messages that wait for the client's writer at most.
pub const CLIENT_OUTBOUND_QUEUE_CAPACITY: usize = 256;

/// Seconds before the first reconnect.
pub const CLIENT_RECONNECT_BASE_DELAY_SECS: u64 = 3;

/// Seconds before a reconnect at most.
pub const CLIENT_RECONNECT_MAX_DELAY_SECS: u64 = 30;

/// Upper bound of the jitter, in nanoseconds: half the base delay.
pub const CLIENT_JITTER_BOUND_NANOS: u64 = 1500000000;

/// The correlation ids that a map of in-flight calls holds.
pub uninterp spec fn pending_in(map: DashMap<u64, ()>) -> Set<u64>;

/// No id at all.
pub open spec fn no_ids() -> Set<u64> {
    Set::empty()
}

/// `DashMap::new`: a map without entries.
#[verifier::external_body]
fn new_pending() -> (map: DashMap<u64, ()>)
    ensures
        pending_in(map) == no_ids(),
{
    DashMap::new()
}

/// `DashMap::insert`: adds a key. The exclusive borrow rules out other handles on
/// the map.
#[verifier::external_body]
fn add_pending(map: &mut DashMap<u64, ()>, id: u64)
    ensures
        pending_in(*final(map)) == pending_in(*old(map)).insert(id),
{
    map.insert(id, ());
}

/// `DashMap::remove`: takes the entry at a key out and tells whether there was one.
#[verifier::external_body]
fn remove_pending(map: &mut DashMap<u64, ()>, id: u64) -> (found: bool)
    ensures
        found == pending_in(*old(map)).contains(id),
        pending_in(*final(map)) == pending_in(*old(map)).remove(id),
{
    map.remove(&id).is_some()
}

/// `DashMap::iter`: every key once, in no particular order.
#[verifier::external_body]
fn pending_ids(map: &DashMap<u64, ()>) -> (ids: Vec<u64>)
    ensures
        ids@.no_duplicates(),
        ids@.to_set() == pending_in(*map),
{
    map.iter().map(|entry| *entry.key()).collect()
}

/// The id after `last`: ids count up from 1.
pub open spec fn next_id(last: u64) -> u64 {
    if last == u64::MAX {
        0
    } else {
        (last + 1) as u64
    }
}

/// The metadata of everything that the client sends.
pub open spec fn client_metadata() -> Tree {
    Tree::Object(seq![("client_name"@, Tree::Text("rust-demo"@))])
}

/// The error for a failure that the server does not explain.
pub open spec fn unexplained() -> ErrorInfo {
    ErrorInfo {
        code: "remote_error"@,
        message: "missing remote error"@,
        status: 500,
        details: None,
    }
}

/// What a reply tells the one who waits for it: the value, or the remote error.
pub open spec fn reply_result(ok: bool, value: Tree, error: Option<ErrorInfo>) -> Result<
    Tree,
    ClientFailure,
> {
    if ok {
        Ok(value)
    } else {
        match error {
            Some(e) => Err(ClientFailure::Remote(e)),
            None => Err(ClientFailure::Remote(unexplained())),
        }
    }
}

/// The result says what was expected.
pub open spec fn says(
    result: Result<Json, ClientError>,
    expected: Result<Tree, ClientFailure>,
) -> bool {
    match result {
        Ok(value) => expected == Ok::<Tree, ClientFailure>(value@),
        Err(e) => expected == Err::<Tree, ClientFailure>(e@),
    }
}

fn reply_of(ok: bool, value: Json, error: Option<ErrorPayload>) -> (result: Result<
    Json,
    ClientError,
>)
    ensures
        says(result, reply_result(ok, value@, packet::error_view(error))),
{
    if ok {
        return Ok(value);
    }
    match error {
        Some(e) => Err(ClientError::Remote(e)),
        None => Err(ClientError::Remote(unexplained_payload())),
    }
}

/// The error for a failure that the server does not explain.
pub(crate) fn unexplained_payload() -> (payload: ErrorPayload)
    ensures
        payload@ == unexplained(),
{
    ErrorPayload {
        code: "remote_error".to_owned(),
        message: "missing remote error".to_owned(),
        status: 500,
        details: None,
    }
}

/// The state of a client.
///
/// Event handlers are known by their place: the one that was registered first has
/// the place 0.
pub struct WscallClient {
    url: String,
    failover_urls: Vec<String>,
    current: usize,
    codec: FrameCodec,
    default_encryption: EncryptionKind,
    auto_reconnect: bool,
    use_ecdh: bool,
    credential: Option<String>,
    connected: bool,
    shutdown: bool,
    generation: u64,
    last_request_id: u64,
    last_event_id: u64,
    pending_api: DashMap<u64, ()>,
    pending_event: DashMap<u64, ()>,
    event_handlers: Vec<String>,
}

/// What a [`WscallClient`] holds.
pub struct Client {
    /// The primary URL and the failover URLs.
    pub urls: Seq<Seq<char>>,
    /// The place of the URL that was connected last.
    pub current: nat,
    pub codec: Codec,
    pub default_encryption: EncryptionKind,
    pub auto_reconnect: bool,
    pub use_ecdh: bool,
    /// The credential that is submitted before a connection goes live.
    pub credential: Option<Seq<char>>,
    pub connected: bool,
    pub shutdown: bool,
    /// The number of the connection attempt.
    pub generation: u64,
    pub last_request_id: u64,
    pub last_event_id: u64,
    /// The calls that wait for a response.
    pub pending_api: Set<u64>,
    /// The events that wait for an acknowledgement.
    pub pending_event: Set<u64>,
    /// The event that each handler is for.
    pub event_handlers: Seq<Seq<char>>,
}

impl View for WscallClient {
    type V = Client;

    closed spec fn view(&self) -> Client {
        Client {
            urls: seq![self.url@] + text::views(self.failover_urls@),
            current: self.current as nat,
            codec: self.codec@,
            default_encryption: self.default_encryption,
            auto_reconnect: self.auto_reconnect,
            use_ecdh: self.use_ecdh,
            credential: match self.credential {
                Some(credential) => Some(credential@),
                None => None,
            },
            connected: self.connected,
            shutdown: self.shutdown,
            generation: self.generation,
            last_request_id: self.last_request_id,
            last_event_id: self.last_event_id,
            pending_api: pending_in(self.pending_api),
            pending_event: pending_in(self.pending_event),
            event_handlers: text::views(self.event_handlers@),
        }
    }
}

impl Client {
    /// The packet of a call.
    pub open spec fn call_packet(
        self,
        route: Seq<char>,
        params: Tree,
        attachments: Seq<Attachment>,
    ) -> Packet {
        let body = Body::ApiRequest {
            request_id: next_id(self.last_request_id),
            route,
            params,
            attachments,
            metadata: client_metadata(),
        };
        Packet {
            message_type: body.message_type(),
            encryption: self.default_encryption,
            body,
        }
    }

    /// The packet of an event.
    pub open spec fn event_packet(
        self,
        name: Seq<char>,
        data: Seq<(Seq<char>, Tree)>,
        attachments: Seq<Attachment>,
    ) -> Packet {
        let body = Body::EventEmit {
            event_id: next_id(self.last_event_id),
            name,
            data,
            attachments,
            metadata: client_metadata(),
            expect_ack: true,
        };
        Packet {
            message_type: body.message_type(),
            encryption: self.default_encryption,
            body,
        }
    }

    /// The client will reconnect after a disconnect.
    pub open spec fn will_reconnect(self) -> bool {
        !self.shutdown && self.auto_reconnect
    }

    /// A round of connection attempts comes to the URL at this place.
    pub open spec fn tries(self, place: nat) -> bool {
        exists|tried: nat| tried < self.urls.len() && #[trigger] self.candidate(tried) == place
    }

    /// The place of the URL that is tried after `tried` others: the places go round
    /// from the one that was connected last.
    pub open spec fn candidate(self, tried: nat) -> nat
        recommends
            self.urls.len() > 0,
    {
        (self.current + tried) % self.urls.len()
    }
}

/// The places of the handlers for an event, in order.
pub open spec fn handlers_for(names: Seq<Seq<char>>, name: Seq<char>) -> Seq<nat>
    decreases names.len(),
{
    if names.len() == 0 {
        Seq::empty()
    } else if names.last() == name {
        handlers_for(names.drop_last(), name).push((names.len() - 1) as nat)
    } else {
        handlers_for(names.drop_last(), name)
    }
}

/// What an inbound packet leads to.
pub enum ClientStep {
    /// Completes the call with this id.
    CompleteCall { request_id: u64, result: Result<Json, ClientError> },
    /// Completes the event with this id.
    CompleteEvent { event_id: u64, result: Result<Json, ClientError> },
    /// Runs the handlers at these places; then the event may be acknowledged.
    RunHandlers { event: EventMessage, places: Vec<usize>, expect_ack: bool },
    Ignore,
}

/// The places as numbers.
pub open spec fn place_views(places: Seq<usize>) -> Seq<nat> {
    Seq::new(places.len(), |i: int| places[i] as nat)
}

impl Client {
    /// The client after a packet.
    pub open spec fn after_packet(self, body: Body) -> Client {
        match body {
            Body::ApiResponse { request_id, .. } => Client {
                pending_api: self.pending_api.remove(request_id),
                ..self
            },
            Body::EventAck { event_id, .. } => Client {
                pending_event: self.pending_event.remove(event_id),
                ..self
            },
            _ => self,
        }
    }

    /// What a packet leads to: a reply completes what waits for it, and an event is
    /// handed to its handlers. A reply that nothing waits for is dropped.
    pub open spec fn packet_step(self, body: Body, step: ClientStep) -> bool {
        match body {
            Body::ApiResponse { request_id, ok, data, error, .. } => {
                if self.pending_api.contains(request_id) {
                    step matches ClientStep::CompleteCall { request_id: id, result } && id
                        == request_id && says(result, reply_result(ok, data, error))
                } else {
                    step is Ignore
                }
            },
            Body::EventAck { event_id, ok, receipt, error } => {
                if self.pending_event.contains(event_id) {
                    step matches ClientStep::CompleteEvent { event_id: id, result } && id
                        == event_id && says(result, reply_result(ok, receipt, error))
                } else {
                    step is Ignore
                }
            },
            Body::EventEmit { event_id, name, data, attachments, metadata, expect_ack } => {
                step matches ClientStep::RunHandlers { event, places, expect_ack: ack } && event@
                    == (Message { event_id, name, data, attachments, metadata })
                    && place_views(places@) == handlers_for(self.event_handlers, name) && ack
                    == expect_ack
            },
            Body::ApiRequest { .. } => step is Ignore,
        }
    }
}

fn metadata_json() -> (r: Json)
    ensures
        r@ == client_metadata(),
{
    let mut map = JsonMap::new();
    map.insert("client_name".to_owned(), Json::text("rust-demo"));
    proof {
        assert(map@ =~= seq![("client_name"@, Tree::Text("rust-demo"@))]);
    }
    Json::Object(map)
}

/// Doublings of the base delay.
pub open spec fn doubled(times: nat) -> nat
    decreases times,
{
    if times == 0 {
        CLIENT_RECONNECT_BASE_DELAY_SECS as nat
    } else {
        2 * doubled((times - 1) as nat)
    }
}

/// Seconds before a reconnect attempt: 3 s before the first, doubled for each later
/// one, and at most 30 s.
pub open spec fn backoff_secs(attempt: u32) -> nat {
    let times: nat = if attempt <= 1 {
        0
    } else if attempt > 7 {
        6
    } else {
        (attempt - 1) as nat
    };
    if doubled(times) > CLIENT_RECONNECT_MAX_DELAY_SECS {
        CLIENT_RECONNECT_MAX_DELAY_SECS as nat
    } else {
        doubled(times)
    }
}

/// Delay before a reconnect attempt, without jitter.
pub fn reconnect_delay(attempt: u32) -> (delay: Duration)
    ensures
        time::nanos(delay) == backoff_secs(attempt) * time::NANOS_PER_SEC,
{
    let times: u32 = if attempt <= 1 {
        0
    } else if attempt > 7 {
        6
    } else {
        attempt - 1
    };
    let mut secs: u64 = CLIENT_RECONNECT_BASE_DELAY_SECS;
    let mut i: u32 = 0;
    proof {
        reveal_with_fuel(doubled, 7);
    }
    while i < times
        invariant
            i <= times <= 6,
            secs == doubled(i as nat),
            secs <= 192,
            forall|n: nat| n <= 6 ==> #[trigger] doubled(n) <= 192,
        decreases times - i,
    {
        i += 1;
        assert(doubled(i as nat) == 2 * doubled((i - 1) as nat));
        secs = secs * 2;
    }
    if secs > CLIENT_RECONNECT_MAX_DELAY_SECS {
        secs = CLIENT_RECONNECT_MAX_DELAY_SECS;
    }
    Duration::from_secs(secs)
}

/// Jitter for a random sample: below half the base delay.
pub fn jitter(sample: u64) -> (delay: Duration)
    ensures
        time::nanos(delay) == sample % CLIENT_JITTER_BOUND_NANOS,
{
    Duration::from_nanos(sample % CLIENT_JITTER_BOUND_NANOS)
}

/// The number that eight bytes write, most significant first.
fn sample_of(bytes: [u8; 8]) -> (sample: u64)
    ensures
        sample == sample_value(bytes@),
{
    let high: u64 = bytes[0] as u64 * 16777216 + bytes[1] as u64 * 65536 + bytes[2] as u64 * 256
        + bytes[3] as u64;
    let low: u64 = bytes[4] as u64 * 16777216 + bytes[5] as u64 * 65536 + bytes[6] as u64 * 256
        + bytes[7] as u64;
    high * 4294967296 + low
}

/// The number that eight bytes write, most significant first.
pub open spec fn sample_value(bytes: Seq<u8>) -> nat {
    buffer::be32_value(bytes) * 4294967296 + buffer::be32_value(bytes.subrange(4, 8))
}

/// A delay that was drawn: what a sample from the random source leaves modulo 1.5 s, or
/// none where the source has failed.
pub open spec fn is_jitter(delay: nat) -> bool {
    ||| exists|sample: [u8; 8]| #[trigger]
        crypto::is_drawn(sample) && delay == sample_value(sample@) % 1500000000
    ||| delay == 0 && exists|source: Seq<char>| #[trigger] crypto::draw_failed::<8>(source)
}

/// Random jitter to de-synchronize reconnecting clients: from the secure random
/// source, below half the base delay; none where that source fails.
pub fn reconnect_jitter() -> (delay: Duration)
    ensures
        time::nanos(delay) < CLIENT_JITTER_BOUND_NANOS,
        is_jitter(time::nanos(delay)),
{
    match draw::<8>() {
        Ok(bytes) => jitter(sample_of(bytes)),
        Err(_) => jitter(0),
    }
}

/// What the client's supervisor has done so far.
#[derive(Debug, Clone, Copy, PartialEq, Eq, Structural)]
pub struct Supervisor {
    /// The outcome of the first connection has been reported.
    pub reported: bool,
    /// Reconnect attempts since the last connection.
    pub attempts: u32,
}

/// What the supervisor learns.
pub enum SupervisorEvent {
    /// It starts, or a delay has passed.
    Wake,
    /// The connection is established.
    Connected,
    /// No URL could be connected.
    Failed(ClientError),
    /// The connection is lost.
    Lost,
}

/// What the supervisor does next.
pub enum SupervisorStep {
    /// Tries the URLs, as the connection attempt with this number.
    Connect(u64),
    /// Waits for the connection's end, after it has reported success where nothing
    /// was reported yet.
    Watch { report: bool },
    /// Reports that the first connection has failed, and ends.
    GiveUp(ClientError),
    /// Waits for a delay and jitter.
    Sleep(Duration),
    Exit,
}

impl Client {
    /// The supervisor reconnects, where the client is to.
    pub open spec fn supervise_retry(
        self,
        supervisor: Supervisor,
        after: Supervisor,
        step: SupervisorStep,
    ) -> bool {
        if self.will_reconnect() {
            let attempts = if supervisor.attempts == u32::MAX {
                u32::MAX
            } else {
                (supervisor.attempts + 1) as u32
            };
            &&& after == (Supervisor { attempts, ..supervisor })
            &&& step matches SupervisorStep::Sleep(delay) && time::nanos(delay) == backoff_secs(
                attempts,
            ) * time::NANOS_PER_SEC
        } else {
            after == supervisor && step is Exit
        }
    }

    /// What the supervisor does on an event.
    pub open spec fn supervise(
        self,
        supervisor: Supervisor,
        event: SupervisorEvent,
        client: Client,
        after: Supervisor,
        step: SupervisorStep,
    ) -> bool {
        match event {
            SupervisorEvent::Wake => if self.shutdown {
                client == self && after == supervisor && step is Exit
            } else {
                &&& client == (Client { generation: next_id(self.generation), ..self })
                &&& after == supervisor
                &&& step == SupervisorStep::Connect(next_id(self.generation))
            },
            SupervisorEvent::Connected => {
                &&& client == self
                &&& after == (Supervisor { reported: true, attempts: 0 })
                &&& step == (SupervisorStep::Watch { report: !supervisor.reported })
            },
            SupervisorEvent::Failed(e) => if supervisor.reported {
                client == self && self.supervise_retry(supervisor, after, step)
            } else {
                client == self && after == (Supervisor { reported: true, ..supervisor }) && (
                step matches SupervisorStep::GiveUp(error) && error@ == e@)
            },
            SupervisorEvent::Lost => client == self && self.supervise_retry(
                supervisor,
                after,
                step,
            ),
        }
    }

    /// The client of a configuration, before it connects.
    pub open spec fn starts_as(self, url: Seq<char>, setup: ClientSetup) -> bool {
        &&& self.urls == seq![url] + setup.failover_urls
        &&& self.current == 0
        &&& self.codec == setup.codec
        &&& self.default_encryption == setup.default_encryption
        &&& self.auto_reconnect == setup.auto_reconnect
        &&& self.use_ecdh == setup.use_ecdh
        &&& self.credential == setup.credential
        &&& !self.connected
        &&& !self.shutdown
        &&& self.generation == 0
        &&& self.last_request_id == 0
        &&& self.last_event_id == 0
        &&& self.pending_api == no_ids()
        &&& self.pending_event == no_ids()
        &&& self.event_handlers == Seq::<Seq<char>>::empty()
    }
}

/// What ends a connection, and who is to be told.
pub struct Disconnect {
    /// The event for the handlers of disconnects.
    pub event: ClientDisconnectEvent,
    /// The calls that fail with the event's reason.
    pub calls: Vec<u64>,
    /// The events that fail with the event's reason.
    pub events: Vec<u64>,
}

/// A message of the connection, or what came in place of one.
pub enum ClientIncoming {
    Binary(Bytes),
    Text,
    Ping(Vec<u8>),
    Pong,
    /// A raw frame.
    Frame,
    Close,
    /// The stream has ended.
    End,
    /// Nothing came in time.
    TimedOut,
    /// The socket has failed, with this message.
    Failed(String),
}

/// What the client's reader does next.
pub enum ClientReaderStep {
    /// Handles the packet and reads on.
    Handle(PacketEnvelope),
    /// Drops a frame that cannot be decoded and reads on.
    Drop(ProtocolError),
    /// Queues a pong and reads on.
    Pong(Vec<u8>),
    /// Reads on.
    Ignore,
    /// Ends the connection.
    Stop(ClientError),
}

/// What the client does next while its credential is judged.
pub enum ClientAuthStep {
    /// The connection goes live.
    Accepted,
    /// Queues a pong and reads on.
    Pong(Vec<u8>),
    /// Reads on.
    Ignore,
    /// Gives the connection up.
    Failed(ClientError),
}

/// What the client's writer does next.
pub enum ClientWriterStep {
    SendBinary(Bytes),
    SendPing(Vec<u8>),
    SendPong(Vec<u8>),
    /// Sends a close message and stops with the error.
    SendClose(ClientError),
    /// Drops a packet that cannot be encoded and goes on.
    Drop(ProtocolError),
}

impl WscallClient {
    /// A client that has not connected yet.
    pub fn new(url: &str, config: WscallClientConfig) -> (client: Self)
        ensures
            client@.starts_as(url@, config@),
    {
        let event_handlers: Vec<String> = Vec::new();
        proof {
            assert(text::views(event_handlers@) =~= Seq::empty());
        }
        WscallClient {
            url: url.to_owned(),
            failover_urls: config.failover_urls,
            current: 0,
            codec: config.codec,
            default_encryption: config.default_encryption,
            auto_reconnect: config.auto_reconnect,
            use_ecdh: config.use_ecdh,
            credential: config.credential,
            connected: false,
            shutdown: false,
            generation: 0,
            last_request_id: 0,
            last_event_id: 0,
            pending_api: new_pending(),
            pending_event: new_pending(),
            event_handlers,
        }
    }

    /// Whether the client is connected.
    pub fn is_connected(&self) -> (r: bool)
        ensures
            r == self@.connected,
    {
        self.connected
    }

    /// Whether connections negotiate a key of their own.
    pub fn uses_ecdh(&self) -> (r: bool)
        ensures
            r == self@.use_ecdh,
    {
        self.use_ecdh
    }

    /// Whether the connection attempt with this number is the current one.
    pub fn is_connection_generation_active(&self, generation: u64) -> (r: bool)
        ensures
            r == (generation == self@.generation),
    {
        self.generation == generation
    }

    /// Registers an event handler and tells its place.
    pub fn on_event(&mut self, name: &str) -> (place: usize)
        ensures
            final(self)@ == (Client {
                event_handlers: old(self)@.event_handlers.push(name@),
                ..old(self)@
            }),
            place == old(self)@.event_handlers.len(),
    {
        let place: usize = self.event_handlers.len();
        let ghost before = text::views(self.event_handlers@);
        self.event_handlers.push(name.to_owned());
        proof {
            assert(text::views(self.event_handlers@) =~= before.push(name@));
        }
        place
    }

    /// Starts a call: its id, and the packet to send. Fails where the client is not
    /// connected.
    pub fn call(&mut self, route: &str, params: Json, attachments: Vec<FileAttachment>) -> (r:
        Result<(u64, PacketEnvelope), ClientError>)
        ensures
            match r {
                Ok((request_id, packet)) => {
                    &&& old(self)@.connected
                    &&& request_id == next_id(old(self)@.last_request_id)
                    &&& packet@ == old(self)@.call_packet(
                        route@,
                        params@,
                        attachment::attachment_views(attachments@),
                    )
                    &&& final(self)@ == (Client {
                        last_request_id: request_id,
                        pending_api: old(self)@.pending_api.insert(request_id),
                        ..old(self)@
                    })
                },
                Err(e) => {
                    &&& !old(self)@.connected
                    &&& e@ is Disconnected
                    &&& final(self)@ == old(self)@
                },
            },
    {
        if !self.connected {
            return Err(ClientError::Disconnected);
        }
        let request_id: u64 = self.last_request_id.wrapping_add(1);
        self.last_request_id = request_id;
        add_pending(&mut self.pending_api, request_id);
        let packet = PacketEnvelope::with_encryption(
            PacketBody::ApiRequest {
                request_id,
                route: route.to_owned(),
                params,
                attachments,
                metadata: metadata_json(),
            },
            self.default_encryption,
        );
        Ok((request_id, packet))
    }

    /// Gives a call up: because its packet could not be sent, or because no response
    /// came in time.
    pub fn abandon_call(&mut self, request_id: u64, timed_out: bool) -> (e: ClientError)
        ensures
            e@ == if timed_out {
                ClientFailure::Timeout
            } else {
                ClientFailure::Disconnected
            },
            final(self)@ == (Client {
                pending_api: old(self)@.pending_api.remove(request_id),
                ..old(self)@
            }),
    {
        remove_pending(&mut self.pending_api, request_id);
        if timed_out {
            ClientError::Timeout
        } else {
            ClientError::Disconnected
        }
    }

    /// Starts an event: its id, and the packet to send. Fails where the client is
    /// not connected.
    pub fn send_event(&mut self, name: &str, data: JsonMap, attachments: Vec<FileAttachment>) -> (r:
        Result<(u64, PacketEnvelope), ClientError>)
        ensures
            match r {
                Ok((event_id, packet)) => {
                    &&& old(self)@.connected
                    &&& event_id == next_id(old(self)@.last_event_id)
                    &&& packet@ == old(self)@.event_packet(
                        name@,
                        data@,
                        attachment::attachment_views(attachments@),
                    )
                    &&& final(self)@ == (Client {
                        last_event_id: event_id,
                        pending_event: old(self)@.pending_event.insert(event_id),
                        ..old(self)@
                    })
                },
                Err(e) => {
                    &&& !old(self)@.connected
                    &&& e@ is Disconnected
                    &&& final(self)@ == old(self)@
                },
            },
    {
        if !self.connected {
            return Err(ClientError::Disconnected);
        }
        let event_id: u64 = self.last_event_id.wrapping_add(1);
        self.last_event_id = event_id;
        add_pending(&mut self.pending_event, event_id);
        let packet = PacketEnvelope::with_encryption(
            PacketBody::EventEmit {
                event_id,
                name: name.to_owned(),
                data,
                attachments,
                metadata: metadata_json(),
                expect_ack: true,
            },
            self.default_encryption,
        );
        Ok((event_id, packet))
    }

    /// Gives an event up: because its packet could not be sent, or because no
    /// acknowledgement came in time.
    pub fn abandon_event(&mut self, event_id: u64, timed_out: bool) -> (e: ClientError)
        ensures
            e@ == if timed_out {
                ClientFailure::Timeout
            } else {
                ClientFailure::Disconnected
            },
            final(self)@ == (Client {
                pending_event: old(self)@.pending_event.remove(event_id),
                ..old(self)@
            }),
    {
        remove_pending(&mut self.pending_event, event_id);
        if timed_out {
            ClientError::Timeout
        } else {
            ClientError::Disconnected
        }
    }

    /// The places of the handlers for an event.
    fn places_for(&self, name: &str) -> (places: Vec<usize>)
        ensures
            place_views(places@) == handlers_for(self@.event_handlers, name@),
    {
        let mut places: Vec<usize> = Vec::new();
        let mut i: usize = 0;
        let ghost names = text::views(self.event_handlers@);
        proof {
            assert(place_views(places@) =~= handlers_for(names.take(0), name@));
        }
        while i < self.event_handlers.len()
            invariant
                i <= self.event_handlers@.len(),
                names == text::views(self.event_handlers@),
                place_views(places@) == handlers_for(names.take(i as int), name@),
            decreases self.event_handlers.len() - i,
        {
            let ghost before = place_views(places@);
            if text_eq(self.event_handlers[i].as_str(), name) {
                places.push(i);
                proof {
                    assert(place_views(places@) =~= before.push(i as nat));
                }
            }
            proof {
                let next = names.take(i + 1);
                assert(next.drop_last() =~= names.take(i as int));
                assert(next.last() == self.event_handlers@[i as int]@);
            }
            i += 1;
        }
        proof {
            assert(names.take(i as int) =~= names);
        }
        places
    }

    /// Decides what an inbound packet leads to.
    pub fn handle_packet(&mut self, packet: PacketEnvelope) -> (step: ClientStep)
        ensures
            final(self)@ == old(self)@.after_packet(packet@.body),
            old(self)@.packet_step(packet@.body, step),
    {
        match packet.body {
            PacketBody::ApiResponse { request_id, ok, data, error, .. } => {
                if remove_pending(&mut self.pending_api, request_id) {
                    ClientStep::CompleteCall { request_id, result: reply_of(ok, data, error) }
                } else {
                    ClientStep::Ignore
                }
            },
            PacketBody::EventAck { event_id, ok, receipt, error } => {
                if remove_pending(&mut self.pending_event, event_id) {
                    ClientStep::CompleteEvent { event_id, result: reply_of(ok, receipt, error) }
                } else {
                    ClientStep::Ignore
                }
            },
            PacketBody::EventEmit { event_id, name, data, attachments, metadata, expect_ack } => {
                let places = self.places_for(name.as_str());
                ClientStep::RunHandlers {
                    event: EventMessage { event_id, name, data, attachments, metadata },
                    places,
                    expect_ack,
                }
            },
            PacketBody::ApiRequest { .. } => ClientStep::Ignore,
        }
    }

    /// The acknowledgement of an event whose handlers have returned these receipts:
    /// the last receipt counts.
    pub fn event_ack(&self, event_id: u64, receipts: Vec<Json>) -> (packet: PacketEnvelope)
        ensures
            packet@.encryption == self@.default_encryption,
            packet@.message_type == packet@.body.message_type(),
            packet@.body == (Body::EventAck {
                event_id,
                ok: true,
                receipt: last_receipt(receipts@),
                error: None,
            }),
    {
        let mut receipts = receipts;
        let receipt = match receipts.pop() {
            Some(receipt) => receipt,
            None => {
                let mut map = JsonMap::new();
                map.insert("handled".to_owned(), Json::Bool(false));
                proof {
                    assert(map@ =~= seq![("handled"@, Tree::Bool(false))]);
                }
                Json::Object(map)
            },
        };
        PacketEnvelope::with_encryption(
            PacketBody::EventAck { event_id, ok: true, receipt, error: None },
            self.default_encryption,
        )
    }

    fn supervise_retry(&self, supervisor: Supervisor) -> (next: (Supervisor, SupervisorStep))
        ensures
            self@.supervise_retry(supervisor, next.0, next.1),
    {
        if self.shutdown || !self.auto_reconnect {
            return (supervisor, SupervisorStep::Exit);
        }
        let attempts: u32 = supervisor.attempts.saturating_add(1);
        (
            Supervisor { attempts, ..supervisor },
            SupervisorStep::Sleep(reconnect_delay(attempts)),
        )
    }

    /// Decides what the supervisor does on an event.
    pub fn supervise(&mut self, supervisor: Supervisor, event: SupervisorEvent) -> (next: (
        Supervisor,
        SupervisorStep,
    ))
        ensures
            old(self)@.supervise(supervisor, event, final(self)@, next.0, next.1),
    {
        match event {
            SupervisorEvent::Wake => {
                if self.shutdown {
                    return (supervisor, SupervisorStep::Exit);
                }
                self.generation = self.generation.wrapping_add(1);
                (supervisor, SupervisorStep::Connect(self.generation))
            },
            SupervisorEvent::Connected => (
                Supervisor { reported: true, attempts: 0 },
                SupervisorStep::Watch { report: !supervisor.reported },
            ),
            SupervisorEvent::Failed(e) => {
                if supervisor.reported {
                    self.supervise_retry(supervisor)
                } else {
                    (Supervisor { reported: true, ..supervisor }, SupervisorStep::GiveUp(e))
                }
            },
            SupervisorEvent::Lost => self.supervise_retry(supervisor),
        }
    }

    /// The place and the URL to try after `tried` others have failed in this round;
    /// `None` once every URL has been tried.
    pub fn candidate(&self, tried: usize) -> (r: Option<(usize, String)>)
        ensures
            match r {
                Some((place, url)) => {
                    &&& tried < self@.urls.len()
                    &&& place == self@.candidate(tried as nat)
                    &&& url@ == self@.urls[place as int]
                },
                None => tried >= self@.urls.len(),
            },
    {
        let others: u128 = self.failover_urls.len() as u128;
        let count: u128 = others + 1;
        if tried as u128 >= count {
            return None;
        }
        let place: u128 = (self.current as u128 + tried as u128) % count;
        if place == 0 {
            Some((0, self.url.clone()))
        } else {
            let index: usize = (place - 1) as usize;
            proof {
                assert(self@.urls[place as int] == self.failover_urls@[index as int]@);
            }
            Some((index + 1, self.failover_urls[index].clone()))
        }
    }

    /// Takes note of the connection to the URL at `place`.
    pub fn connection_established(&mut self, place: usize) -> (event: ClientConnectionEvent)
        requires
            place < old(self)@.urls.len(),
        ensures
            event.url@ == old(self)@.urls[place as int],
            final(self)@ == (Client { current: place as nat, connected: true, ..old(self)@ }),
    {
        self.current = place;
        self.connected = true;
        ClientConnectionEvent { url: self.current_url() }
    }

    /// The event for a handler that is registered while the client is connected.
    pub fn connection_event(&self) -> (r: Option<ClientConnectionEvent>)
        ensures
            match r {
                Some(event) => self@.connected && event.url@ == self@.current_url(),
                None => !self@.connected,
            },
    {
        if self.connected {
            Some(ClientConnectionEvent { url: self.current_url() })
        } else {
            None
        }
    }

    fn current_url(&self) -> (url: String)
        ensures
            url@ == self@.current_url(),
    {
        if self.current > 0 && self.current - 1 < self.failover_urls.len() {
            proof {
                assert(self@.urls[self.current as int] == self.failover_urls@[self.current - 1]@);
            }
            self.failover_urls[self.current - 1].clone()
        } else {
            self.url.clone()
        }
    }
}

impl Client {
    /// The URL that was connected last.
    pub open spec fn current_url(self) -> Seq<char> {
        if self.current < self.urls.len() {
            self.urls[self.current as int]
        } else {
            self.urls[0]
        }
    }

    /// The client after the loss of its connection.
    pub open spec fn after_disconnect(self) -> Client {
        Client { connected: false, pending_api: no_ids(), pending_event: no_ids(), ..self }
    }

    /// The event for the handlers of disconnects.
    pub open spec fn disconnect_event(
        self,
        error: ClientFailure,
        event: ClientDisconnectEvent,
    ) -> bool {
        &&& event.url@ == self.current_url()
        &&& event.reason@ == error.reason()
        &&& event.will_reconnect == self.will_reconnect()
        &&& match event.retry_after {
            Some(delay) => self.will_reconnect() && time::nanos(delay)
                == CLIENT_RECONNECT_BASE_DELAY_SECS * time::NANOS_PER_SEC,
            None => !self.will_reconnect(),
        }
    }

    /// The loss of the connection with this number is taken note of once, and only
    /// while that connection is the current one. Then everything that waits for a
    /// reply is told.
    pub open spec fn lose(
        self,
        generation: u64,
        error: ClientFailure,
        client: Client,
        r: Option<Disconnect>,
    ) -> bool {
        if generation != self.generation || !self.connected {
            client == self && r is None
        } else {
            &&& client == self.after_disconnect()
            &&& r matches Some(disconnect) && {
                &&& self.disconnect_event(error, disconnect.event)
                &&& disconnect.calls@.no_duplicates()
                &&& disconnect.calls@.to_set() == self.pending_api
                &&& disconnect.events@.no_duplicates()
                &&& disconnect.events@.to_set() == self.pending_event
            }
        }
    }
}

/// What the client's reader does with a message.
pub open spec fn client_read_step(
    codec: Codec,
    message: ClientIncoming,
    step: ClientReaderStep,
) -> bool {
    match message {
        ClientIncoming::Binary(bytes) => match codec.decode(buffer::contents(bytes)) {
            Ok(packet) => step matches ClientReaderStep::Handle(received) && received@ == packet,
            Err(e) => step matches ClientReaderStep::Drop(error) && error@ == e,
        },
        ClientIncoming::Ping(payload) => step matches ClientReaderStep::Pong(reply) && reply@
            == payload@,
        ClientIncoming::Text | ClientIncoming::Pong | ClientIncoming::Frame => step is Ignore,
        ClientIncoming::Close => step matches ClientReaderStep::Stop(e) && e@
            == ClientFailure::ConnectionClosed("server closed connection"@),
        ClientIncoming::End => step matches ClientReaderStep::Stop(e) && e@
            == ClientFailure::ConnectionClosed("reader loop stopped"@),
        ClientIncoming::TimedOut => step matches ClientReaderStep::Stop(e) && e@ is IdleTimeout,
        ClientIncoming::Failed(source) => step matches ClientReaderStep::Stop(e) && e@
            == ClientFailure::ConnectionClosed(source@),
    }
}

/// What is done with a message while the submitted credential is judged.
pub open spec fn client_auth_step(
    codec: Codec,
    message: ClientIncoming,
    step: ClientAuthStep,
) -> bool {
    match message {
        ClientIncoming::Binary(bytes) => match codec.decode_auth(buffer::contents(bytes)) {
            Ok(packet) => match auth::verdict_in(packet.message) {
                Some(Ok(_)) => step is Accepted,
                Some(Err(error)) => step matches ClientAuthStep::Failed(e) && e@
                    == ClientFailure::AuthFailed(error),
                None => step is Ignore,
            },
            Err(Failure::MessageTypeMismatch) => step is Ignore,
            Err(error) => step matches ClientAuthStep::Failed(e) && e@ == ClientFailure::Protocol(
                error,
            ),
        },
        ClientIncoming::Ping(payload) => step matches ClientAuthStep::Pong(reply) && reply@
            == payload@,
        ClientIncoming::Text | ClientIncoming::Pong | ClientIncoming::Frame => step is Ignore,
        ClientIncoming::Close => step matches ClientAuthStep::Failed(e) && e@
            == ClientFailure::ConnectionClosed("server closed connection"@),
        ClientIncoming::End => step matches ClientAuthStep::Failed(e) && e@
            == ClientFailure::ConnectionClosed("reader loop stopped"@),
        ClientIncoming::TimedOut => step matches ClientAuthStep::Failed(e) && e@ is Timeout,
        ClientIncoming::Failed(source) => step matches ClientAuthStep::Failed(e) && e@
            == ClientFailure::ConnectionClosed(source@),
    }
}

impl WscallClient {
    /// Takes note of the loss of the connection with this number: what the handlers
    /// of disconnects are told, and which calls and events fail.
    pub fn handle_disconnect(&mut self, generation: u64, error: &ClientError) -> (r: Option<
        Disconnect,
    >)
        ensures
            old(self)@.lose(generation, error@, final(self)@, r),
    {
        if !self.is_connection_generation_active(generation) {
            return None;
        }
        if !self.connected {
            return None;
        }
        self.connected = false;
        let calls = pending_ids(&self.pending_api);
        let events = pending_ids(&self.pending_event);
        self.pending_api = new_pending();
        self.pending_event = new_pending();
        let will_reconnect = !self.shutdown && self.auto_reconnect;
        proof {
            reveal_with_fuel(doubled, 1);
        }
        let retry_after = if will_reconnect {
            Some(reconnect_delay(1))
        } else {
            None
        };
        let event = ClientDisconnectEvent {
            url: self.current_url(),
            reason: error.disconnect_reason(),
            will_reconnect,
            retry_after,
        };
        Some(Disconnect { event, calls, events })
    }

    /// Closes the client: it stops reconnecting, and the current connection is given
    /// up.
    pub fn close(&mut self) -> (r: Option<Disconnect>)
        ensures
            (Client { shutdown: true, ..old(self)@ }).lose(
                old(self)@.generation,
                ClientFailure::Disconnected,
                final(self)@,
                r,
            ),
    {
        self.shutdown = true;
        let generation: u64 = self.generation;
        self.handle_disconnect(generation, &ClientError::Disconnected)
    }

    /// The codec of a connection that uses the configured keys.
    pub fn shared_codec(&self) -> (codec: FrameCodec)
        ensures
            codec@ == self@.codec,
    {
        self.codec.clone()
    }

    /// The client's side of the X25519 handshake: from its keypair, whose public key
    /// it has sent, and the server's reply (`None` where no binary message came), the
    /// connection's codec.
    pub fn finish_handshake(keypair: &EcdhKeypair, reply: Option<Vec<u8>>) -> (r: Result<
        FrameCodec,
        ClientError,
    >)
        ensures
            match reply {
                Some(bytes) => if bytes@.len() == ecdh::ECDH_KEY_LEN {
                    r matches Ok(codec) && codec@ == (Codec {
                        chacha20_key: Some(
                            ecdh::session_key(crypto::x25519_shared(keypair.secret(), bytes@)),
                        ),
                        ..codec::default_codec()
                    }) && (forall|other: Seq<u8>|
                        other.len() == 32 && bytes@ == #[trigger] crypto::x25519_public(other)
                            ==> codec@.chacha20_key == Some(
                            ecdh::session_key(
                                crypto::x25519_shared(
                                    other,
                                    crypto::x25519_public(keypair.secret()),
                                ),
                            ),
                        ))
                } else {
                    r matches Err(e) && e@ == ClientFailure::Protocol(
                        Failure::InvalidEcdhPublicKey {
                            expected: ecdh::ECDH_KEY_LEN as nat,
                            actual: bytes@.len(),
                        },
                    )
                },
                None => r matches Err(e) && e@ == ClientFailure::ConnectionClosed(
                    "ECDH handshake failed: no valid server public key"@,
                ),
            },
    {
        match reply {
            Some(bytes) => match parse_peer_public(bytes.as_slice()) {
                Ok(server_public) => {
                    let key = keypair.derive_session_key(&server_public);
                    Ok(FrameCodec::plaintext().with_chacha20_key(key))
                },
                Err(e) => Err(ClientError::Protocol(e)),
            },
            None => Err(
                ClientError::ConnectionClosed(
                    "ECDH handshake failed: no valid server public key".to_owned(),
                ),
            ),
        }
    }

    /// The packet that submits the configured credential, where there is one.
    pub fn auth_request(&self) -> (r: Option<AuthPacket>)
        ensures
            match r {
                Some(packet) => self@.credential matches Some(credential) && packet@
                    == auth::auth_request(credential, self@.default_encryption),
                None => self@.credential is None,
            },
    {
        match &self.credential {
            Some(credential) => Some(
                AuthPacket {
                    encryption: self.default_encryption,
                    message: AuthMessage::AuthRequest { credential: credential.clone() },
                },
            ),
            None => None,
        }
    }

    /// Decides what is done with a message while the submitted credential is judged.
    pub fn auth_step(codec: &FrameCodec, message: ClientIncoming) -> (step: ClientAuthStep)
        ensures
            client_auth_step(codec@, message, step),
    {
        match message {
            ClientIncoming::Binary(bytes) => match codec.decode_auth(bytes) {
                Ok(packet) => match take_verdict(packet.message) {
                    Some(Ok(())) => ClientAuthStep::Accepted,
                    Some(Err(payload)) => ClientAuthStep::Failed(ClientError::AuthFailed(payload)),
                    None => ClientAuthStep::Ignore,
                },
                Err(ProtocolError::MessageTypeMismatch) => ClientAuthStep::Ignore,
                Err(e) => ClientAuthStep::Failed(ClientError::Protocol(e)),
            },
            ClientIncoming::Ping(payload) => ClientAuthStep::Pong(payload),
            ClientIncoming::Text => ClientAuthStep::Ignore,
            ClientIncoming::Pong => ClientAuthStep::Ignore,
            ClientIncoming::Frame => ClientAuthStep::Ignore,
            ClientIncoming::Close => ClientAuthStep::Failed(
                ClientError::ConnectionClosed("server closed connection".to_owned()),
            ),
            ClientIncoming::End => ClientAuthStep::Failed(
                ClientError::ConnectionClosed("reader loop stopped".to_owned()),
            ),
            ClientIncoming::TimedOut => ClientAuthStep::Failed(ClientError::Timeout),
            ClientIncoming::Failed(source) => ClientAuthStep::Failed(
                ClientError::ConnectionClosed(source),
            ),
        }
    }

    /// Decides what the client's reader does with a message.
    pub fn read_step(codec: &FrameCodec, message: ClientIncoming) -> (step: ClientReaderStep)
        ensures
            client_read_step(codec@, message, step),
    {
        match message {
            ClientIncoming::Binary(bytes) => match codec.decode(bytes) {
                Ok(packet) => ClientReaderStep::Handle(packet),
                Err(e) => ClientReaderStep::Drop(e),
            },
            ClientIncoming::Ping(payload) => ClientReaderStep::Pong(payload),
            ClientIncoming::Text => ClientReaderStep::Ignore,
            ClientIncoming::Pong => ClientReaderStep::Ignore,
            ClientIncoming::Frame => ClientReaderStep::Ignore,
            ClientIncoming::Close => ClientReaderStep::Stop(
                ClientError::ConnectionClosed("server closed connection".to_owned()),
            ),
            ClientIncoming::End => ClientReaderStep::Stop(
                ClientError::ConnectionClosed("reader loop stopped".to_owned()),
            ),
            ClientIncoming::TimedOut => ClientReaderStep::Stop(ClientError::IdleTimeout),
            ClientIncoming::Failed(source) => ClientReaderStep::Stop(
                ClientError::ConnectionClosed(source),
            ),
        }
    }

    /// Decides what the client's writer does with an outbound message.
    pub fn write_step(codec: &FrameCodec, outbound: ClientOutbound) -> (step: ClientWriterStep)
        ensures
            match outbound {
                ClientOutbound::Packet(packet) => match step {
                    ClientWriterStep::SendBinary(bytes) => {
                        &&& codec@.encodes_to(packet@, buffer::contents(bytes))
                        &&& codec::round_trips(codec@, packet@, buffer::contents(bytes))
                    },
                    ClientWriterStep::Drop(e) => codec@.refuses_with(packet@, e@) && (
                    codec@.has_room_for(packet@) ==> e@ is Random),
                    _ => false,
                },
                ClientOutbound::Ping(payload) => step == ClientWriterStep::SendPing(payload),
                ClientOutbound::Pong(payload) => step == ClientWriterStep::SendPong(payload),
                ClientOutbound::Close => step matches ClientWriterStep::SendClose(e) && e@
                    == ClientFailure::ConnectionClosed("client closed"@),
            },
    {
        match outbound {
            ClientOutbound::Packet(packet) => match codec.encode(&packet) {
                Ok(bytes) => ClientWriterStep::SendBinary(from_vec(bytes)),
                Err(e) => ClientWriterStep::Drop(e),
            },
            ClientOutbound::Ping(payload) => ClientWriterStep::SendPing(payload),
            ClientOutbound::Pong(payload) => ClientWriterStep::SendPong(payload),
            ClientOutbound::Close => ClientWriterStep::SendClose(
                ClientError::ConnectionClosed("client closed".to_owned()),
            ),
        }
    }
}

/// The receipt that counts: the last one, or that the event was not handled.
pub open spec fn last_receipt(receipts: Seq<Json>) -> Tree {
    if receipts.len() == 0 {
        Tree::Object(seq![("handled"@, Tree::Bool(false))])
    } else {
        receipts.last()@
    }
}

/// The first retry waits for the base delay; each later one waits twice as long as
/// the one before, up to the longest delay.
pub proof fn lemma_backoff_doubles_up_to_cap(attempt: u32)
    requires
        1 <= attempt < u32::MAX,
    ensures
        backoff_secs(1) == 3,
        backoff_secs((attempt + 1) as u32) == if 2 * backoff_secs(attempt) > 30 {
            30
        } else {
            2 * backoff_secs(attempt)
        },
        3 <= backoff_secs(attempt) <= 30,
{
    reveal_with_fuel(doubled, 7);
}

/// A later attempt never waits for less than an earlier one.
pub proof fn lemma_backoff_is_monotone(earlier: u32, later: u32)
    requires
        earlier <= later,
    ensures
        backoff_secs(earlier) <= backoff_secs(later),
{
    reveal_with_fuel(doubled, 7);
}

/// A round of connection attempts starts with the URL that was connected last and
/// tries every URL exactly once.
pub proof fn lemma_round_tries_every_url_once(client: Client)
    requires
        client.current < client.urls.len(),
    ensures
        client.candidate(0) == client.current,
        forall|tried: nat|
            tried < client.urls.len() ==> #[trigger] client.candidate(tried) < client.urls.len(),
        forall|a: nat, b: nat|
            a < client.urls.len() && b < client.urls.len() && #[trigger] client.candidate(a)
                == #[trigger] client.candidate(b) ==> a == b,
        forall|place: nat| place < client.urls.len() ==> #[trigger] client.tries(place),
{
    let count = client.urls.len();
    assert forall|tried: nat| tried < count implies #[trigger] client.candidate(tried) == if client.current
        + tried < count {
        client.current + tried
    } else {
        (client.current + tried - count) as nat
    } by {
        let sum = client.current + tried;
        if sum < count {
            vstd::arithmetic::div_mod::lemma_small_mod(sum, count);
        } else {
            vstd::arithmetic::div_mod::lemma_small_mod((sum - count) as nat, count);
            vstd::arithmetic::div_mod::lemma_mod_sub_multiples_vanish(sum as int, count as int);
        }
    }
    assert forall|place: nat| place < count implies #[trigger] client.tries(place) by {
        let tried: nat = if place >= client.current {
            (place - client.current) as nat
        } else {
            (place + count - client.current) as nat
        };
        assert(client.candidate(tried) == place);
    }
}

/// The id of a call or an event differs from the one before it.
pub proof fn lemma_ids_change(last: u64)
    ensures
        next_id(last) != last,
        last < u64::MAX ==> next_id(last) == last + 1,
{
}

/// A call is completed at most once: a second response with its id is dropped.
pub proof fn lemma_call_completes_once(client: Client, first: Body, second: Body, step: ClientStep)
    requires
        first matches Body::ApiResponse { request_id: id, .. } && (second matches Body::ApiResponse {
            request_id: other,
            ..
        } && id == other),
        client.after_packet(first).packet_step(second, step),
    ensures
        step is Ignore,
{
}

/// An event is completed at most once: a second acknowledgement with its id is
/// dropped.
pub proof fn lemma_event_completes_once(
    client: Client,
    first: Body,
    second: Body,
    step: ClientStep,
)
    requires
        first matches Body::EventAck { event_id: id, .. } && (second matches Body::EventAck {
            event_id: other,
            ..
        } && id == other),
        client.after_packet(first).packet_step(second, step),
    ensures
        step is Ignore,
{
}

/// The loss of a connection is taken note of once, and leaves nothing that waits for
/// a reply.
pub proof fn lemma_connection_is_lost_once(
    client: Client,
    generation: u64,
    error: ClientFailure,
    after: Client,
    r: Option<Disconnect>,
    again: ClientFailure,
    last: Client,
    second: Option<Disconnect>,
)
    requires
        client.lose(generation, error, after, r),
        r is Some,
        after.lose(generation, again, last, second),
    ensures
        second is None,
        last == after,
        !after.connected,
        after.pending_api == no_ids(),
        after.pending_event == no_ids(),
{
}

/// The loss of a connection that is not the current one changes nothing.
pub proof fn lemma_stale_connection_is_ignored(
    client: Client,
    generation: u64,
    error: ClientFailure,
    after: Client,
    r: Option<Disconnect>,
)
    requires
        client.lose(generation, error, after, r),
        generation != client.generation,
    ensures
        r is None,
        after == client,
{
}

/// A closed client does not connect again.
pub proof fn lemma_closed_client_stays_closed(
    client: Client,
    supervisor: Supervisor,
    event: SupervisorEvent,
    next: Client,
    after: Supervisor,
    step: SupervisorStep,
)
    requires
        client.shutdown,
        client.supervise(supervisor, event, next, after, step),
    ensures
        !(step is Connect),
        !(step is Sleep),
        next == client,
{
}

/// Without automatic reconnection the supervisor ends with the first connection.
pub proof fn lemma_no_reconnect_unless_enabled(
    client: Client,
    supervisor: Supervisor,
    next: Client,
    after: Supervisor,
    step: SupervisorStep,
)
    requires
        !client.auto_reconnect,
        client.supervise(supervisor, SupervisorEvent::Lost, next, after, step),
    ensures
        step is Exit,
{
}

} // verus!
