//! The server's decisions: what a connection's messages lead to, how requests and
//! events run through filters and handlers, and what is sent in return.
//!
//! The runtime performs the steps (it reads and writes sockets, and awaits filters
//! and handlers) and hands the outcomes back.
use crate::attachment;
use crate::attachment::{Attachment, FileAttachment};
use crate::auth;
use crate::auth::{AuthInfo, AuthMessage, AuthPacket};
use crate::buffer;
use crate::buffer::{as_slice, be32_at, from_vec};
use crate::codec;
use crate::codec::{Codec, FrameCodec, DEFAULT_MAX_FRAME_BYTES, HEADER_LEN};
use crate::crypto;
use crate::ecdh;
use crate::ecdh::{parse_peer_public, EcdhKeypair};
use crate::error::{Failure, ProtocolError};
use crate::json::{Json, JsonMap, Tree};
use crate::packet::{
    Body, EncryptionKind, ErrorInfo, ErrorPayload, Packet, PacketBody, PacketEnvelope,
};
use crate::rate_limiter::{RateLimiter, Verdict};
use crate::server_types;
use crate::server_types::{
    clone_map, ApiContext, ApiError, AuthContext, AuthOutput, Emission, EventContext, Exception,
    ExceptionContext, PeerAddr, Request, ServerError, ServerFailure,
};
use crate::text;
use crate::text::{decimal_text, join, text_eq};
use crate::time;
use bytes::Bytes;
use dashmap::DashMap;
use std::time::Duration;
use vstd::prelude::*;

verus! {

/// Default cap on concurrently in-flight request/event handlers per connection.
pub const SERVER_DEFAULT_MAX_IN_FLIGHT: usize = 64;

/// Seconds without an inbound message after which a connection is closed.
pub const SERVER_IDLE_TIMEOUT_SECS: u64 = 45;

/// Seconds within which a client has to submit its credential.
pub const SERVER_AUTH_TIMEOUT_SECS: u64 = 10;

/// Seconds between two heartbeat pings.
pub const SERVER_HEARTBEAT_SECS: u64 = 15;

/// Messages that wait for a connection's writer at most.
pub const SERVER_OUTBOUND_QUEUE_CAPACITY: usize = 256;

/// How much larger than a frame a WebSocket message may be, so that an oversized
/// frame can still be answered.
pub const OVERSIZE_ALLOWANCE: usize = 1048576;

/// What a connection's writer is to send.
pub enum ServerOutbound {
    /// A packet that the writer encodes with the connection's codec.
    Packet(PacketEnvelope),
    /// A frame that is shared by its recipients.
    PreEncoded(Bytes),
    Pong(Vec<u8>),
    Close,
}

/// The empty JSON object.
pub open spec fn empty_object() -> Tree {
    Tree::Object(Seq::empty())
}

/// The body of an event that the server emits.
pub open spec fn server_event(
    event_id: u64,
    name: Seq<char>,
    data: Seq<(Seq<char>, Tree)>,
    attachments: Seq<Attachment>,
) -> Body {
    Body::EventEmit {
        event_id,
        name,
        data,
        attachments,
        metadata: Tree::Object(seq![("source"@, Tree::Text("server"@))]),
        expect_ack: true,
    }
}

/// The packet that carries a body in an encryption mode.
pub open spec fn packet_of(body: Body, encryption: EncryptionKind) -> Packet {
    Packet { message_type: body.message_type(), encryption, body }
}

/// The outbound message carries the packet: as it is where every connection has a
/// key of its own, and else encoded with the shared codec, so that a peer with the
/// key decodes it.
pub open spec fn carries(
    outbound: ServerOutbound,
    codec: Codec,
    is_ecdh: bool,
    packet: Packet,
) -> bool {
    match outbound {
        ServerOutbound::Packet(p) => is_ecdh && p@ == packet,
        ServerOutbound::PreEncoded(bytes) => {
            &&& !is_ecdh
            &&& codec.encodes_to(packet, buffer::contents(bytes))
            &&& codec::round_trips(codec, packet, buffer::contents(bytes))
        },
        _ => false,
    }
}

fn prepare(codec: &FrameCodec, is_ecdh: bool, packet: PacketEnvelope) -> (r: Result<
    ServerOutbound,
    ProtocolError,
>)
    ensures
        match r {
            Ok(outbound) => carries(outbound, codec@, is_ecdh, packet@),
            Err(e) => !is_ecdh && codec@.refuses_with(packet@, e@),
        },
        is_ecdh ==> r is Ok,
        codec@.has_room_for(packet@) ==> (r matches Err(e) ==> e@ is Random),
{
    if is_ecdh {
        Ok(ServerOutbound::Packet(packet))
    } else {
        match codec.encode(&packet) {
            Ok(bytes) => Ok(ServerOutbound::PreEncoded(from_vec(bytes))),
            Err(e) => Err(e),
        }
    }
}

/// The ids that a map of live connections holds.
pub uninterp spec fn clients_in(map: DashMap<String, ()>) -> Set<Seq<char>>;

/// No connection at all.
pub open spec fn no_clients() -> Set<Seq<char>> {
    Set::empty()
}

/// `DashMap::new`: a map without entries.
#[verifier::external_body]
fn new_clients() -> (map: DashMap<String, ()>)
    ensures
        clients_in(map) == no_clients(),
{
    DashMap::new()
}

/// `DashMap::insert`: adds a key. The exclusive borrow rules out other handles on
/// the map.
#[verifier::external_body]
fn add_client(map: &mut DashMap<String, ()>, id: String)
    ensures
        clients_in(*final(map)) == clients_in(*old(map)).insert(id@),
{
    map.insert(id, ());
}

/// `DashMap::remove`: takes the entry at a key out, where there is one.
#[verifier::external_body]
fn remove_client(map: &mut DashMap<String, ()>, id: &str)
    ensures
        clients_in(*final(map)) == clients_in(*old(map)).remove(id@),
{
    map.remove(id);
}

/// `DashMap::contains_key`: whether there is an entry at a key.
#[verifier::external_body]
fn has_client(map: &DashMap<String, ()>, id: &str) -> (found: bool)
    ensures
        found == clients_in(*map).contains(id@),
{
    map.contains_key(id)
}

/// `DashMap::len`: the number of entries.
#[verifier::external_body]
fn count_clients(map: &DashMap<String, ()>) -> (count: usize)
    ensures
        count == clients_in(*map).len(),
{
    map.len()
}

/// Handle for server push operations. It counts the server's events and knows its
/// live connections.
pub struct ServerHandle {
    codec: FrameCodec,
    default_encryption: EncryptionKind,
    is_ecdh: bool,
    last_event_id: u64,
    clients: DashMap<String, ()>,
}

/// What a [`ServerHandle`] holds.
pub struct Handle {
    pub codec: Codec,
    pub default_encryption: EncryptionKind,
    pub is_ecdh: bool,
    pub last_event_id: u64,
    /// The ids of the live connections.
    pub clients: Set<Seq<char>>,
}

impl View for ServerHandle {
    type V = Handle;

    closed spec fn view(&self) -> Handle {
        Handle {
            codec: self.codec@,
            default_encryption: self.default_encryption,
            is_ecdh: self.is_ecdh,
            last_event_id: self.last_event_id,
            clients: clients_in(self.clients),
        }
    }
}

impl Handle {
    /// The id of the next event: ids count up from 1.
    pub open spec fn next_event_id(self) -> u64 {
        if self.last_event_id == u64::MAX {
            0
        } else {
            (self.last_event_id + 1) as u64
        }
    }

    /// The handle after an event.
    pub open spec fn after_event(self) -> Handle {
        Handle { last_event_id: self.next_event_id(), ..self }
    }

    /// The packet of the next event.
    pub open spec fn event_packet(
        self,
        name: Seq<char>,
        data: Seq<(Seq<char>, Tree)>,
        attachments: Seq<Attachment>,
    ) -> Packet {
        packet_of(
            server_event(self.next_event_id(), name, data, attachments),
            self.default_encryption,
        )
    }
}

impl ServerHandle {
    /// Takes note of a new connection.
    pub fn connection_opened(&mut self, connection_id: &str)
        ensures
            final(self)@ == (Handle {
                clients: old(self)@.clients.insert(connection_id@),
                ..old(self)@
            }),
    {
        add_client(&mut self.clients, connection_id.to_owned());
    }

    /// Takes note of the end of a connection.
    pub fn connection_closed(&mut self, connection_id: &str)
        ensures
            final(self)@ == (Handle {
                clients: old(self)@.clients.remove(connection_id@),
                ..old(self)@
            }),
    {
        remove_client(&mut self.clients, connection_id);
    }

    /// Returns the current number of live connections.
    pub fn connection_count(&self) -> (count: usize)
        ensures
            count == self@.clients.len(),
    {
        count_clients(&self.clients)
    }

    /// Whether the connection is live.
    pub fn is_live(&self, connection_id: &str) -> (live: bool)
        ensures
            live == self@.clients.contains(connection_id@),
    {
        has_client(&self.clients, connection_id)
    }

    fn event_packet(
        &mut self,
        name: &str,
        data: JsonMap,
        attachments: Vec<FileAttachment>,
    ) -> (packet: PacketEnvelope)
        ensures
            final(self)@ == old(self)@.after_event(),
            packet@ == old(self)@.event_packet(
                name@,
                data@,
                attachment::attachment_views(attachments@),
            ),
    {
        self.last_event_id = self.last_event_id.wrapping_add(1);
        let mut source = JsonMap::new();
        source.insert("source".to_owned(), Json::text("server"));
        proof {
            assert(source@ =~= seq![("source"@, Tree::Text("server"@))]);
        }
        PacketEnvelope::with_encryption(
            PacketBody::EventEmit {
                event_id: self.last_event_id,
                name: name.to_owned(),
                data,
                attachments,
                metadata: Json::Object(source),
                expect_ack: true,
            },
            self.default_encryption,
        )
    }

    /// Prepares an event for every live connection. It is encoded once and shared,
    /// or, where every connection has a key of its own, left to the writers.
    pub fn broadcast_event(
        &mut self,
        name: &str,
        data: JsonMap,
        attachments: Vec<FileAttachment>,
    ) -> (r: Result<ServerOutbound, ApiError>)
        ensures
            final(self)@ == old(self)@.after_event(),
            ({
                let packet = old(self)@.event_packet(
                    name@,
                    data@,
                    attachment::attachment_views(attachments@),
                );
                &&& match r {
                    Ok(outbound) => carries(
                        outbound,
                        old(self)@.codec,
                        old(self)@.is_ecdh,
                        packet,
                    ),
                    Err(e) => {
                        &&& e@ == server_types::internal("failed to encode broadcast event"@)
                        &&& !old(self)@.is_ecdh
                        &&& exists|reason: Failure| #[trigger]
                            old(self)@.codec.refuses_with(packet, reason) && (
                            old(self)@.codec.has_room_for(packet) ==> reason is Random)
                    },
                }
                &&& old(self)@.codec.has_room_for(packet) && !old(self)@.codec.needs_nonce(packet)
                    ==> r is Ok
            }),
    {
        let packet = self.event_packet(name, data, attachments);
        match prepare(&self.codec, self.is_ecdh, packet) {
            Ok(outbound) => Ok(outbound),
            Err(_) => Err(ApiError::internal("failed to encode broadcast event")),
        }
    }

    /// Prepares an event for one connection.
    pub fn send_event_to(
        &mut self,
        connection_id: &str,
        name: &str,
        data: JsonMap,
        attachments: Vec<FileAttachment>,
    ) -> (r: Result<ServerOutbound, ApiError>)
        ensures
            final(self)@ == old(self)@.after_event(),
            ({
                let packet = old(self)@.event_packet(
                    name@,
                    data@,
                    attachment::attachment_views(attachments@),
                );
                &&& match r {
                    Ok(outbound) => old(self)@.clients.contains(connection_id@) && carries(
                        outbound,
                        old(self)@.codec,
                        old(self)@.is_ecdh,
                        packet,
                    ),
                    Err(e) => if !old(self)@.clients.contains(connection_id@) {
                        e@ == server_types::not_found("target connection not found"@)
                    } else {
                        &&& e@ == server_types::internal("failed to encode direct event"@)
                        &&& !old(self)@.is_ecdh
                        &&& exists|reason: Failure| #[trigger]
                            old(self)@.codec.refuses_with(packet, reason) && (
                            old(self)@.codec.has_room_for(packet) ==> reason is Random)
                    },
                }
                &&& old(self)@.clients.contains(connection_id@) && old(self)@.codec.has_room_for(
                    packet,
                ) && !old(self)@.codec.needs_nonce(packet) ==> r is Ok
            }),
    {
        let packet = self.event_packet(name, data, attachments);
        if !self.is_live(connection_id) {
            return Err(ApiError::not_found("target connection not found"));
        }
        match prepare(&self.codec, self.is_ecdh, packet) {
            Ok(outbound) => Ok(outbound),
            Err(_) => Err(ApiError::internal("failed to encode direct event")),
        }
    }

    /// The outcome of a direct event, given whether the connection's queue took it.
    pub fn direct_event_outcome(queued: bool) -> (r: Result<(), ApiError>)
        ensures
            match r {
                Ok(_) => queued,
                Err(e) => !queued && e@ == server_types::internal(
                    "failed to queue direct event"@,
                ),
            },
    {
        if queued {
            Ok(())
        } else {
            Err(ApiError::internal("failed to queue direct event"))
        }
    }

    /// Prepares the event that a new connection is greeted with.
    pub fn welcome_event(&mut self, connection_id: &str) -> (r: Result<ServerOutbound, ApiError>)
        ensures
            final(self)@ == old(self)@.after_event(),
            ({
                let packet = old(self)@.event_packet(
                    "system.notice"@,
                    seq![
                        ("message"@, Tree::Text("connected"@)),
                        ("connection_id"@, Tree::Text(connection_id@)),
                    ],
                    Seq::empty(),
                );
                match r {
                    Ok(outbound) => old(self)@.clients.contains(connection_id@) && carries(
                        outbound,
                        old(self)@.codec,
                        old(self)@.is_ecdh,
                        packet,
                    ),
                    Err(e) => if !old(self)@.clients.contains(connection_id@) {
                        e@ == server_types::not_found("target connection not found"@)
                    } else {
                        &&& e@ == server_types::internal("failed to encode direct event"@)
                        &&& !old(self)@.is_ecdh
                        &&& exists|reason: Failure| #[trigger]
                            old(self)@.codec.refuses_with(packet, reason) && (
                            old(self)@.codec.has_room_for(packet) ==> reason is Random)
                    },
                }
            }),
    {
        let mut data = JsonMap::new();
        data.insert("message".to_owned(), Json::text("connected"));
        data.insert("connection_id".to_owned(), Json::text(connection_id));
        let none: Vec<FileAttachment> = Vec::new();
        proof {
            reveal_strlit("message");
            reveal_strlit("connection_id");
            assert("message"@[0] == 'm');
            assert("connection_id"@[0] == 'c');
            assert(data@ =~= seq![
                ("message"@, Tree::Text("connected"@)),
                ("connection_id"@, Tree::Text(connection_id@)),
            ]);
            assert(attachment::attachment_views(none@) =~= Seq::empty());
        }
        self.send_event_to(connection_id, "system.notice", data, none)
    }
}

/// The server's configuration and the names of its handlers.
///
/// Handlers are known by their place: the route, event handler or filter that was
/// registered first has the place 0.
pub struct WscallServer {
    codec: FrameCodec,
    default_encryption: EncryptionKind,
    is_ecdh: bool,
    max_connections: Option<usize>,
    max_in_flight: usize,
    max_frame_bytes: usize,
    rate_limiter: Option<RateLimiter>,
    routes: Names,
    event_handlers: Names,
    filters: usize,
    maps_exceptions: bool,
    authenticates: bool,
    handle: ServerHandle,
}

/// What a [`WscallServer`] holds: how it is set up, and what its handle knows.
pub struct Server {
    pub codec: Codec,
    pub default_encryption: EncryptionKind,
    /// Whether ECDH dynamic key agreement is enabled (no pre-shared key).
    pub is_ecdh: bool,
    /// Optional global cap on concurrent accepted connections.
    pub max_connections: Option<usize>,
    /// Per-connection cap on concurrently running request/event handlers.
    pub max_in_flight: usize,
    /// Maximum total frame size (including 4-byte length prefix).
    pub max_frame_bytes: usize,
    pub rate_limiter: Option<RateLimiter>,
    pub routes: Seq<Seq<char>>,
    pub event_handlers: Seq<Seq<char>>,
    pub filters: nat,
    /// Whether an exception handler turns errors into payloads.
    pub maps_exceptions: bool,
    /// Whether an authentication handler judges the credentials of new connections.
    pub authenticates: bool,
    /// The id of the last event that was pushed.
    pub last_event_id: u64,
    /// The ids of the live connections.
    pub clients: Set<Seq<char>>,
}

impl View for WscallServer {
    type V = Server;

    closed spec fn view(&self) -> Server {
        Server {
            codec: self.codec@,
            default_encryption: self.default_encryption,
            is_ecdh: self.is_ecdh,
            max_connections: self.max_connections,
            max_in_flight: self.max_in_flight,
            max_frame_bytes: self.max_frame_bytes,
            rate_limiter: self.rate_limiter,
            routes: self.routes@,
            event_handlers: self.event_handlers@,
            filters: self.filters as nat,
            maps_exceptions: self.maps_exceptions,
            authenticates: self.authenticates,
            last_event_id: self.handle@.last_event_id,
            clients: self.handle@.clients,
        }
    }
}

/// The server that nothing was configured on.
pub open spec fn new_server() -> Server {
    Server {
        codec: codec::default_codec(),
        default_encryption: EncryptionKind::Plaintext,
        is_ecdh: false,
        max_connections: None,
        max_in_flight: SERVER_DEFAULT_MAX_IN_FLIGHT,
        max_frame_bytes: DEFAULT_MAX_FRAME_BYTES,
        rate_limiter: None,
        routes: Seq::empty(),
        event_handlers: Seq::empty(),
        filters: 0,
        maps_exceptions: false,
        authenticates: false,
        last_event_id: 0,
        clients: no_clients(),
    }
}

impl Server {
    /// What the server's handle holds.
    pub open spec fn handle(self) -> Handle {
        Handle {
            codec: self.codec,
            default_encryption: self.default_encryption,
            is_ecdh: self.is_ecdh,
            last_event_id: self.last_event_id,
            clients: self.clients,
        }
    }

    /// No route and no event handler is known twice.
    pub open spec fn has_unique_names(self) -> bool {
        self.routes.no_duplicates() && self.event_handlers.no_duplicates()
    }
}

/// `known` with `name` at its end, where it is not there yet.
pub open spec fn with_name(known: Seq<Seq<char>>, name: Seq<char>) -> Seq<Seq<char>> {
    if known.contains(name) {
        known
    } else {
        known.push(name)
    }
}

/// Names in the order in which they were registered. No name occurs twice.
struct Names {
    strings: Vec<String>,
}

impl View for Names {
    type V = Seq<Seq<char>>;

    closed spec fn view(&self) -> Seq<Seq<char>> {
        text::views(self.strings@)
    }
}

impl Names {
    #[verifier::type_invariant]
    spec fn well_formed(self) -> bool {
        text::views(self.strings@).no_duplicates()
    }

    /// No names.
    fn new() -> (names: Self)
        ensures
            names@ == Seq::<Seq<char>>::empty(),
    {
        let strings: Vec<String> = Vec::new();
        proof {
            assert(text::views(strings@) =~= Seq::empty());
        }
        Names { strings }
    }

    /// The place of a name.
    fn place_of(&self, name: &str) -> (r: Option<usize>)
        ensures
            self@.no_duplicates(),
            match r {
                Some(i) => i < self@.len() && self@[i as int] == name@,
                None => !self@.contains(name@),
            },
    {
        proof {
            use_type_invariant(self);
        }
        let mut i: usize = 0;
        while i < self.strings.len()
            invariant
                i <= self.strings@.len(),
                self@.no_duplicates(),
                forall|j: int| 0 <= j < i ==> (#[trigger] self.strings@[j])@ != name@,
            decreases self.strings.len() - i,
        {
            if text_eq(self.strings[i].as_str(), name) {
                return Some(i);
            }
            i += 1;
        }
        proof {
            assert forall|j: int| 0 <= j < self@.len() implies self@[j] != name@ by {
                assert(self.strings@[j]@ != name@);
            }
        }
        None
    }

    /// Registers a name and tells its place.
    fn register(&mut self, name: &str) -> (place: usize)
        ensures
            final(self)@ == with_name(old(self)@, name@),
            final(self)@.no_duplicates(),
            place < final(self)@.len(),
            final(self)@[place as int] == name@,
    {
        proof {
            use_type_invariant(&*self);
        }
        match self.place_of(name) {
            Some(place) => {
                proof {
                    assert(self@.contains(name@));
                }
                place
            },
            None => {
                let place: usize = self.strings.len();
                let ghost before = self@;
                let mut strings: Vec<String> = Vec::new();
                proof {
                    assert(text::views(strings@) =~= Seq::empty());
                }
                std::mem::swap(&mut strings, &mut self.strings);
                strings.push(name.to_owned());
                proof {
                    assert(text::views(strings@) =~= before.push(name@));
                }
                self.strings = strings;
                place
            },
        }
    }
}

impl Default for WscallServer {
    fn default() -> (server: Self)
        ensures
            server@ == new_server(),
    {
        Self::new()
    }
}

impl WscallServer {
    /// A plaintext server without handlers.
    pub fn new() -> (server: Self)
        ensures
            server@ == new_server(),
    {
        WscallServer {
            codec: FrameCodec::plaintext(),
            default_encryption: EncryptionKind::Plaintext,
            is_ecdh: false,
            max_connections: None,
            max_in_flight: SERVER_DEFAULT_MAX_IN_FLIGHT,
            max_frame_bytes: DEFAULT_MAX_FRAME_BYTES,
            rate_limiter: None,
            routes: Names::new(),
            event_handlers: Names::new(),
            filters: 0,
            maps_exceptions: false,
            authenticates: false,
            handle: ServerHandle {
                codec: FrameCodec::plaintext(),
                default_encryption: EncryptionKind::Plaintext,
                is_ecdh: false,
                last_event_id: 0,
                clients: new_clients(),
            },
        }
    }

    /// Enables ECDH dynamic key agreement.
    ///
    /// Instead of a pre-shared symmetric key, each connection performs an X25519
    /// handshake right after the WebSocket upgrade.
    pub fn with_ecdh(self) -> (server: Self)
        ensures
            server@ == (Server {
                is_ecdh: true,
                default_encryption: EncryptionKind::ChaCha20,
                ..self@
            }),
    {
        WscallServer { is_ecdh: true, default_encryption: EncryptionKind::ChaCha20, ..self }
    }

    /// Uses a pre-shared ChaCha20-Poly1305 key.
    pub fn with_chacha20_key(self, key: [u8; 32]) -> (server: Self)
        ensures
            server@ == (Server {
                codec: Codec { chacha20_key: Some(key@), ..self@.codec },
                default_encryption: EncryptionKind::ChaCha20,
                ..self@
            }),
    {
        let codec = self.codec.clone().with_chacha20_key(key);
        WscallServer { codec, default_encryption: EncryptionKind::ChaCha20, ..self }
    }

    /// Uses a pre-shared AES256-GCM key.
    pub fn with_aes256_key(self, key: [u8; 32]) -> (server: Self)
        ensures
            server@ == (Server {
                codec: Codec { aes256_key: Some(key@), ..self@.codec },
                default_encryption: EncryptionKind::Aes256,
                ..self@
            }),
    {
        let codec = self.codec.clone().with_aes256_key(key);
        WscallServer { codec, default_encryption: EncryptionKind::Aes256, ..self }
    }

    /// Caps the number of concurrently accepted connections.
    pub fn with_max_connections(self, max: usize) -> (server: Self)
        ensures
            server@ == (Server { max_connections: Some(max), ..self@ }),
    {
        WscallServer { max_connections: Some(max), ..self }
    }

    /// Caps the number of concurrently in-flight request/event handlers per single
    /// connection.
    pub fn with_max_in_flight(self, max: usize) -> (server: Self)
        ensures
            server@ == (Server { max_in_flight: max, ..self@ }),
    {
        WscallServer { max_in_flight: max, ..self }
    }

    /// Sets the maximum total frame size (including the 4-byte length prefix).
    ///
    /// A larger frame is answered with a 413 error response (`request_id` 0, code
    /// `frame_too_large`); the connection stays open.
    pub fn with_max_frame_bytes(self, max: usize) -> (server: Self)
        ensures
            server@ == (Server { max_frame_bytes: max, ..self@ }),
    {
        WscallServer { max_frame_bytes: max, ..self }
    }

    /// Enables rate limiting.
    pub fn with_rate_limiter(self, limiter: RateLimiter) -> (server: Self)
        ensures
            server@ == (Server { rate_limiter: Some(limiter), ..self@ }),
    {
        WscallServer { rate_limiter: Some(limiter), ..self }
    }

    /// The optional cap on connections.
    pub fn max_connections(&self) -> (max: Option<usize>)
        ensures
            max == self@.max_connections,
    {
        self.max_connections
    }

    /// The cap on a connection's running handlers.
    pub fn max_in_flight(&self) -> (max: usize)
        ensures
            max == self@.max_in_flight,
    {
        self.max_in_flight
    }

    /// The configured rate limits.
    pub fn rate_limiter(&self) -> (limiter: Option<RateLimiter>)
        ensures
            limiter == self@.rate_limiter,
    {
        self.rate_limiter
    }

    /// Whether connections negotiate a key of their own.
    pub fn is_ecdh(&self) -> (r: bool)
        ensures
            r == self@.is_ecdh,
    {
        self.is_ecdh
    }

    /// The server's handle for server push operations. There is one: what it counts
    /// and which connections it knows is the server's, whoever asks for it.
    pub fn handle(&mut self) -> (handle: &mut ServerHandle)
        ensures
            handle@ == old(self)@.handle(),
            final(self)@ == (Server {
                last_event_id: final(handle)@.last_event_id,
                clients: final(handle)@.clients,
                ..old(self)@
            }),
    {
        self.handle.codec = self.codec.clone();
        self.handle.default_encryption = self.default_encryption;
        self.handle.is_ecdh = self.is_ecdh;
        &mut self.handle
    }

    /// Registers a route and tells its place. A route that is registered again keeps
    /// its place: the new handler replaces the old one.
    pub fn route(&mut self, route: &str) -> (place: usize)
        ensures
            final(self)@ == (Server {
                routes: with_name(old(self)@.routes, route@),
                ..old(self)@
            }),
            final(self)@.has_unique_names(),
            place < final(self)@.routes.len(),
            final(self)@.routes[place as int] == route@,
    {
        proof {
            use_type_invariant(&self.event_handlers);
        }
        self.routes.register(route)
    }

    /// Registers an event handler and tells its place. A name that is registered
    /// again keeps its place: the new handler replaces the old one.
    pub fn event_handler(&mut self, name: &str) -> (place: usize)
        ensures
            final(self)@ == (Server {
                event_handlers: with_name(old(self)@.event_handlers, name@),
                ..old(self)@
            }),
            final(self)@.has_unique_names(),
            place < final(self)@.event_handlers.len(),
            final(self)@.event_handlers[place as int] == name@,
    {
        proof {
            use_type_invariant(&self.routes);
        }
        self.event_handlers.register(name)
    }

    /// Registers a filter and tells its place. Filters run in the order in which
    /// they were registered.
    pub fn filter(&mut self) -> (place: usize)
        requires
            old(self)@.filters < usize::MAX,
        ensures
            final(self)@ == (Server { filters: old(self)@.filters + 1, ..old(self)@ }),
            place == old(self)@.filters,
    {
        let place: usize = self.filters;
        self.filters = place + 1;
        place
    }

    /// Lets an exception handler turn errors into payloads.
    pub fn exception_handler(&mut self)
        ensures
            final(self)@ == (Server { maps_exceptions: true, ..old(self)@ }),
    {
        self.maps_exceptions = true;
    }

    /// Lets an authentication handler judge the credentials of new connections.
    pub fn auth_handler(&mut self)
        ensures
            final(self)@ == (Server { authenticates: true, ..old(self)@ }),
    {
        self.authenticates = true;
    }
}

/// What a connection has been granted. Packets are processed only for a connection
/// that has a session.
pub struct Session {
    idle_timeout: Duration,
    context: Option<JsonMap>,
}

/// What a [`Session`] holds.
pub struct Grant {
    /// Nanoseconds without an inbound message after which the connection is closed.
    pub idle_nanos: nat,
    /// The identity that handlers can read.
    pub context: Option<Seq<(Seq<char>, Tree)>>,
}

impl View for Session {
    type V = Grant;

    closed spec fn view(&self) -> Grant {
        Grant {
            idle_nanos: time::nanos(self.idle_timeout),
            context: server_types::map_view(self.context),
        }
    }
}

/// What an authentication handler's output grants.
pub open spec fn granted(output: AuthOutput) -> Grant {
    Grant {
        idle_nanos: match output.session_timeout {
            Some(timeout) => time::nanos(timeout),
            None => SERVER_IDLE_TIMEOUT_SECS as nat * time::NANOS_PER_SEC as nat,
        },
        context: server_types::map_view(output.context),
    }
}

impl Session {
    /// The time without an inbound message after which the connection is closed.
    pub fn idle_timeout(&self) -> (timeout: Duration)
        ensures
            time::nanos(timeout) == self@.idle_nanos,
    {
        self.idle_timeout
    }

    /// The identity that handlers can read.
    pub fn context(&self) -> (r: Option<&JsonMap>)
        ensures
            match r {
                Some(map) => self@.context == Some(map@),
                None => self@.context is None,
            },
    {
        self.context.as_ref()
    }
}

/// A message of a connection, or what came in place of one.
pub enum Incoming {
    Binary(Bytes),
    Text,
    Ping(Vec<u8>),
    Pong,
    /// A raw frame.
    Frame,
    Close,
    /// The stream has ended.
    End,
    /// Nothing came in time.
    TimedOut,
    /// The socket has failed, with this message.
    Failed(String),
}

/// What a connection's reader does next.
pub enum ReaderStep {
    /// Queues a packet and reads on.
    Reply(PacketEnvelope),
    /// Has the packet processed and reads on; a handler is spawned, trivial control
    /// messages are handled inline.
    Process { packet: PacketEnvelope, spawn: bool },
    /// Queues a pong and reads on.
    Pong(Vec<u8>),
    /// Reads on.
    Ignore,
    /// Ends the connection.
    Stop(Result<(), ServerError>),
}

/// The 413 response to a frame that is not accepted.
pub open spec fn too_large_response(message: Seq<char>) -> Body {
    Body::ApiResponse {
        request_id: 0,
        ok: false,
        status: 413,
        data: empty_object(),
        error: Some(server_types::plain_error("frame_too_large"@, message, 413)),
        metadata: empty_object(),
    }
}

/// The response to a frame whose size or declared length is not accepted; `None`
/// where both are.
pub open spec fn screened(frame: Seq<u8>, max_frame_bytes: nat) -> Option<Body> {
    if frame.len() > max_frame_bytes {
        Some(
            too_large_response(
                "frame size "@ + text::decimal(frame.len()) + " exceeds limit "@ + text::decimal(
                    max_frame_bytes,
                ),
            ),
        )
    } else if frame.len() >= HEADER_LEN && buffer::be32_value(frame) != frame.len() - 4 {
        Some(
            too_large_response(
                (Failure::FrameLengthMismatch {
                    declared: buffer::be32_value(frame),
                    actual: (frame.len() - 4) as nat,
                }).text(),
            ),
        )
    } else {
        None
    }
}

/// The reply to a packet of a source that is over a limit or banned: a request gets
/// a 503, an event an acknowledgement although no handler runs. Other packets are
/// dropped.
pub open spec fn busy_reply(body: Body) -> Option<Body> {
    match body {
        Body::ApiRequest { request_id, .. } => Some(
            Body::ApiResponse {
                request_id,
                ok: false,
                status: 503,
                data: empty_object(),
                error: Some(server_types::service_busy("service busy"@)),
                metadata: empty_object(),
            },
        ),
        Body::EventEmit { event_id, .. } => Some(
            Body::EventAck { event_id, ok: true, receipt: empty_object(), error: None },
        ),
        _ => None,
    }
}

/// A handler runs for the packet.
pub open spec fn spawns(body: Body) -> bool {
    body is ApiRequest || body is EventEmit
}

impl Server {
    /// The rate limiter counts the message: it is a binary one whose size and declared
    /// length are accepted.
    pub open spec fn counts(self, message: Incoming) -> bool {
        message matches Incoming::Binary(bytes) && screened(
            buffer::contents(bytes),
            self.max_frame_bytes as nat,
        ) is None
    }

    /// What the reader does with a message: `codec` is that of the connection,
    /// `verdict` that of the rate limiter on an accepted frame.
    pub open spec fn read_step(
        self,
        codec: Codec,
        connection_id: Seq<char>,
        message: Incoming,
        verdict: Verdict,
        step: ReaderStep,
    ) -> bool {
        match message {
            Incoming::Binary(bytes) => {
                let frame = buffer::contents(bytes);
                match screened(frame, self.max_frame_bytes as nat) {
                    Some(body) => step matches ReaderStep::Reply(packet) && packet@ == packet_of(
                        body,
                        self.default_encryption,
                    ),
                    None => match codec.decode(frame) {
                        Err(e) => step matches ReaderStep::Stop(Err(error)) && error@
                            == ServerFailure::Protocol(e),
                        Ok(received) => if verdict == Verdict::Allowed {
                            step matches ReaderStep::Process { packet, spawn } && packet@
                                == received && spawn == spawns(received.body)
                        } else {
                            match busy_reply(received.body) {
                                Some(body) => step matches ReaderStep::Reply(packet) && packet@
                                    == packet_of(body, self.default_encryption),
                                None => step is Ignore,
                            }
                        },
                    },
                }
            },
            Incoming::Ping(payload) => step matches ReaderStep::Pong(reply) && reply@ == payload@,
            Incoming::Text | Incoming::Pong | Incoming::Frame => step is Ignore,
            Incoming::Close | Incoming::End => step matches ReaderStep::Stop(Ok(_)),
            Incoming::TimedOut => step matches ReaderStep::Stop(Err(error)) && error@
                == ServerFailure::IdleTimeout(connection_id),
            Incoming::Failed(source) => step matches ReaderStep::Stop(Err(error)) && error@
                == ServerFailure::WebSocket(source@),
        }
    }
}

fn too_large_packet(message: &str, encryption: EncryptionKind) -> (packet: PacketEnvelope)
    ensures
        packet@ == packet_of(too_large_response(message@), encryption),
{
    PacketEnvelope::with_encryption(
        PacketBody::ApiResponse {
            request_id: 0,
            ok: false,
            status: 413,
            data: Json::empty_object(),
            error: Some(
                ErrorPayload {
                    code: "frame_too_large".to_owned(),
                    message: message.to_owned(),
                    status: 413,
                    details: None,
                },
            ),
            metadata: Json::empty_object(),
        },
        encryption,
    )
}

/// What a connection's writer does with an outbound message.
pub enum WriterStep {
    SendBinary(Bytes),
    SendPong(Vec<u8>),
    /// Sends a close message and stops.
    SendClose,
    /// Stops with the error.
    Fail(ServerError),
}

/// What is done next for a connection that has no session yet.
pub enum AuthStep {
    /// Has the authentication handler judge the credential.
    RunHandler(AuthContext),
    /// Queues a pong and reads on.
    Pong(Vec<u8>),
    /// Reads on.
    Ignore,
    /// Ends the connection.
    Stop(Result<(), ServerError>),
}

/// The connection is ended because it has not submitted a credential.
pub open spec fn is_unauthorized(step: AuthStep) -> bool {
    step matches AuthStep::Stop(Err(error)) && error@ == ServerFailure::Api(
        server_types::unauthorized("authentication required"@),
    )
}

/// What is done with a message of a connection that has no session yet.
pub open spec fn auth_step(
    codec: Codec,
    connection_id: Seq<char>,
    message: Incoming,
    step: AuthStep,
) -> bool {
    match message {
        Incoming::Binary(bytes) => match codec.decode_auth(buffer::contents(bytes)) {
            Ok(packet) => match packet.message {
                AuthInfo::AuthRequest { credential } => step matches AuthStep::RunHandler(ctx)
                    && ctx.credential@ == credential,
                AuthInfo::AuthResponse { .. } => is_unauthorized(step),
            },
            Err(Failure::MessageTypeMismatch) => is_unauthorized(step),
            Err(e) => step matches AuthStep::Stop(Err(error)) && error@ == ServerFailure::Protocol(
                e,
            ),
        },
        Incoming::Ping(payload) => step matches AuthStep::Pong(reply) && reply@ == payload@,
        Incoming::Text | Incoming::Pong | Incoming::Frame => step is Ignore,
        Incoming::Close | Incoming::End => step matches AuthStep::Stop(Ok(_)),
        Incoming::TimedOut => step matches AuthStep::Stop(Err(error)) && error@
            == ServerFailure::IdleTimeout(connection_id),
        Incoming::Failed(source) => step matches AuthStep::Stop(Err(error)) && error@
            == ServerFailure::WebSocket(source@),
    }
}

/// What starts a connection's handshake, as far as the server sees it.
pub enum FirstMessage {
    /// The first message is a binary one.
    Binary(Vec<u8>),
    /// Another message, an error or nothing came.
    Other,
}

impl WscallServer {
    /// The largest WebSocket message that is received: 1 MiB more than a frame, so
    /// that an oversized frame can still be answered.
    pub fn websocket_limit(&self) -> (max: usize)
        ensures
            max == if self@.max_frame_bytes + OVERSIZE_ALLOWANCE > usize::MAX {
                usize::MAX as int
            } else {
                self@.max_frame_bytes + OVERSIZE_ALLOWANCE
            },
    {
        self.max_frame_bytes.saturating_add(OVERSIZE_ALLOWANCE)
    }

    /// The codec of a connection that uses the pre-shared keys.
    pub fn shared_codec(&self) -> (codec: FrameCodec)
        ensures
            codec@ == (Codec {
                max_frame_bytes: self@.max_frame_bytes as nat,
                ..self@.codec
            }),
    {
        self.codec.clone().with_max_frame_bytes(self.max_frame_bytes)
    }

    /// The server's side of the X25519 handshake: from its keypair and the client's
    /// first message, the public key to send back and the connection's codec.
    pub fn perform_ecdh_handshake(&self, keypair: &EcdhKeypair, first: FirstMessage) -> (r: Result<
        ([u8; 32], FrameCodec),
        ServerError,
    >)
        ensures
            match first {
                FirstMessage::Binary(bytes) => if bytes@.len() == ecdh::ECDH_KEY_LEN {
                    r matches Ok((reply, codec)) && {
                        &&& reply@ == crypto::x25519_public(keypair.secret())
                        &&& codec@ == (Codec {
                            chacha20_key: Some(
                                ecdh::session_key(
                                    crypto::x25519_shared(keypair.secret(), bytes@),
                                ),
                            ),
                            max_frame_bytes: self@.max_frame_bytes as nat,
                            ..codec::default_codec()
                        })
                        &&& forall|other: Seq<u8>|
                            other.len() == 32 && bytes@ == #[trigger] crypto::x25519_public(other)
                                ==> codec@.chacha20_key == Some(
                                ecdh::session_key(crypto::x25519_shared(other, reply@)),
                            )
                    }
                } else {
                    r matches Err(e) && e@ == ServerFailure::Protocol(
                        Failure::EcdhHandshake("client sent invalid public key length"@),
                    )
                },
                FirstMessage::Other => r matches Err(e) && e@ == ServerFailure::Protocol(
                    Failure::EcdhHandshake("client did not send a valid public key"@),
                ),
            },
    {
        match first {
            FirstMessage::Binary(bytes) => match parse_peer_public(bytes.as_slice()) {
                Ok(client_public) => {
                    let key = keypair.derive_session_key(&client_public);
                    let codec = FrameCodec::plaintext().with_chacha20_key(key).with_max_frame_bytes(
                        self.max_frame_bytes,
                    );
                    Ok((keypair.public_bytes(), codec))
                },
                Err(_) => Err(
                    ServerError::Protocol(
                        ProtocolError::EcdhHandshake(
                            "client sent invalid public key length".to_owned(),
                        ),
                    ),
                ),
            },
            FirstMessage::Other => Err(
                ServerError::Protocol(
                    ProtocolError::EcdhHandshake(
                        "client did not send a valid public key".to_owned(),
                    ),
                ),
            ),
        }
    }

    /// The session of a connection that need not authenticate: it has the default
    /// idle timeout and no identity. `None` where a credential is to be judged first.
    pub fn open_session(&self) -> (r: Option<Session>)
        ensures
            match r {
                Some(session) => !self@.authenticates && session@ == (Grant {
                    idle_nanos: SERVER_IDLE_TIMEOUT_SECS as nat * time::NANOS_PER_SEC as nat,
                    context: None,
                }),
                None => self@.authenticates,
            },
    {
        if self.authenticates {
            None
        } else {
            Some(
                Session {
                    idle_timeout: Duration::from_secs(SERVER_IDLE_TIMEOUT_SECS),
                    context: None,
                },
            )
        }
    }

    /// Decides what is done with a message of a connection that has no session yet:
    /// only a credential gets it on.
    pub fn auth_step(codec: &FrameCodec, connection_id: &str, message: Incoming) -> (step: AuthStep)
        ensures
            auth_step(codec@, connection_id@, message, step),
    {
        match message {
            Incoming::Binary(bytes) => match codec.decode_auth(bytes) {
                Ok(packet) => match packet.message {
                    AuthMessage::AuthRequest { credential } => {
                        AuthStep::RunHandler(AuthContext { credential })
                    },
                    AuthMessage::AuthResponse { .. } => Self::unauthorized(),
                },
                Err(ProtocolError::MessageTypeMismatch) => Self::unauthorized(),
                Err(e) => AuthStep::Stop(Err(ServerError::Protocol(e))),
            },
            Incoming::Ping(payload) => AuthStep::Pong(payload),
            Incoming::Text => AuthStep::Ignore,
            Incoming::Pong => AuthStep::Ignore,
            Incoming::Frame => AuthStep::Ignore,
            Incoming::Close => AuthStep::Stop(Ok(())),
            Incoming::End => AuthStep::Stop(Ok(())),
            Incoming::TimedOut => AuthStep::Stop(
                Err(ServerError::IdleTimeout(connection_id.to_owned())),
            ),
            Incoming::Failed(source) => AuthStep::Stop(Err(ServerError::WebSocket(source))),
        }
    }

    fn unauthorized() -> (step: AuthStep)
        ensures
            is_unauthorized(step),
    {
        AuthStep::Stop(
            Err(ServerError::Api(ApiError::unauthorized("authentication required"))),
        )
    }

    /// Goes on when the authentication handler has judged a credential: the answer to
    /// send, and the session where the credential is accepted. Without a session the
    /// connection is closed.
    pub fn auth_done(&self, result: Result<AuthOutput, ApiError>) -> (next: (
        AuthPacket,
        Option<Session>,
    ))
        ensures
            match result {
                Ok(output) => {
                    &&& next.0@ == auth::auth_accepted(self@.default_encryption)
                    &&& next.1 matches Some(session) && session@ == granted(output)
                },
                Err(error) => {
                    &&& next.0@ == auth::auth_refused(error@, self@.default_encryption)
                    &&& next.1 is None
                },
            },
    {
        match result {
            Ok(output) => {
                let packet = AuthPacket {
                    encryption: self.default_encryption,
                    message: AuthMessage::AuthResponse { ok: true, error: None },
                };
                let idle_timeout = output.idle_timeout();
                (packet, Some(Session { idle_timeout, context: output.context }))
            },
            Err(error) => {
                let packet = AuthPacket {
                    encryption: self.default_encryption,
                    message: AuthMessage::AuthResponse {
                        ok: false,
                        error: Some(error.into_payload()),
                    },
                };
                (packet, None)
            },
        }
    }

    /// Checks a frame's size and declared length before any other work: the packet
    /// to answer with, where the frame is not accepted.
    pub fn screen(&self, frame: &[u8]) -> (r: Option<PacketEnvelope>)
        ensures
            match screened(frame@, self@.max_frame_bytes as nat) {
                Some(body) => r matches Some(packet) && packet@ == packet_of(
                    body,
                    self@.default_encryption,
                ),
                None => r is None,
            },
    {
        if frame.len() > self.max_frame_bytes {
            let mut message = join("frame size ", decimal_text(frame.len() as u128).as_str());
            message.append(" exceeds limit ");
            message.append(decimal_text(self.max_frame_bytes as u128).as_str());
            return Some(too_large_packet(message.as_str(), self.default_encryption));
        }
        if frame.len() >= HEADER_LEN {
            let declared: usize = be32_at(frame, 0) as usize;
            let actual: usize = frame.len() - 4;
            proof {
                assert(declared == buffer::be32_value(frame@));
            }
            if declared != actual {
                let mismatch = ProtocolError::FrameLengthMismatch { declared, actual };
                return Some(too_large_packet(mismatch.message().as_str(), self.default_encryption));
            }
        }
        None
    }

    /// Whether the rate limiter counts a message: it counts the binary messages that
    /// [`WscallServer::screen`] lets pass.
    pub fn counted(&self, message: &Incoming) -> (r: bool)
        ensures
            r == self@.counts(*message),
    {
        match message {
            Incoming::Binary(bytes) => self.screen(as_slice(bytes)).is_none(),
            _ => false,
        }
    }

    /// The reply to a packet of a source that is over a limit or banned.
    fn busy_packet(&self, body: &PacketBody) -> (r: Option<PacketEnvelope>)
        ensures
            match busy_reply(body@) {
                Some(reply) => r matches Some(packet) && packet@ == packet_of(
                    reply,
                    self@.default_encryption,
                ),
                None => r is None,
            },
    {
        let reply = match body {
            PacketBody::ApiRequest { request_id, .. } => PacketBody::ApiResponse {
                request_id: *request_id,
                ok: false,
                status: 503,
                data: Json::empty_object(),
                error: Some(ApiError::new("service_busy", "service busy", 503).into_payload()),
                metadata: Json::empty_object(),
            },
            PacketBody::EventEmit { event_id, .. } => PacketBody::EventAck {
                event_id: *event_id,
                ok: true,
                receipt: Json::empty_object(),
                error: None,
            },
            _ => return None,
        };
        Some(PacketEnvelope::with_encryption(reply, self.default_encryption))
    }

    /// Decides what a connection's reader does with a message. The rate limiter's
    /// verdict counts only for a message that is [`WscallServer::counted`].
    pub fn read_step(
        &self,
        codec: &FrameCodec,
        connection_id: &str,
        message: Incoming,
        verdict: Verdict,
    ) -> (step: ReaderStep)
        ensures
            self@.read_step(codec@, connection_id@, message, verdict, step),
    {
        match message {
            Incoming::Binary(bytes) => {
                if let Some(reply) = self.screen(as_slice(&bytes)) {
                    return ReaderStep::Reply(reply);
                }
                let packet = match codec.decode(bytes) {
                    Ok(packet) => packet,
                    Err(e) => return ReaderStep::Stop(Err(ServerError::Protocol(e))),
                };
                if verdict != Verdict::Allowed {
                    return match self.busy_packet(&packet.body) {
                        Some(reply) => ReaderStep::Reply(reply),
                        None => ReaderStep::Ignore,
                    };
                }
                let spawn = match &packet.body {
                    PacketBody::ApiRequest { .. } => true,
                    PacketBody::EventEmit { .. } => true,
                    _ => false,
                };
                ReaderStep::Process { packet, spawn }
            },
            Incoming::Ping(payload) => ReaderStep::Pong(payload),
            Incoming::Text => ReaderStep::Ignore,
            Incoming::Pong => ReaderStep::Ignore,
            Incoming::Frame => ReaderStep::Ignore,
            Incoming::Close => ReaderStep::Stop(Ok(())),
            Incoming::End => ReaderStep::Stop(Ok(())),
            Incoming::TimedOut => ReaderStep::Stop(
                Err(ServerError::IdleTimeout(connection_id.to_owned())),
            ),
            Incoming::Failed(source) => ReaderStep::Stop(Err(ServerError::WebSocket(source))),
        }
    }

    /// Decides what a connection's writer does with an outbound message.
    pub fn write_step(codec: &FrameCodec, outbound: ServerOutbound) -> (step: WriterStep)
        ensures
            match outbound {
                ServerOutbound::PreEncoded(bytes) => step == WriterStep::SendBinary(bytes),
                ServerOutbound::Packet(packet) => match step {
                    WriterStep::SendBinary(bytes) => {
                        &&& codec@.encodes_to(packet@, buffer::contents(bytes))
                        &&& codec::round_trips(codec@, packet@, buffer::contents(bytes))
                    },
                    WriterStep::Fail(error) => error@ matches ServerFailure::Protocol(e)
                        && codec@.refuses_with(packet@, e) && (codec@.has_room_for(packet@)
                        ==> e is Random),
                    _ => false,
                },
                ServerOutbound::Pong(payload) => step == WriterStep::SendPong(payload),
                ServerOutbound::Close => step is SendClose,
            },
    {
        match outbound {
            ServerOutbound::PreEncoded(bytes) => WriterStep::SendBinary(bytes),
            ServerOutbound::Packet(packet) => match codec.encode(&packet) {
                Ok(bytes) => WriterStep::SendBinary(from_vec(bytes)),
                Err(e) => WriterStep::Fail(ServerError::Protocol(e)),
            },
            ServerOutbound::Pong(payload) => WriterStep::SendPong(payload),
            ServerOutbound::Close => WriterStep::SendClose,
        }
    }

    /// Prepares a packet for a connection.
    pub fn queue_for(
        &self,
        connection_id: &str,
        packet: PacketEnvelope,
    ) -> (r: Result<ServerOutbound, ServerError>)
        ensures
            match r {
                Ok(outbound) => self@.clients.contains(connection_id@) && carries(
                    outbound,
                    self@.codec,
                    self@.is_ecdh,
                    packet@,
                ),
                Err(error) => if !self@.clients.contains(connection_id@) {
                    error@ == ServerFailure::Api(server_types::not_found("connection is closed"@))
                } else {
                    !self@.is_ecdh && (error@ matches ServerFailure::Protocol(e)
                        && self@.codec.refuses_with(packet@, e) && (self@.codec.has_room_for(
                        packet@,
                    ) ==> e is Random))
                },
            },
            self@.clients.contains(connection_id@) && self@.is_ecdh ==> r is Ok,
            self@.clients.contains(connection_id@) && self@.codec.has_room_for(packet@)
                && !self@.codec.needs_nonce(packet@) ==> r is Ok,
    {
        if !self.handle.is_live(connection_id) {
            return Err(ServerError::Api(ApiError::not_found("connection is closed")));
        }
        match prepare(&self.codec, self.is_ecdh, packet) {
            Ok(outbound) => Ok(outbound),
            Err(e) => Err(ServerError::Protocol(e)),
        }
    }

    /// The outcome of queueing a packet, given whether the connection's queue took
    /// it.
    pub fn queue_outcome(queued: bool) -> (r: Result<(), ServerError>)
        ensures
            match r {
                Ok(_) => queued,
                Err(e) => !queued && e@ == ServerFailure::Api(
                    server_types::internal("failed to queue outbound packet"@),
                ),
            },
    {
        if queued {
            Ok(())
        } else {
            Err(ServerError::Api(ApiError::internal("failed to queue outbound packet")))
        }
    }

    /// The reason that the handlers of ended connections are given.
    pub fn disconnect_reason(result: &Result<(), ServerError>) -> (reason: String)
        ensures
            reason@ == match result {
                Ok(_) => "connection closed"@,
                Err(e) => match e@ {
                    ServerFailure::IdleTimeout(_) => "idle timeout"@,
                    other => other.text(),
                },
            },
    {
        match result {
            Ok(()) => "connection closed".to_owned(),
            Err(ServerError::IdleTimeout(_)) => "idle timeout".to_owned(),
            Err(e) => e.message(),
        }
    }
}

/// A request on its way through the filters to its handler.
pub struct ApiRun {
    pub connection_id: String,
    pub request_id: u64,
    /// The route that the client asked for.
    pub route: String,
    /// How many filters have been started.
    pub filters_run: usize,
    /// The status of the response.
    pub status: u16,
}

/// What an [`ApiRun`] holds.
pub struct RequestRun {
    pub connection_id: Seq<char>,
    pub request_id: u64,
    pub route: Seq<char>,
    pub filters_run: nat,
    pub status: u16,
}

impl View for ApiRun {
    type V = RequestRun;

    open spec fn view(&self) -> RequestRun {
        RequestRun {
            connection_id: self.connection_id@,
            request_id: self.request_id,
            route: self.route@,
            filters_run: self.filters_run as nat,
            status: self.status,
        }
    }
}

/// What is done next for a request.
pub enum ApiStep {
    /// Runs the filter at a place on the context.
    RunFilter(usize, ApiContext),
    /// Runs the handler at a place on the context.
    RunHandler(usize, ApiContext),
    /// Has the exception handler turn an error into a payload.
    MapException(ExceptionContext),
    /// Sends the response; the request is done.
    Respond(PacketEnvelope),
}

/// What an [`ApiStep`] says.
pub enum RequestStep {
    Filter(nat, Request),
    Handler(nat, Request),
    MapException(Exception),
    Respond(Packet),
}

impl View for ApiStep {
    type V = RequestStep;

    open spec fn view(&self) -> RequestStep {
        match self {
            ApiStep::RunFilter(place, ctx) => RequestStep::Filter(*place as nat, ctx@),
            ApiStep::RunHandler(place, ctx) => RequestStep::Handler(*place as nat, ctx@),
            ApiStep::MapException(ctx) => RequestStep::MapException(ctx@),
            ApiStep::Respond(packet) => RequestStep::Respond(packet@),
        }
    }
}

/// How a handler has ended.
pub enum Outcome {
    Done(Json),
    Failed(ApiError),
    Panicked,
}

/// The response to a request that succeeded.
pub open spec fn success_response(request_id: u64, data: Tree) -> Body {
    Body::ApiResponse {
        request_id,
        ok: true,
        status: 200,
        data,
        error: None,
        metadata: empty_object(),
    }
}

/// The response to a request that failed.
pub open spec fn failure_response(request_id: u64, status: u16, error: ErrorInfo) -> Body {
    Body::ApiResponse {
        request_id,
        ok: false,
        status,
        data: empty_object(),
        error: Some(error),
        metadata: empty_object(),
    }
}

impl Server {
    /// A request fails: the exception handler turns the error into a payload, or the
    /// error itself is the payload. The response keeps the error's status.
    pub open spec fn api_fail(self, run: RequestRun, error: ErrorInfo) -> (
        RequestRun,
        RequestStep,
    ) {
        let run = RequestRun { status: error.status, ..run };
        (
            run,
            if self.maps_exceptions {
                RequestStep::MapException(
                    Exception {
                        connection_id: run.connection_id,
                        request_id: Some(run.request_id),
                        target: run.route,
                        message_kind: "api"@,
                        error,
                    },
                )
            } else {
                RequestStep::Respond(
                    packet_of(
                        failure_response(run.request_id, run.status, error),
                        self.default_encryption,
                    ),
                )
            },
        )
    }

    /// A request goes on: to the next filter, then to the handler of the context's
    /// route; it fails where there is none.
    pub open spec fn api_advance(self, run: RequestRun, request: Request, next: (
        RequestRun,
        RequestStep,
    )) -> bool {
        if run.filters_run < self.filters {
            next == (
                RequestRun { filters_run: run.filters_run + 1, ..run },
                RequestStep::Filter(run.filters_run, request),
            )
        } else if self.routes.contains(request.route) {
            &&& next.0 == run
            &&& next.1 matches RequestStep::Handler(place, ctx) && ctx == request && place
                < self.routes.len() && self.routes[place as int] == request.route
        } else {
            next == self.api_fail(run, server_types::not_found("route not found"@))
        }
    }

    /// A handler has ended.
    pub open spec fn api_handled(self, run: RequestRun, outcome: Outcome) -> (
        RequestRun,
        RequestStep,
    ) {
        match outcome {
            Outcome::Done(data) => (
                run,
                RequestStep::Respond(
                    packet_of(
                        success_response(run.request_id, data@),
                        self.default_encryption,
                    ),
                ),
            ),
            Outcome::Failed(error) => self.api_fail(run, error@),
            Outcome::Panicked => self.api_fail(run, server_types::internal("handler panicked"@)),
        }
    }

    /// The response once the exception handler has turned the error into a payload.
    pub open spec fn api_mapped(self, run: RequestRun, payload: ErrorInfo) -> Packet {
        packet_of(
            failure_response(run.request_id, run.status, payload),
            self.default_encryption,
        )
    }
}

/// An event on its way through its handler.
pub struct EventRun {
    pub connection_id: String,
    pub event_id: u64,
    pub name: String,
}

/// What is done next for an event.
pub enum EventStep {
    /// Runs the handler at a place on the context.
    RunHandler(usize, EventContext),
    /// Has the exception handler turn an error into a payload.
    MapException(ExceptionContext),
    /// Sends the acknowledgement; the event is done.
    Respond(PacketEnvelope),
}

/// What an [`EventStep`] says.
pub enum EmissionStep {
    Handler(nat, Emission),
    MapException(Exception),
    Respond(Packet),
}

impl View for EventStep {
    type V = EmissionStep;

    open spec fn view(&self) -> EmissionStep {
        match self {
            EventStep::RunHandler(place, ctx) => EmissionStep::Handler(*place as nat, ctx@),
            EventStep::MapException(ctx) => EmissionStep::MapException(ctx@),
            EventStep::Respond(packet) => EmissionStep::Respond(packet@),
        }
    }
}

/// The acknowledgement of an event that was handled.
pub open spec fn success_ack(event_id: u64, receipt: Tree) -> Body {
    Body::EventAck { event_id, ok: true, receipt, error: None }
}

/// The acknowledgement of an event that was not handled.
pub open spec fn failure_ack(event_id: u64, error: ErrorInfo) -> Body {
    Body::EventAck { event_id, ok: false, receipt: empty_object(), error: Some(error) }
}

impl Server {
    /// An event fails in its handler.
    pub open spec fn event_fail(self, run: EventRun, error: ErrorInfo) -> EmissionStep {
        if self.maps_exceptions {
            EmissionStep::MapException(
                Exception {
                    connection_id: run.connection_id@,
                    request_id: Some(run.event_id),
                    target: run.name@,
                    message_kind: "event"@,
                    error,
                },
            )
        } else {
            EmissionStep::Respond(
                packet_of(failure_ack(run.event_id, error), self.default_encryption),
            )
        }
    }

    /// An event starts: with its handler, or with a negative acknowledgement where
    /// there is none.
    pub open spec fn event_start(self, event: Emission, step: EmissionStep) -> bool {
        if self.event_handlers.contains(event.name) {
            step matches EmissionStep::Handler(place, ctx) && ctx == event && place
                < self.event_handlers.len() && self.event_handlers[place as int] == event.name
        } else {
            step == EmissionStep::Respond(
                packet_of(
                    failure_ack(
                        event.event_id,
                        server_types::not_found("event handler not found"@),
                    ),
                    self.default_encryption,
                ),
            )
        }
    }

    /// An event's handler has ended.
    pub open spec fn event_handled(self, run: EventRun, outcome: Outcome) -> EmissionStep {
        match outcome {
            Outcome::Done(receipt) => EmissionStep::Respond(
                packet_of(success_ack(run.event_id, receipt@), self.default_encryption),
            ),
            Outcome::Failed(error) => self.event_fail(run, error@),
            Outcome::Panicked => self.event_fail(
                run,
                server_types::internal("event handler panicked"@),
            ),
        }
    }
}

/// What a packet leads to.
pub enum Job {
    Request(ApiRun, ApiStep),
    Event(EventRun, EventStep),
    /// Acknowledgements and responses of clients need nothing more.
    Nothing,
}

impl WscallServer {
    fn api_fail(&self, run: ApiRun, error: ApiError) -> (next: (ApiRun, ApiStep))
        ensures
            (next.0@, next.1@) == self@.api_fail(run@, error@),
    {
        let status: u16 = error.status;
        let step = if self.maps_exceptions {
            ApiStep::MapException(
                ExceptionContext {
                    connection_id: run.connection_id.clone(),
                    request_id: Some(run.request_id),
                    target: run.route.clone(),
                    message_kind: "api",
                    error,
                },
            )
        } else {
            ApiStep::Respond(
                self.api_error_packet(run.request_id, status, error.into_payload()),
            )
        };
        (ApiRun { status, ..run }, step)
    }

    /// The response to a request that failed.
    pub fn api_error_packet(&self, request_id: u64, status: u16, payload: ErrorPayload) -> (packet:
        PacketEnvelope)
        ensures
            packet@ == packet_of(
                failure_response(request_id, status, payload@),
                self@.default_encryption,
            ),
    {
        PacketEnvelope::with_encryption(
            PacketBody::ApiResponse {
                request_id,
                ok: false,
                status,
                data: Json::empty_object(),
                error: Some(payload),
                metadata: Json::empty_object(),
            },
            self.default_encryption,
        )
    }

    fn api_advance(&self, run: ApiRun, ctx: ApiContext) -> (next: (ApiRun, ApiStep))
        ensures
            self@.has_unique_names(),
            self@.api_advance(run@, ctx@, (next.0@, next.1@)),
    {
        proof {
            use_type_invariant(&self.routes);
            use_type_invariant(&self.event_handlers);
        }
        let place: usize = run.filters_run;
        if place < self.filters {
            return (ApiRun { filters_run: place + 1, ..run }, ApiStep::RunFilter(place, ctx));
        }
        match self.routes.place_of(ctx.route.as_str()) {
            Some(place) => {
                proof {
                    assert(self@.routes.contains(ctx.route@));
                }
                (run, ApiStep::RunHandler(place, ctx))
            },
            None => self.api_fail(run, ApiError::not_found("route not found")),
        }
    }

    /// Starts a request.
    pub fn start_request(&self, ctx: ApiContext) -> (next: (ApiRun, ApiStep))
        ensures
            self@.has_unique_names(),
            self@.api_advance(
                RequestRun {
                    connection_id: ctx@.connection_id,
                    request_id: ctx@.request_id,
                    route: ctx@.route,
                    filters_run: 0,
                    status: 200,
                },
                ctx@,
                (next.0@, next.1@),
            ),
    {
        let run = ApiRun {
            connection_id: ctx.connection_id.clone(),
            request_id: ctx.request_id,
            route: ctx.route.clone(),
            filters_run: 0,
            status: 200,
        };
        self.api_advance(run, ctx)
    }

    /// Goes on with a request when a filter has passed or rejected it.
    pub fn filter_done(&self, run: ApiRun, result: Result<ApiContext, ApiError>) -> (next: (
        ApiRun,
        ApiStep,
    ))
        ensures
            result is Ok ==> self@.has_unique_names(),
            match result {
                Ok(ctx) => self@.api_advance(run@, ctx@, (next.0@, next.1@)),
                Err(error) => (next.0@, next.1@) == self@.api_fail(run@, error@),
            },
    {
        match result {
            Ok(ctx) => self.api_advance(run, ctx),
            Err(error) => self.api_fail(run, error),
        }
    }

    /// Goes on with a request when its handler has ended.
    pub fn handler_done(&self, run: ApiRun, outcome: Outcome) -> (next: (ApiRun, ApiStep))
        ensures
            (next.0@, next.1@) == self@.api_handled(run@, outcome),
    {
        match outcome {
            Outcome::Done(data) => {
                let packet = PacketEnvelope::with_encryption(
                    PacketBody::ApiResponse {
                        request_id: run.request_id,
                        ok: true,
                        status: 200,
                        data,
                        error: None,
                        metadata: Json::empty_object(),
                    },
                    self.default_encryption,
                );
                (run, ApiStep::Respond(packet))
            },
            Outcome::Failed(error) => self.api_fail(run, error),
            Outcome::Panicked => self.api_fail(run, ApiError::internal("handler panicked")),
        }
    }

    /// The response when the exception handler has turned an error into a payload.
    pub fn exception_mapped(&self, run: ApiRun, payload: ErrorPayload) -> (packet: PacketEnvelope)
        ensures
            packet@ == self@.api_mapped(run@, payload@),
    {
        self.api_error_packet(run.request_id, run.status, payload)
    }

    fn failure_ack_packet(&self, event_id: u64, payload: ErrorPayload) -> (packet: PacketEnvelope)
        ensures
            packet@ == packet_of(failure_ack(event_id, payload@), self@.default_encryption),
    {
        PacketEnvelope::with_encryption(
            PacketBody::EventAck {
                event_id,
                ok: false,
                receipt: Json::empty_object(),
                error: Some(payload),
            },
            self.default_encryption,
        )
    }

    fn event_fail(&self, run: &EventRun, error: ApiError) -> (step: EventStep)
        ensures
            step@ == self@.event_fail(*run, error@),
    {
        if self.maps_exceptions {
            EventStep::MapException(
                ExceptionContext {
                    connection_id: run.connection_id.clone(),
                    request_id: Some(run.event_id),
                    target: run.name.clone(),
                    message_kind: "event",
                    error,
                },
            )
        } else {
            EventStep::Respond(self.failure_ack_packet(run.event_id, error.into_payload()))
        }
    }

    /// Starts an event.
    pub fn start_event(&self, ctx: EventContext) -> (next: (EventRun, EventStep))
        ensures
            self@.has_unique_names(),
            next.0.connection_id@ == ctx@.connection_id,
            next.0.event_id == ctx@.event_id,
            next.0.name@ == ctx@.name,
            self@.event_start(ctx@, next.1@),
    {
        proof {
            use_type_invariant(&self.routes);
            use_type_invariant(&self.event_handlers);
        }
        let run = EventRun {
            connection_id: ctx.connection_id.clone(),
            event_id: ctx.event_id,
            name: ctx.name.clone(),
        };
        match self.event_handlers.place_of(ctx.name.as_str()) {
            Some(place) => {
                proof {
                    assert(self@.event_handlers.contains(ctx.name@));
                }
                (run, EventStep::RunHandler(place, ctx))
            },
            None => {
                let payload = ApiError::not_found("event handler not found").into_payload();
                let packet = self.failure_ack_packet(run.event_id, payload);
                (run, EventStep::Respond(packet))
            },
        }
    }

    /// Goes on with an event when its handler has ended.
    pub fn event_handler_done(&self, run: &EventRun, outcome: Outcome) -> (step: EventStep)
        ensures
            step@ == self@.event_handled(*run, outcome),
    {
        match outcome {
            Outcome::Done(receipt) => {
                let packet = PacketEnvelope::with_encryption(
                    PacketBody::EventAck {
                        event_id: run.event_id,
                        ok: true,
                        receipt,
                        error: None,
                    },
                    self.default_encryption,
                );
                EventStep::Respond(packet)
            },
            Outcome::Failed(error) => self.event_fail(run, error),
            Outcome::Panicked => self.event_fail(run, ApiError::internal("event handler panicked")),
        }
    }

    /// The acknowledgement when the exception handler has turned an error into a
    /// payload.
    pub fn event_exception_mapped(&self, run: &EventRun, payload: ErrorPayload) -> (packet:
        PacketEnvelope)
        ensures
            packet@ == packet_of(failure_ack(run.event_id, payload@), self@.default_encryption),
    {
        self.failure_ack_packet(run.event_id, payload)
    }

    /// Turns a packet of a connection that has a session into a job: a request or an
    /// event starts, other packets need nothing more.
    pub fn process_packet(
        &self,
        session: &Session,
        connection_id: &str,
        peer_addr: Option<PeerAddr>,
        packet: PacketEnvelope,
    ) -> (job: Job)
        ensures
            match packet@.body {
                Body::ApiRequest { request_id, route, params, attachments, metadata } => {
                    job matches Job::Request(run, step) && self@.api_advance(
                        RequestRun {
                            connection_id: connection_id@,
                            request_id,
                            route,
                            filters_run: 0,
                            status: 200,
                        },
                        Request {
                            connection_id: connection_id@,
                            peer_addr: server_types::peer_view(peer_addr),
                            request_id,
                            route,
                            params,
                            attachments,
                            metadata,
                            auth: session@.context,
                        },
                        (run@, step@),
                    )
                },
                Body::EventEmit { event_id, name, data, attachments, metadata, .. } => {
                    job matches Job::Event(run, step) && run.connection_id@ == connection_id@
                        && run.event_id == event_id && run.name@ == name && self@.event_start(
                        Emission {
                            connection_id: connection_id@,
                            peer_addr: server_types::peer_view(peer_addr),
                            event_id,
                            name,
                            data,
                            attachments,
                            metadata,
                            auth: session@.context,
                        },
                        step@,
                    )
                },
                _ => job is Nothing,
            },
            !(job is Nothing) ==> self@.has_unique_names(),
    {
        match packet.body {
            PacketBody::ApiRequest { request_id, route, params, attachments, metadata } => {
                let (run, step) = self.start_request(
                    ApiContext {
                        connection_id: connection_id.to_owned(),
                        peer_addr,
                        request_id,
                        route,
                        params,
                        attachments,
                        metadata,
                        auth: clone_map(&session.context),
                    },
                );
                Job::Request(run, step)
            },
            PacketBody::EventEmit { event_id, name, data, attachments, metadata, .. } => {
                let (run, step) = self.start_event(
                    EventContext {
                        connection_id: connection_id.to_owned(),
                        peer_addr,
                        event_id,
                        name,
                        data,
                        attachments,
                        metadata,
                        auth: clone_map(&session.context),
                    },
                );
                Job::Event(run, step)
            },
            _ => Job::Nothing,
        }
    }
}

/// The step answers the request with this id, if it answers at all.
pub open spec fn answers(step: RequestStep, request_id: u64) -> bool {
    step matches RequestStep::Respond(packet) ==> {
        &&& packet.message_type == packet.body.message_type()
        &&& packet.body matches Body::ApiResponse { request_id: id, .. } && id == request_id
    }
}

/// Whatever its filters, its handler and the exception handler do, a request is
/// answered with a response that has its id.
pub proof fn lemma_request_is_answered_by_id(
    server: Server,
    run: RequestRun,
    request: Request,
    next: (RequestRun, RequestStep),
    error: ErrorInfo,
    outcome: Outcome,
    payload: ErrorInfo,
)
    requires
        server.api_advance(run, request, next),
    ensures
        next.0.request_id == run.request_id,
        answers(next.1, run.request_id),
        server.api_fail(run, error).0.request_id == run.request_id,
        answers(server.api_fail(run, error).1, run.request_id),
        server.api_handled(run, outcome).0.request_id == run.request_id,
        answers(server.api_handled(run, outcome).1, run.request_id),
        answers(RequestStep::Respond(server.api_mapped(run, payload)), run.request_id),
{
}

/// Registering a name gives it a place and moves no other: the names that were known
/// keep their places, and still no name occurs twice.
pub proof fn lemma_registration_keeps_places(known: Seq<Seq<char>>, name: Seq<char>)
    requires
        known.no_duplicates(),
    ensures
        with_name(known, name).no_duplicates(),
        with_name(known, name).contains(name),
        known.is_prefix_of(with_name(known, name)),
{
    if !known.contains(name) {
        assert(known.push(name)[known.len() as int] == name);
    }
}

/// The place that registration gave a route is the place that is run for a request
/// with that route, whatever was registered since.
pub proof fn lemma_registered_route_is_run(
    registered: Server,
    place: int,
    server: Server,
    run: RequestRun,
    request: Request,
    next: (RequestRun, RequestStep),
)
    requires
        0 <= place < registered.routes.len(),
        registered.routes[place] == request.route,
        registered.routes.is_prefix_of(server.routes),
        server.has_unique_names(),
        run.filters_run >= server.filters,
        server.api_advance(run, request, next),
    ensures
        next.1 matches RequestStep::Handler(run_place, ctx) && run_place == place && ctx
            == request,
{
    assert(server.routes[place] == registered.routes[place]);
}

/// The place that registration gave an event handler is the place that is run for an
/// event of that name, whatever was registered since.
pub proof fn lemma_registered_event_handler_is_run(
    registered: Server,
    place: int,
    server: Server,
    event: Emission,
    step: EmissionStep,
)
    requires
        0 <= place < registered.event_handlers.len(),
        registered.event_handlers[place] == event.name,
        registered.event_handlers.is_prefix_of(server.event_handlers),
        server.has_unique_names(),
        server.event_start(event, step),
    ensures
        step matches EmissionStep::Handler(run_place, ctx) && run_place == place && ctx == event,
{
    assert(server.event_handlers[place] == registered.event_handlers[place]);
}

/// Filters run one after the other in the order of their places, each at most once,
/// and the handler runs only after the last of them.
pub proof fn lemma_filters_run_in_order(
    server: Server,
    run: RequestRun,
    request: Request,
    next: (RequestRun, RequestStep),
)
    requires
        server.api_advance(run, request, next),
    ensures
        next.1 matches RequestStep::Filter(place, _) ==> place == run.filters_run && place
            < server.filters && next.0.filters_run == place + 1,
        next.1 is Handler ==> run.filters_run >= server.filters,
{
}

/// An error response has the status of the error, with and without an exception
/// handler.
pub proof fn lemma_error_keeps_its_status(
    server: Server,
    run: RequestRun,
    error: ErrorInfo,
    payload: ErrorInfo,
)
    ensures
        server.api_fail(run, error).1 matches RequestStep::Respond(packet) ==> (packet.body matches
            Body::ApiResponse { ok, status, .. } && !ok && status == error.status),
        server.api_mapped(server.api_fail(run, error).0, payload).body matches Body::ApiResponse {
            ok,
            status,
            ..
        } && !ok && status == error.status,
{
}

/// A frame that is too large, or whose declared length is not its own, is answered
/// with a 413 that names no request, and the connection goes on.
pub proof fn lemma_rejected_frame_keeps_connection(
    server: Server,
    codec: Codec,
    connection_id: Seq<char>,
    bytes: Bytes,
    verdict: Verdict,
    step: ReaderStep,
)
    requires
        server.read_step(codec, connection_id, Incoming::Binary(bytes), verdict, step),
        ({
            let frame = buffer::contents(bytes);
            frame.len() > server.max_frame_bytes || (frame.len() >= HEADER_LEN
                && buffer::be32_value(frame) != frame.len() - 4)
        }),
    ensures
        step matches ReaderStep::Reply(packet) && (packet@.body matches Body::ApiResponse {
            request_id,
            ok,
            status,
            error,
            ..
        } && request_id == 0 && !ok && status == 413 && (error matches Some(e) && e.code
            == "frame_too_large"@)),
{
}

/// No handler runs for a packet of a source that is over a limit or banned.
pub proof fn lemma_limited_packet_is_not_processed(
    server: Server,
    codec: Codec,
    connection_id: Seq<char>,
    bytes: Bytes,
    verdict: Verdict,
    step: ReaderStep,
)
    requires
        server.read_step(codec, connection_id, Incoming::Binary(bytes), verdict, step),
        verdict != Verdict::Allowed,
    ensures
        !(step is Process),
{
}

} // verus!
