//! Configuration, events and errors of the client.
use crate::attachment;
use crate::attachment::{Attachment, FileAttachment};
use crate::codec;
use crate::codec::{Codec, FrameCodec};
use crate::error::{Failure, ProtocolError};
use crate::json::{Json, JsonMap, Tree};
use crate::packet::{clone_attachments, EncryptionKind, ErrorInfo, ErrorPayload, PacketEnvelope};
use crate::text;
use crate::text::join;
use std::time::Duration;
use vstd::prelude::*;

verus! {

/// What the client's writer is to send.
pub enum ClientOutbound {
    Packet(PacketEnvelope),
    Ping(Vec<u8>),
    Pong(Vec<u8>),
    Close,
}

/// Configuration for establishing a client connection.
///
/// The default is ECDH dynamic key agreement with ChaCha20-Poly1305 and automatic
/// reconnection.
pub struct WscallClientConfig {
    /// Frame codec carrying encryption keys and size limits.
    pub codec: FrameCodec,
    /// Encryption mode applied to outbound frames.
    pub default_encryption: EncryptionKind,
    /// Whether the client reconnects after an unexpected disconnect.
    pub auto_reconnect: bool,
    /// Whether to perform an X25519 handshake on connect. Then the `codec` field is
    /// ignored for key material; a fresh session key is negotiated per connection.
    pub use_ecdh: bool,
    /// Failover server URLs tried in order when the primary URL is unreachable.
    pub failover_urls: Vec<String>,
    /// Optional credential string submitted to the server during the handshake.
    pub credential: Option<String>,
}

/// What a [`WscallClientConfig`] holds.
pub struct ClientSetup {
    pub codec: Codec,
    pub default_encryption: EncryptionKind,
    pub auto_reconnect: bool,
    pub use_ecdh: bool,
    pub failover_urls: Seq<Seq<char>>,
    pub credential: Option<Seq<char>>,
}

impl View for WscallClientConfig {
    type V = ClientSetup;

    open spec fn view(&self) -> ClientSetup {
        ClientSetup {
            codec: self.codec@,
            default_encryption: self.default_encryption,
            auto_reconnect: self.auto_reconnect,
            use_ecdh: self.use_ecdh,
            failover_urls: text::views(self.failover_urls@),
            credential: match self.credential {
                Some(credential) => Some(credential@),
                None => None,
            },
        }
    }
}

/// The setup without failover URLs and credential.
pub open spec fn basic_setup(
    codec: Codec,
    default_encryption: EncryptionKind,
    use_ecdh: bool,
) -> ClientSetup {
    ClientSetup {
        codec,
        default_encryption,
        auto_reconnect: true,
        use_ecdh,
        failover_urls: Seq::empty(),
        credential: None,
    }
}

/// The default setup.
pub open spec fn ecdh_setup() -> ClientSetup {
    basic_setup(codec::default_codec(), EncryptionKind::ChaCha20, true)
}

impl Default for WscallClientConfig {
    /// ECDH dynamic key agreement (ChaCha20-Poly1305) with automatic reconnection.
    fn default() -> (config: Self)
        ensures
            config@ == ecdh_setup(),
    {
        Self::basic(FrameCodec::plaintext(), EncryptionKind::ChaCha20, true)
    }
}

impl WscallClientConfig {
    fn basic(codec: FrameCodec, default_encryption: EncryptionKind, use_ecdh: bool) -> (config:
        Self)
        ensures
            config@ == basic_setup(codec@, default_encryption, use_ecdh),
    {
        let failover_urls: Vec<String> = Vec::new();
        proof {
            assert(text::views(failover_urls@) =~= Seq::empty());
        }
        WscallClientConfig {
            codec,
            default_encryption,
            auto_reconnect: true,
            use_ecdh,
            failover_urls,
            credential: None,
        }
    }

    /// Creates a configuration with the recommended secure defaults.
    pub fn new() -> (config: Self)
        ensures
            config@ == ecdh_setup(),
    {
        Self::default()
    }

    /// ECDH dynamic key agreement (the default).
    pub fn ecdh() -> (config: Self)
        ensures
            config@ == ecdh_setup(),
    {
        Self::default()
    }

    /// Plaintext transport with no encryption.
    pub fn plaintext() -> (config: Self)
        ensures
            config@ == basic_setup(codec::default_codec(), EncryptionKind::Plaintext, false),
    {
        Self::basic(FrameCodec::plaintext(), EncryptionKind::Plaintext, false)
    }

    /// Pre-shared ChaCha20-Poly1305 key (no ECDH handshake).
    pub fn psk_chacha20(key: [u8; 32]) -> (config: Self)
        ensures
            config@ == basic_setup(
                Codec { chacha20_key: Some(key@), ..codec::default_codec() },
                EncryptionKind::ChaCha20,
                false,
            ),
    {
        Self::basic(
            FrameCodec::plaintext().with_chacha20_key(key),
            EncryptionKind::ChaCha20,
            false,
        )
    }

    /// Pre-shared AES-256-GCM key (no ECDH handshake).
    pub fn psk_aes256(key: [u8; 32]) -> (config: Self)
        ensures
            config@ == basic_setup(
                Codec { aes256_key: Some(key@), ..codec::default_codec() },
                EncryptionKind::Aes256,
                false,
            ),
    {
        Self::basic(FrameCodec::plaintext().with_aes256_key(key), EncryptionKind::Aes256, false)
    }

    /// Overrides the frame codec.
    pub fn with_codec(self, codec: FrameCodec) -> (config: Self)
        ensures
            config@ == (ClientSetup { codec: codec@, ..self@ }),
    {
        WscallClientConfig { codec, ..self }
    }

    /// Overrides the default outbound encryption mode.
    pub fn with_default_encryption(self, encryption: EncryptionKind) -> (config: Self)
        ensures
            config@ == (ClientSetup { default_encryption: encryption, ..self@ }),
    {
        WscallClientConfig { default_encryption: encryption, ..self }
    }

    /// Enables or disables automatic reconnection.
    pub fn with_auto_reconnect(self, enabled: bool) -> (config: Self)
        ensures
            config@ == (ClientSetup { auto_reconnect: enabled, ..self@ }),
    {
        WscallClientConfig { auto_reconnect: enabled, ..self }
    }

    /// Enables or disables ECDH dynamic key agreement.
    pub fn with_use_ecdh(self, enabled: bool) -> (config: Self)
        ensures
            config@ == (ClientSetup { use_ecdh: enabled, ..self@ }),
    {
        WscallClientConfig { use_ecdh: enabled, ..self }
    }

    /// Appends a single failover URL.
    pub fn with_failover_url(self, url: &str) -> (config: Self)
        ensures
            config@ == (ClientSetup { failover_urls: self@.failover_urls.push(url@), ..self@ }),
    {
        let mut config = self;
        let ghost before = text::views(config.failover_urls@);
        config.failover_urls.push(url.to_owned());
        proof {
            assert(text::views(config.failover_urls@) =~= before.push(url@));
        }
        config
    }

    /// Sets the full failover URL list (replaces any previously added).
    pub fn with_failover_urls(self, urls: Vec<String>) -> (config: Self)
        ensures
            config@ == (ClientSetup { failover_urls: text::views(urls@), ..self@ }),
    {
        WscallClientConfig { failover_urls: urls, ..self }
    }

    /// Sets the credential string submitted to the server during the handshake.
    pub fn with_credential(self, credential: &str) -> (config: Self)
        ensures
            config@ == (ClientSetup { credential: Some(credential@), ..self@ }),
    {
        WscallClientConfig { credential: Some(credential.to_owned()), ..self }
    }
}

fn clone_urls(urls: &Vec<String>) -> (copy: Vec<String>)
    ensures
        text::views(copy@) == text::views(urls@),
{
    let mut copy: Vec<String> = Vec::with_capacity(urls.len());
    let mut i: usize = 0;
    while i < urls.len()
        invariant
            i <= urls@.len(),
            copy@.len() == i,
            forall|j: int| 0 <= j < i ==> (#[trigger] copy@[j])@ == urls@[j]@,
        decreases urls.len() - i,
    {
        copy.push(urls[i].clone());
        i += 1;
    }
    proof {
        assert(text::views(copy@) =~= text::views(urls@));
    }
    copy
}

impl Clone for WscallClientConfig {
    fn clone(&self) -> (copy: Self)
        ensures
            copy@ == self@,
    {
        WscallClientConfig {
            codec: self.codec.clone(),
            default_encryption: self.default_encryption,
            auto_reconnect: self.auto_reconnect,
            use_ecdh: self.use_ecdh,
            failover_urls: clone_urls(&self.failover_urls),
            credential: match &self.credential {
                Some(credential) => Some(credential.clone()),
                None => None,
            },
        }
    }
}

/// Lifecycle payload emitted when the client establishes a websocket session.
#[derive(Debug)]
pub struct ClientConnectionEvent {
    /// Connected websocket URL.
    pub url: String,
}

/// Lifecycle payload emitted when the client loses its websocket session.
#[derive(Debug)]
pub struct ClientDisconnectEvent {
    /// Disconnected websocket URL.
    pub url: String,
    /// Human-readable disconnect reason.
    pub reason: String,
    /// Whether the client will keep trying to reconnect.
    pub will_reconnect: bool,
    /// Delay before the next reconnect attempt when reconnect is enabled.
    pub retry_after: Option<Duration>,
}

impl Clone for ClientConnectionEvent {
    fn clone(&self) -> (copy: Self)
        ensures
            copy == *self,
    {
        ClientConnectionEvent { url: self.url.clone() }
    }
}

impl Clone for ClientDisconnectEvent {
    fn clone(&self) -> (copy: Self)
        ensures
            copy == *self,
    {
        ClientDisconnectEvent {
            url: self.url.clone(),
            reason: self.reason.clone(),
            will_reconnect: self.will_reconnect,
            retry_after: self.retry_after,
        }
    }
}

/// Server-originated event delivered to a registered client event handler.
#[derive(Debug)]
pub struct EventMessage {
    /// Event correlation id.
    pub event_id: u64,
    /// Event name.
    pub name: String,
    /// Event data object.
    pub data: JsonMap,
    /// Attachments sent with the event.
    pub attachments: Vec<FileAttachment>,
    /// Raw metadata payload.
    pub metadata: Json,
}

/// What an [`EventMessage`] holds.
pub struct Message {
    pub event_id: u64,
    pub name: Seq<char>,
    pub data: Seq<(Seq<char>, Tree)>,
    pub attachments: Seq<Attachment>,
    pub metadata: Tree,
}

impl View for EventMessage {
    type V = Message;

    open spec fn view(&self) -> Message {
        Message {
            event_id: self.event_id,
            name: self.name@,
            data: self.data@,
            attachments: attachment::attachment_views(self.attachments@),
            metadata: self.metadata@,
        }
    }
}

impl Clone for EventMessage {
    fn clone(&self) -> (copy: Self)
        ensures
            copy@ == self@,
    {
        EventMessage {
            event_id: self.event_id,
            name: self.name.clone(),
            data: self.data.clone(),
            attachments: clone_attachments(&self.attachments),
            metadata: self.metadata.clone(),
        }
    }
}

/// Errors produced by the client.
#[derive(Debug)]
pub enum ClientError {
    WebSocket(String),
    Protocol(ProtocolError),
    Disconnected,
    ConnectionClosed(String),
    IdleTimeout,
    Timeout,
    Remote(ErrorPayload),
    AuthFailed(ErrorPayload),
}

/// What a [`ClientError`] says.
pub enum ClientFailure {
    WebSocket(Seq<char>),
    Protocol(Failure),
    Disconnected,
    ConnectionClosed(Seq<char>),
    IdleTimeout,
    Timeout,
    Remote(ErrorInfo),
    AuthFailed(ErrorInfo),
}

impl View for ClientError {
    type V = ClientFailure;

    open spec fn view(&self) -> ClientFailure {
        match self {
            ClientError::WebSocket(source) => ClientFailure::WebSocket(source@),
            ClientError::Protocol(e) => ClientFailure::Protocol(e@),
            ClientError::Disconnected => ClientFailure::Disconnected,
            ClientError::ConnectionClosed(reason) => ClientFailure::ConnectionClosed(reason@),
            ClientError::IdleTimeout => ClientFailure::IdleTimeout,
            ClientError::Timeout => ClientFailure::Timeout,
            ClientError::Remote(payload) => ClientFailure::Remote(payload@),
            ClientError::AuthFailed(payload) => ClientFailure::AuthFailed(payload@),
        }
    }
}

impl ClientFailure {
    /// The error's message.
    pub open spec fn text(self) -> Seq<char> {
        match self {
            ClientFailure::WebSocket(source) => "websocket error: "@ + source,
            ClientFailure::Protocol(e) => "protocol error: "@ + e.text(),
            ClientFailure::Disconnected => "client disconnected"@,
            ClientFailure::ConnectionClosed(reason) => "connection closed: "@ + reason,
            ClientFailure::IdleTimeout => "connection idle timeout"@,
            ClientFailure::Timeout => "request timed out"@,
            ClientFailure::Remote(payload) => "remote error: "@ + payload.debug_form(
                "ErrorPayload"@,
            ),
            ClientFailure::AuthFailed(payload) => "authentication failed: "@ + payload.debug_form(
                "ErrorPayload"@,
            ),
        }
    }

    /// The reason that is given for a disconnect.
    pub open spec fn reason(self) -> Seq<char> {
        match self {
            ClientFailure::ConnectionClosed(reason) => reason,
            ClientFailure::IdleTimeout => "idle timeout"@,
            ClientFailure::Disconnected => "disconnected"@,
            other => other.text(),
        }
    }
}

impl ClientError {
    /// The error's message.
    pub fn message(&self) -> (r: String)
        ensures
            r@ == self@.text(),
    {
        match self {
            ClientError::WebSocket(source) => join("websocket error: ", source.as_str()),
            ClientError::Protocol(e) => join("protocol error: ", e.message().as_str()),
            ClientError::Disconnected => "client disconnected".to_owned(),
            ClientError::ConnectionClosed(reason) => join("connection closed: ", reason.as_str()),
            ClientError::IdleTimeout => "connection idle timeout".to_owned(),
            ClientError::Timeout => "request timed out".to_owned(),
            ClientError::Remote(payload) => {
                join("remote error: ", payload.debug_form("ErrorPayload").as_str())
            },
            ClientError::AuthFailed(payload) => {
                join("authentication failed: ", payload.debug_form("ErrorPayload").as_str())
            },
        }
    }

    /// The reason that is given for a disconnect.
    pub fn disconnect_reason(&self) -> (reason: String)
        ensures
            reason@ == self@.reason(),
    {
        match self {
            ClientError::ConnectionClosed(reason) => reason.clone(),
            ClientError::IdleTimeout => "idle timeout".to_owned(),
            ClientError::Disconnected => "disconnected".to_owned(),
            other => other.message(),
        }
    }
}

} // verus!
