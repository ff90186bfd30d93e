//! WSCALL: WebSocket RPC with a binary frame protocol.
//!
//! The library holds the protocol (packets, their JSON form, the frame codec, key
//! agreement), rate limiting, parameter validation, and the decisions of the server
//! and the client as functions from state and event to next state and action. A
//! runtime performs the actions.
pub mod attachment;
pub mod auth;
pub mod buffer;
pub mod client;
pub mod client_laws;
pub mod client_types;
pub mod codec;
pub mod crypto;
pub mod ecdh;
pub mod error;
pub mod frame_laws;
pub mod json;
pub mod laws;
pub mod mismatch;
pub mod packet;
pub mod rate_history;
pub mod rate_limiter;
pub mod server;
pub mod server_laws;
pub mod server_types;
pub mod text;
pub mod time;
pub mod validation;
pub mod value_laws;
pub mod view_laws;

pub use attachment::FileAttachment;
pub use auth::{AuthMessage, AuthPacket};
pub use client::WscallClient;
pub use client_types::{
    ClientConnectionEvent, ClientDisconnectEvent, ClientError, EventMessage, WscallClientConfig,
};
pub use codec::{decode_frame, encode_frame, FrameCodec, DEFAULT_MAX_FRAME_BYTES};
pub use ecdh::{derive_session_key, parse_peer_public, EcdhKeypair, ECDH_DOMAIN_TAG, ECDH_KEY_LEN};
pub use error::ProtocolError;
pub use json::{Json, JsonMap};
pub use packet::{EncryptionKind, ErrorPayload, MessageType, PacketBody, PacketEnvelope};
pub use rate_limiter::{RateLimitConfig, RateLimiter};
pub use server::{ServerHandle, WscallServer};
pub use server_types::{
    ApiContext, ApiError, AuthContext, AuthOutput, EventContext, ExceptionContext,
    ServerConnectionContext, ServerDisconnectContext, ServerError, ValidateParams,
};
