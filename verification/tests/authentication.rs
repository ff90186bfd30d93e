use bytes::Bytes;
use std::time::Duration;
use wscall::auth::{AuthMessage, AuthPacket};
use wscall::client::{ClientAuthStep, ClientIncoming, WscallClient};
use wscall::client_types::{ClientError, WscallClientConfig};
use wscall::codec::FrameCodec;
use wscall::error::ProtocolError;
use wscall::json::{Json, JsonMap};
use wscall::packet::{EncryptionKind, PacketBody, PacketEnvelope};
use wscall::server::{ApiStep, AuthStep, Incoming, Job, Session, WscallServer};
use wscall::server_types::{ApiError, AuthOutput};

const KEY: [u8; 32] = [4; 32];

fn codec() -> FrameCodec {
    FrameCodec::plaintext().with_chacha20_key(KEY)
}

fn server() -> WscallServer {
    let mut server = WscallServer::new().with_chacha20_key(KEY);
    server.route("whoami");
    server.auth_handler();
    server
}

fn client(credential: Option<&str>) -> WscallClient {
    let config = WscallClientConfig::psk_chacha20(KEY);
    WscallClient::new(
        "ws://x",
        match credential {
            Some(credential) => config.with_credential(credential),
            None => config,
        },
    )
}

fn frame(packet: &PacketEnvelope) -> Bytes {
    Bytes::from(codec().encode(packet).expect("encode"))
}

fn auth_frame(packet: &AuthPacket) -> Bytes {
    Bytes::from(codec().encode_auth(packet).expect("encode"))
}

/// The credential that the server's handler is given.
fn submitted(client: &WscallClient) -> String {
    let packet = client.auth_request().expect("a credential");
    assert_eq!(packet.encryption, EncryptionKind::ChaCha20);
    match WscallServer::auth_step(&codec(), "c", Incoming::Binary(auth_frame(&packet))) {
        AuthStep::RunHandler(ctx) => ctx.credential().to_string(),
        _ => panic!("expected the handler"),
    }
}

/// The session and what the client makes of the server's answer.
fn judged(result: Result<AuthOutput, ApiError>) -> (Option<Session>, ClientAuthStep) {
    let (reply, session) = server().auth_done(result);
    let step = WscallClient::auth_step(&codec(), ClientIncoming::Binary(auth_frame(&reply)));
    (session, step)
}

#[test]
fn an_accepted_credential_opens_the_connection() {
    assert_eq!(submitted(&client(Some("secret-token"))), "secret-token");
    let (session, step) = judged(Ok(AuthOutput::new()));
    let session = session.expect("a session");
    assert_eq!(session.idle_timeout(), Duration::from_secs(45));
    assert!(session.context().is_none());
    assert!(matches!(step, ClientAuthStep::Accepted));
}

#[test]
fn a_refused_credential_fails_the_connection() {
    assert_eq!(submitted(&client(Some("wrong-token"))), "wrong-token");
    let (session, step) = judged(Err(ApiError::unauthorized("invalid credential")));
    assert!(session.is_none());
    match step {
        ClientAuthStep::Failed(ClientError::AuthFailed(payload)) => {
            assert_eq!(payload.code, "unauthorized");
            assert_eq!(payload.status, 401);
            assert_eq!(payload.message, "invalid credential");
        }
        _ => panic!("expected a failure"),
    }
}

#[test]
fn without_a_handler_no_credential_is_asked_for() {
    let server = WscallServer::new();
    let session = server.open_session().expect("no authentication");
    assert_eq!(session.idle_timeout(), Duration::from_secs(45));
    assert!(session.context().is_none());
    assert!(client(None).auth_request().is_none());
}

#[test]
fn a_session_timeout_replaces_the_default() {
    let (session, _) = judged(Ok(
        AuthOutput::new().with_session_timeout(Duration::from_secs(1))
    ));
    assert_eq!(
        session.expect("a session").idle_timeout(),
        Duration::from_secs(1)
    );
}

#[test]
fn a_connection_without_credential_is_not_served() {
    assert!(server().open_session().is_none());
    match WscallServer::auth_step(&codec(), "c7", Incoming::TimedOut) {
        AuthStep::Stop(result) => assert_eq!(
            result.expect_err("no credential").message(),
            "connection idle timeout: c7"
        ),
        _ => panic!("expected the end"),
    }
    let request = PacketEnvelope::with_encryption(
        PacketBody::ApiRequest {
            request_id: 1,
            route: "whoami".to_string(),
            params: Json::empty_object(),
            attachments: Vec::new(),
            metadata: Json::Null,
        },
        EncryptionKind::ChaCha20,
    );
    match WscallServer::auth_step(&codec(), "c", Incoming::Binary(frame(&request))) {
        AuthStep::Stop(result) => {
            let message = result.expect_err("no credential").message();
            assert!(message.contains("authentication required"));
        }
        _ => panic!("expected the end"),
    }
    assert!(matches!(
        WscallServer::auth_step(&codec(), "c", Incoming::Binary(Bytes::from(vec![0; 3]))),
        AuthStep::Stop(Err(_))
    ));
    assert!(matches!(
        WscallServer::auth_step(&codec(), "c", Incoming::Ping(vec![1])),
        AuthStep::Pong(p) if p == vec![1]
    ));
    assert!(matches!(
        WscallServer::auth_step(&codec(), "c", Incoming::Close),
        AuthStep::Stop(Ok(()))
    ));
}

#[test]
fn handlers_can_read_the_identity() {
    let mut context = JsonMap::new();
    context.insert("user_id".to_string(), Json::text("u-123"));
    context.insert(
        "roles".to_string(),
        Json::Array(vec![Json::text("admin"), Json::text("editor")]),
    );
    let (session, _) = judged(Ok(AuthOutput::new().with_context(context)));
    let session = session.expect("a session");
    let request = PacketEnvelope::new(PacketBody::ApiRequest {
        request_id: 1,
        route: "whoami".to_string(),
        params: Json::empty_object(),
        attachments: Vec::new(),
        metadata: Json::Null,
    });
    match server().process_packet(&session, "c", None, request) {
        Job::Request(_, ApiStep::RunHandler(0, ctx)) => {
            let identity = ctx.auth_context().expect("an identity");
            assert_eq!(identity.get("user_id"), Some(&Json::text("u-123")));
            assert_eq!(
                Json::Object(identity.clone()).to_vec(),
                br#"{"user_id":"u-123","roles":["admin","editor"]}"#.to_vec()
            );
        }
        _ => panic!("expected the handler"),
    }
}

#[test]
fn a_client_that_waits_for_the_verdict_can_lose_the_connection() {
    let reason = |message| match WscallClient::auth_step(&codec(), message) {
        ClientAuthStep::Failed(error) => error.message(),
        _ => panic!("expected a failure"),
    };
    assert_eq!(
        reason(ClientIncoming::Close),
        "connection closed: server closed connection"
    );
    assert_eq!(
        reason(ClientIncoming::End),
        "connection closed: reader loop stopped"
    );
    assert_eq!(reason(ClientIncoming::TimedOut), "request timed out");
    assert_eq!(
        reason(ClientIncoming::Failed("x".to_string())),
        "connection closed: x"
    );
    assert!(matches!(
        WscallClient::auth_step(&codec(), ClientIncoming::Ping(vec![3])),
        ClientAuthStep::Pong(p) if p == vec![3]
    ));
    let event = PacketEnvelope::with_encryption(
        PacketBody::EventAck {
            event_id: 0,
            ok: true,
            receipt: Json::Null,
            error: None,
        },
        EncryptionKind::ChaCha20,
    );
    assert!(matches!(
        WscallClient::auth_step(&codec(), ClientIncoming::Binary(frame(&event))),
        ClientAuthStep::Ignore
    ));
}

#[test]
fn credentials_travel_in_frames_of_their_own_type() {
    let plain = FrameCodec::plaintext();
    let request = AuthPacket {
        encryption: EncryptionKind::Plaintext,
        message: AuthMessage::AuthRequest {
            credential: "t".to_string(),
        },
    };
    let bytes = plain.encode_auth(&request).expect("encode");
    let text = br#"{"k":4,"c":"t"}"#;
    let mut expected = vec![0, 0, 0, 2 + 4 + 15 + 1, 2, 0, 0, 0, 0, 15];
    expected.extend_from_slice(text);
    expected.push(0);
    assert_eq!(bytes, expected);
    assert!(matches!(
        plain.decode(Bytes::from(bytes.clone())),
        Err(ProtocolError::UnknownMessageType(2))
    ));
    match plain.decode_auth(Bytes::from(bytes)).expect("decode").message {
        AuthMessage::AuthRequest { credential } => assert_eq!(credential, "t"),
        other => panic!("unexpected message: {other:?}"),
    }

    let sealed = AuthPacket {
        encryption: EncryptionKind::ChaCha20,
        ..request
    };
    let one = codec().encode_auth_with_nonce(&sealed, &[1; 12]).expect("encode");
    let two = codec().encode_auth_with_nonce(&sealed, &[2; 12]).expect("encode");
    assert_ne!(one, two);
    assert_eq!(one.len(), expected.len() + 28);
    assert!(codec().decode_auth(Bytes::from(one)).is_ok());
    assert!(matches!(
        plain.encode_auth(&sealed),
        Err(ProtocolError::MissingEncryptionKey("chacha20"))
    ));
}

#[test]
fn other_frames_are_no_credentials() {
    let plain = FrameCodec::plaintext();
    let decode = |bytes: &[u8]| plain.decode_auth(Bytes::from(bytes.to_vec()));
    assert!(matches!(decode(&[0; 3]), Err(ProtocolError::FrameTooShort)));
    assert!(matches!(
        decode(&[0, 0, 0, 2, 1, 0]),
        Err(ProtocolError::MessageTypeMismatch)
    ));
    assert!(matches!(
        decode(&[0, 0, 0, 2, 3, 0]),
        Err(ProtocolError::UnknownMessageType(3))
    ));
    assert!(matches!(
        decode(&[0, 0, 0, 2, 2, 9]),
        Err(ProtocolError::UnknownEncryption(9))
    ));
    assert!(matches!(
        decode(&[0, 0, 0, 2, 2, 0]),
        Err(ProtocolError::FrameTooShort)
    ));
    let read = |text: &str| {
        AuthMessage::from_json(Json::from_slice(text.as_bytes()).expect("valid JSON"))
    };
    let cases = [
        ("[]", "packet body must be a JSON object"),
        ("{}", "missing or non-numeric 'k' field in packet body"),
        (r#"{"k":0}"#, "unknown 'k' value: 0"),
        (r#"{"k":4}"#, "missing or non-string 'c' field in packet body"),
        (r#"{"k":5,"er":1}"#, "invalid type: integer `1`, expected struct ErrorPayload"),
    ];
    for (text, reason) in cases {
        assert_eq!(read(text).expect_err(text), reason);
    }
    match read(r#"{"k":5,"o":false}"#).expect("valid answer") {
        AuthMessage::AuthResponse { ok, error } => assert!(!ok && error.is_none()),
        other => panic!("unexpected message: {other:?}"),
    }
    let answer = AuthMessage::AuthResponse {
        ok: true,
        error: None,
    };
    assert_eq!(answer.to_json().to_vec(), br#"{"k":5,"o":true}"#.to_vec());
}
