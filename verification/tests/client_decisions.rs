use bytes::Bytes;
use std::time::Duration;
use wscall::client::{
    jitter, reconnect_delay, reconnect_jitter, ClientIncoming, ClientReaderStep, ClientStep,
    ClientWriterStep, Supervisor, SupervisorEvent, SupervisorStep, WscallClient,
};
use wscall::client_types::{ClientError, ClientOutbound, WscallClientConfig};
use wscall::codec::{encode_frame, FrameCodec};
use wscall::ecdh::EcdhKeypair;
use wscall::error::ProtocolError;
use wscall::json::{Json, JsonMap};
use wscall::packet::{EncryptionKind, ErrorPayload, PacketBody, PacketEnvelope};

fn connected(config: WscallClientConfig) -> (WscallClient, u64) {
    let mut client = WscallClient::new("ws://primary", config);
    let start = Supervisor {
        reported: false,
        attempts: 0,
    };
    let (_, step) = client.supervise(start, SupervisorEvent::Wake);
    let generation = match step {
        SupervisorStep::Connect(generation) => generation,
        _ => panic!("expected a connection attempt"),
    };
    let (place, _) = client.candidate(0).expect("a first URL");
    client.connection_established(place);
    (client, generation)
}

fn body_text(packet: &PacketEnvelope) -> String {
    String::from_utf8(packet.body.to_json().to_vec()).expect("UTF-8")
}

fn response(request_id: u64, ok: bool, error: Option<ErrorPayload>) -> PacketEnvelope {
    PacketEnvelope::new(PacketBody::ApiResponse {
        request_id,
        ok,
        status: if ok { 200 } else { 500 },
        data: Json::Unsigned(5),
        error,
        metadata: Json::Null,
    })
}

fn ack(event_id: u64) -> PacketEnvelope {
    PacketEnvelope::new(PacketBody::EventAck {
        event_id,
        ok: true,
        receipt: Json::text("done"),
        error: None,
    })
}

#[test]
fn calls_need_a_connection() {
    let mut client = WscallClient::new("ws://x", WscallClientConfig::plaintext());
    assert!(!client.is_connected());
    assert!(matches!(
        client.call("r", Json::Null, Vec::new()),
        Err(ClientError::Disconnected)
    ));
    assert!(matches!(
        client.send_event("e", JsonMap::new(), Vec::new()),
        Err(ClientError::Disconnected)
    ));
}

#[test]
fn a_response_completes_its_call_once() {
    let (mut client, _) = connected(WscallClientConfig::plaintext());
    let (first, packet) = client
        .call("system.echo", Json::empty_object(), Vec::new())
        .ok()
        .expect("connected");
    assert_eq!(first, 1);
    assert_eq!(
        body_text(&packet),
        r#"{"k":0,"i":1,"r":"system.echo","p":{},"m":{"client_name":"rust-demo"}}"#
    );
    let (second, _) = client
        .call("system.echo", Json::Null, Vec::new())
        .ok()
        .expect("connected");
    assert_eq!(second, 2);
    match client.handle_packet(response(1, true, None)) {
        ClientStep::CompleteCall {
            request_id: 1,
            result: Ok(value),
        } => assert_eq!(value, Json::Unsigned(5)),
        _ => panic!("expected the call's completion"),
    }
    assert!(matches!(
        client.handle_packet(response(1, true, None)),
        ClientStep::Ignore
    ));
    match client.handle_packet(response(2, false, None)) {
        ClientStep::CompleteCall {
            request_id: 2,
            result: Err(error),
        } => assert_eq!(
            error.message(),
            [
                r#"remote error: ErrorPayload { code: "remote_error", "#,
                r#"message: "missing remote error", status: 500, details: None }"#,
            ]
            .concat()
        ),
        _ => panic!("expected the call's failure"),
    }
}

#[test]
fn an_abandoned_call_is_not_completed() {
    let (mut client, _) = connected(WscallClientConfig::plaintext());
    let (id, _) = client
        .call("r", Json::Null, Vec::new())
        .ok()
        .expect("connected");
    assert!(matches!(client.abandon_call(id, true), ClientError::Timeout));
    assert!(matches!(
        client.handle_packet(response(id, true, None)),
        ClientStep::Ignore
    ));
    let (id, _) = client
        .send_event("e", JsonMap::new(), Vec::new())
        .ok()
        .expect("connected");
    assert!(matches!(
        client.abandon_event(id, false),
        ClientError::Disconnected
    ));
    assert!(matches!(client.handle_packet(ack(id)), ClientStep::Ignore));
}

#[test]
fn an_acknowledgement_completes_its_event_once() {
    let (mut client, _) = connected(WscallClientConfig::plaintext());
    let (id, packet) = client
        .send_event("chat", JsonMap::new(), Vec::new())
        .ok()
        .expect("connected");
    assert_eq!(
        body_text(&packet),
        r#"{"k":1,"i":1,"n":"chat","d":{},"m":{"client_name":"rust-demo"},"e":true}"#
    );
    match client.handle_packet(ack(id)) {
        ClientStep::CompleteEvent {
            event_id,
            result: Ok(receipt),
        } => {
            assert_eq!(event_id, id);
            assert_eq!(receipt, Json::text("done"));
        }
        _ => panic!("expected the event's completion"),
    }
    assert!(matches!(client.handle_packet(ack(id)), ClientStep::Ignore));
}

#[test]
fn pushed_events_go_to_their_handlers() {
    let (mut client, _) = connected(WscallClientConfig::plaintext());
    assert_eq!(client.on_event("a"), 0);
    assert_eq!(client.on_event("b"), 1);
    assert_eq!(client.on_event("a"), 2);
    let emission = |name: &str| {
        PacketEnvelope::new(PacketBody::EventEmit {
            event_id: 8,
            name: name.to_string(),
            data: JsonMap::new(),
            attachments: Vec::new(),
            metadata: Json::Null,
            expect_ack: true,
        })
    };
    match client.handle_packet(emission("a")) {
        ClientStep::RunHandlers {
            event,
            places,
            expect_ack,
        } => {
            assert_eq!(event.event_id, 8);
            assert_eq!(event.name, "a");
            assert_eq!(places, vec![0, 2]);
            assert!(expect_ack);
        }
        _ => panic!("expected handlers"),
    }
    match client.handle_packet(emission("zzz")) {
        ClientStep::RunHandlers { places, .. } => assert!(places.is_empty()),
        _ => panic!("expected handlers"),
    }
    assert_eq!(
        body_text(&client.event_ack(8, Vec::new())),
        r#"{"k":3,"i":8,"o":true,"rc":{"handled":false}}"#
    );
    assert_eq!(
        body_text(&client.event_ack(8, vec![Json::Unsigned(1), Json::Unsigned(2)])),
        r#"{"k":3,"i":8,"o":true,"rc":2}"#
    );
}

#[test]
fn a_lost_connection_fails_what_waits() {
    let (mut client, generation) = connected(WscallClientConfig::plaintext());
    for _ in 0..3 {
        assert!(client.call("r", Json::Null, Vec::new()).is_ok());
    }
    assert!(client.send_event("e", JsonMap::new(), Vec::new()).is_ok());
    assert!(client.is_connection_generation_active(generation));
    assert!(client
        .handle_disconnect(generation + 1, &ClientError::IdleTimeout)
        .is_none());
    let lost = client
        .handle_disconnect(generation, &ClientError::IdleTimeout)
        .expect("the current connection");
    let mut calls = lost.calls;
    calls.sort();
    assert_eq!(calls, vec![1, 2, 3]);
    assert_eq!(lost.events, vec![1]);
    assert_eq!(lost.event.url, "ws://primary");
    assert_eq!(lost.event.reason, "idle timeout");
    assert!(lost.event.will_reconnect);
    assert_eq!(lost.event.retry_after, Some(Duration::from_secs(3)));
    assert!(!client.is_connected());
    assert!(client
        .handle_disconnect(generation, &ClientError::Disconnected)
        .is_none());
    assert!(matches!(
        client.handle_packet(response(1, true, None)),
        ClientStep::Ignore
    ));
}

#[test]
fn closing_ends_reconnection() {
    let (mut client, _) = connected(WscallClientConfig::plaintext());
    let closed = client.close().expect("was connected");
    assert_eq!(closed.event.reason, "disconnected");
    assert!(!closed.event.will_reconnect);
    assert_eq!(closed.event.retry_after, None);
    let state = Supervisor {
        reported: true,
        attempts: 0,
    };
    assert!(matches!(
        client.supervise(state, SupervisorEvent::Lost).1,
        SupervisorStep::Exit
    ));
    assert!(matches!(
        client.supervise(state, SupervisorEvent::Wake).1,
        SupervisorStep::Exit
    ));
    assert!(client.close().is_none());
}

#[test]
fn delays_double_up_to_the_cap() {
    let secs = |attempt| reconnect_delay(attempt).as_secs();
    assert_eq!(secs(0), 3);
    assert_eq!(secs(1), 3);
    assert_eq!(secs(2), 6);
    assert_eq!(secs(3), 12);
    assert_eq!(secs(4), 24);
    assert_eq!(secs(5), 30);
    assert_eq!(secs(6), 30);
    assert_eq!(secs(u32::MAX), 30);
    assert_eq!(jitter(0), Duration::from_nanos(0));
    assert_eq!(jitter(1_499_999_999), Duration::from_nanos(1_499_999_999));
    assert_eq!(jitter(1_500_000_001), Duration::from_nanos(1));
    let samples: Vec<Duration> = (0..50).map(|_| reconnect_jitter()).collect();
    assert!(samples.iter().all(|s| *s < Duration::from_millis(1500)));
    assert!(samples.iter().any(|s| *s != samples[0]));
}

#[test]
fn the_supervisor_retries_after_the_first_success() {
    let mut client = WscallClient::new("ws://x", WscallClientConfig::plaintext());
    let start = Supervisor {
        reported: false,
        attempts: 0,
    };
    let (state, step) = client.supervise(start, SupervisorEvent::Failed(ClientError::Timeout));
    assert!(matches!(step, SupervisorStep::GiveUp(ClientError::Timeout)));
    assert!(state.reported);

    let (state, step) = client.supervise(start, SupervisorEvent::Connected);
    assert!(matches!(step, SupervisorStep::Watch { report: true }));
    let mut state = state;
    for expected in [3, 6, 12, 24, 30, 30] {
        let (next, step) = client.supervise(state, SupervisorEvent::Failed(ClientError::Timeout));
        match step {
            SupervisorStep::Sleep(delay) => assert_eq!(delay, Duration::from_secs(expected)),
            _ => panic!("expected a delay"),
        }
        state = next;
    }
    let (state, step) = client.supervise(state, SupervisorEvent::Connected);
    assert!(matches!(step, SupervisorStep::Watch { report: false }));
    assert_eq!(state.attempts, 0);
    let (_, step) = client.supervise(state, SupervisorEvent::Lost);
    assert!(matches!(step, SupervisorStep::Sleep(delay) if delay == Duration::from_secs(3)));
}

#[test]
fn reconnection_can_be_switched_off() {
    let (mut client, generation) =
        connected(WscallClientConfig::plaintext().with_auto_reconnect(false));
    let lost = client
        .handle_disconnect(
            generation,
            &ClientError::ConnectionClosed("server closed connection".to_string()),
        )
        .expect("the current connection");
    assert_eq!(lost.event.reason, "server closed connection");
    assert!(!lost.event.will_reconnect);
    let state = Supervisor {
        reported: true,
        attempts: 0,
    };
    assert!(matches!(
        client.supervise(state, SupervisorEvent::Lost).1,
        SupervisorStep::Exit
    ));
}

#[test]
fn failover_starts_with_the_last_url() {
    let config = WscallClientConfig::plaintext()
        .with_failover_url("ws://b1")
        .with_failover_url("ws://b2");
    let mut client = WscallClient::new("ws://primary", config);
    let round = |client: &WscallClient| {
        let mut urls = Vec::new();
        while let Some((_, url)) = client.candidate(urls.len()) {
            urls.push(url);
        }
        urls
    };
    assert_eq!(round(&client), vec!["ws://primary", "ws://b1", "ws://b2"]);
    assert!(client.connection_event().is_none());
    let event = client.connection_established(2);
    assert_eq!(
        client.connection_event().map(|event| event.url).as_deref(),
        Some("ws://b2")
    );
    assert_eq!(event.url, "ws://b2");
    assert_eq!(round(&client), vec!["ws://b2", "ws://primary", "ws://b1"]);
    let lost = client.close().expect("was connected");
    assert_eq!(lost.event.url, "ws://b2");
}

#[test]
fn the_client_reader_tells_messages_apart() {
    let codec = FrameCodec::plaintext();
    let step = |message| WscallClient::read_step(&codec, message);
    let frame = encode_frame(&ack(3)).expect("encode");
    assert!(matches!(
        step(ClientIncoming::Binary(Bytes::from(frame))),
        ClientReaderStep::Handle(_)
    ));
    assert!(matches!(
        step(ClientIncoming::Binary(Bytes::from(vec![1]))),
        ClientReaderStep::Drop(ProtocolError::FrameTooShort)
    ));
    assert!(matches!(step(ClientIncoming::Text), ClientReaderStep::Ignore));
    assert!(matches!(step(ClientIncoming::Pong), ClientReaderStep::Ignore));
    assert!(matches!(step(ClientIncoming::Frame), ClientReaderStep::Ignore));
    assert!(matches!(
        step(ClientIncoming::Ping(vec![2])),
        ClientReaderStep::Pong(p) if p == vec![2]
    ));
    let reason = |message| match step(message) {
        ClientReaderStep::Stop(error) => error.disconnect_reason(),
        _ => panic!("expected the end"),
    };
    assert_eq!(reason(ClientIncoming::Close), "server closed connection");
    assert_eq!(reason(ClientIncoming::End), "reader loop stopped");
    assert_eq!(reason(ClientIncoming::TimedOut), "idle timeout");
    assert_eq!(reason(ClientIncoming::Failed("reset".to_string())), "reset");
}

#[test]
fn the_client_writer_encodes_packets() {
    let codec = FrameCodec::plaintext();
    match WscallClient::write_step(&codec, ClientOutbound::Packet(ack(3))) {
        ClientWriterStep::SendBinary(bytes) => {
            assert_eq!(bytes.to_vec(), encode_frame(&ack(3)).expect("encode"))
        }
        _ => panic!("expected a frame"),
    }
    let sealed = PacketEnvelope::with_encryption(ack(3).body, EncryptionKind::Aes256);
    assert!(matches!(
        WscallClient::write_step(&codec, ClientOutbound::Packet(sealed)),
        ClientWriterStep::Drop(ProtocolError::MissingEncryptionKey("aes256"))
    ));
    assert!(matches!(
        WscallClient::write_step(&codec, ClientOutbound::Ping(vec![1])),
        ClientWriterStep::SendPing(p) if p == vec![1]
    ));
    assert!(matches!(
        WscallClient::write_step(&codec, ClientOutbound::Pong(vec![1])),
        ClientWriterStep::SendPong(p) if p == vec![1]
    ));
    match WscallClient::write_step(&codec, ClientOutbound::Close) {
        ClientWriterStep::SendClose(error) => {
            assert_eq!(error.message(), "connection closed: client closed")
        }
        _ => panic!("expected a close"),
    }
}

#[test]
fn the_client_handshake_needs_a_key() {
    let keys = EcdhKeypair::generate().expect("keypair");
    match WscallClient::finish_handshake(&keys, Some(vec![0; 33])) {
        Err(error) => assert_eq!(
            error.message(),
            "protocol error: invalid ECDH public key: expected 32 bytes, got 33"
        ),
        Ok(_) => panic!("the key is too long"),
    }
    match WscallClient::finish_handshake(&keys, None) {
        Err(error) => assert_eq!(
            error.disconnect_reason(),
            "ECDH handshake failed: no valid server public key"
        ),
        Ok(_) => panic!("there is no key"),
    }
}

#[test]
fn configurations_have_secure_defaults() {
    for config in [
        WscallClientConfig::default(),
        WscallClientConfig::new(),
        WscallClientConfig::ecdh(),
    ] {
        assert!(config.use_ecdh);
        assert!(config.auto_reconnect);
        assert_eq!(config.default_encryption, EncryptionKind::ChaCha20);
        assert!(config.failover_urls.is_empty());
        assert!(config.credential.is_none());
    }
    let plain = WscallClientConfig::plaintext();
    assert!(!plain.use_ecdh);
    assert_eq!(plain.default_encryption, EncryptionKind::Plaintext);
    let chacha = WscallClientConfig::psk_chacha20([1; 32]);
    assert!(!chacha.use_ecdh);
    let sealed = PacketEnvelope::with_encryption(ack(1).body, chacha.default_encryption);
    assert!(chacha.codec.encode(&sealed).is_ok());
    let aes = WscallClientConfig::psk_aes256([1; 32]);
    let sealed = PacketEnvelope::with_encryption(ack(1).body, aes.default_encryption);
    assert!(aes.codec.encode(&sealed).is_ok());
    let custom = WscallClientConfig::plaintext()
        .with_codec(FrameCodec::plaintext().with_max_frame_bytes(10))
        .with_default_encryption(EncryptionKind::Aes256)
        .with_use_ecdh(true)
        .with_failover_url("ws://old")
        .with_failover_urls(vec!["ws://new".to_string()])
        .with_credential("token");
    assert_eq!(custom.codec.max_frame_bytes(), 10);
    assert_eq!(custom.default_encryption, EncryptionKind::Aes256);
    assert_eq!(custom.failover_urls, vec!["ws://new"]);
    assert_eq!(custom.credential.as_deref(), Some("token"));
    let copy = custom.clone();
    assert_eq!(copy.failover_urls, custom.failover_urls);
    assert_eq!(copy.credential, custom.credential);
    let client = WscallClient::new("ws://x", custom);
    assert!(client.uses_ecdh());
    assert_eq!(client.shared_codec().max_frame_bytes(), 10);
}

#[test]
fn client_errors_have_messages() {
    let payload = || ErrorPayload {
        code: "c".to_string(),
        message: "m".to_string(),
        status: 401,
        details: Some(Json::Null),
    };
    let cases = [
        (ClientError::WebSocket("x".to_string()), "websocket error: x"),
        (
            ClientError::Protocol(ProtocolError::MessageTypeMismatch),
            "protocol error: message type does not match packet body",
        ),
        (ClientError::Disconnected, "client disconnected"),
        (
            ClientError::ConnectionClosed("r".to_string()),
            "connection closed: r",
        ),
        (ClientError::IdleTimeout, "connection idle timeout"),
        (ClientError::Timeout, "request timed out"),
        (
            ClientError::Remote(payload()),
            r#"remote error: ErrorPayload { code: "c", message: "m", status: 401, details: Some(Null) }"#,
        ),
        (
            ClientError::AuthFailed(payload()),
            r#"authentication failed: ErrorPayload { code: "c", message: "m", status: 401, details: Some(Null) }"#,
        ),
    ];
    for (error, message) in cases {
        assert_eq!(error.message(), message);
    }
}
