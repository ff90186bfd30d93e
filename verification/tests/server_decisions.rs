use bytes::Bytes;
use wscall::attachment::FileAttachment;
use wscall::codec::{encode_frame, FrameCodec};
use wscall::ecdh::EcdhKeypair;
use wscall::error::ProtocolError;
use wscall::json::{Json, JsonMap};
use wscall::packet::{EncryptionKind, PacketBody, PacketEnvelope};
use wscall::rate_limiter::{RateLimiter, Verdict};
use wscall::server::{
    ApiStep, EventStep, FirstMessage, Incoming, Job, Outcome, ReaderStep, ServerHandle,
    ServerOutbound, WriterStep, WscallServer,
};
use wscall::server_types::{
    bind_and_validate, ApiContext, ApiError, EventContext, PeerAddr, ServerError, ValidateParams,
};

fn request(request_id: u64, route: &str) -> PacketBody {
    PacketBody::ApiRequest {
        request_id,
        route: route.to_string(),
        params: Json::empty_object(),
        attachments: Vec::new(),
        metadata: Json::Null,
    }
}

fn emission(event_id: u64, name: &str) -> PacketBody {
    PacketBody::EventEmit {
        event_id,
        name: name.to_string(),
        data: JsonMap::new(),
        attachments: Vec::new(),
        metadata: Json::Null,
        expect_ack: true,
    }
}

fn frame(body: PacketBody) -> Incoming {
    Incoming::Binary(Bytes::from(
        encode_frame(&PacketEnvelope::new(body)).expect("encode"),
    ))
}

fn body_text(packet: &PacketEnvelope) -> String {
    String::from_utf8(packet.body.to_json().to_vec()).expect("UTF-8")
}

fn reply_text(step: ReaderStep) -> String {
    match step {
        ReaderStep::Reply(packet) => body_text(&packet),
        _ => panic!("expected a reply"),
    }
}

fn start(server: &WscallServer, body: PacketBody) -> Job {
    let session = server.open_session().expect("no authentication");
    let peer = PeerAddr {
        ip: "10.0.0.7".to_string(),
        port: 4711,
    };
    server.process_packet(&session, "conn-1", Some(peer), PacketEnvelope::new(body))
}

fn start_request(server: &WscallServer, route: &str) -> (wscall::server::ApiRun, ApiStep) {
    match start(server, request(7, route)) {
        Job::Request(run, step) => (run, step),
        _ => panic!("expected a request"),
    }
}

fn response(step: ApiStep) -> String {
    match step {
        ApiStep::Respond(packet) => body_text(&packet),
        _ => panic!("expected a response"),
    }
}

#[test]
fn a_route_runs_its_handler() {
    let mut server = WscallServer::new();
    assert_eq!(server.route("a"), 0);
    assert_eq!(server.route("b"), 1);
    assert_eq!(server.route("a"), 0);
    let (run, step) = start_request(&server, "b");
    match step {
        ApiStep::RunHandler(place, ctx) => {
            assert_eq!(place, 1);
            assert_eq!(ctx.route(), "b");
            assert_eq!(ctx.request_id(), 7);
            assert_eq!(ctx.connection_id(), "conn-1");
            assert_eq!(ctx.peer_ip().as_deref(), Some("10.0.0.7"));
            assert_eq!(ctx.peer_addr().as_ref().map(|peer| peer.port), Some(4711));
            assert!(ctx.auth_context().is_none());
        }
        _ => panic!("expected the handler"),
    }
    let (_, step) = server.handler_done(run, Outcome::Done(Json::Unsigned(3)));
    assert_eq!(response(step), r#"{"k":2,"i":7,"o":true,"s":200,"d":3}"#);
}

#[test]
fn an_unknown_route_is_answered_with_404() {
    let server = WscallServer::default();
    let (_, step) = start_request(&server, "nowhere");
    assert_eq!(
        response(step),
        concat(&[
            r#"{"k":2,"i":7,"o":false,"s":404,"d":{},"#,
            r#""er":{"code":"not_found","message":"route not found","status":404}}"#,
        ])
    );
}

fn concat(parts: &[&str]) -> String {
    parts.join("")
}

#[test]
fn filters_run_in_order_and_can_reroute_or_reject() {
    let mut server = WscallServer::new();
    server.route("target");
    assert_eq!(server.filter(), 0);
    assert_eq!(server.filter(), 1);
    let (run, step) = start_request(&server, "original");
    let ctx = match step {
        ApiStep::RunFilter(0, ctx) => ctx,
        _ => panic!("expected the first filter"),
    };
    let (run, step) = server.filter_done(run, Ok(ctx));
    let mut ctx = match step {
        ApiStep::RunFilter(1, ctx) => ctx,
        _ => panic!("expected the second filter"),
    };
    ctx.route = "target".to_string();
    let (run, step) = server.filter_done(run, Ok(ctx));
    assert!(matches!(step, ApiStep::RunHandler(0, _)));
    assert_eq!(run.route, "original");

    let (run, _) = start_request(&server, "original");
    let (_, step) = server.filter_done(run, Err(ApiError::new("denied", "no", 403)));
    assert_eq!(
        response(step),
        concat(&[
            r#"{"k":2,"i":7,"o":false,"s":403,"d":{},"#,
            r#""er":{"code":"denied","message":"no","status":403}}"#,
        ])
    );
}

#[test]
fn a_panic_is_an_internal_error() {
    let mut server = WscallServer::new();
    server.route("a");
    let (run, _) = start_request(&server, "a");
    let (_, step) = server.handler_done(run, Outcome::Panicked);
    assert_eq!(
        response(step),
        concat(&[
            r#"{"k":2,"i":7,"o":false,"s":500,"d":{},"#,
            r#""er":{"code":"internal_error","message":"handler panicked","status":500}}"#,
        ])
    );
}

#[test]
fn exceptions_are_mapped_and_keep_their_status() {
    let mut server = WscallServer::new().with_aes256_key([1; 32]);
    server.route("a");
    server.exception_handler();
    let (run, _) = start_request(&server, "a");
    let (run, step) = server.handler_done(
        run,
        Outcome::Failed(ApiError::bad_request("x").with_details(Json::Bool(true))),
    );
    match step {
        ApiStep::MapException(ctx) => {
            assert_eq!(ctx.connection_id, "conn-1");
            assert_eq!(ctx.request_id, Some(7));
            assert_eq!(ctx.target, "a");
            assert_eq!(ctx.message_kind, "api");
            assert_eq!(ctx.error.code, "bad_request");
            assert_eq!(ctx.error.text(), "bad_request: x");
        }
        _ => panic!("expected the exception handler"),
    }
    let packet = server.exception_mapped(run, ApiError::new("mapped", "y", 418).into_payload());
    assert_eq!(packet.encryption, EncryptionKind::Aes256);
    assert_eq!(
        body_text(&packet),
        concat(&[
            r#"{"k":2,"i":7,"o":false,"s":400,"d":{},"#,
            r#""er":{"code":"mapped","message":"y","status":418}}"#,
        ])
    );
}

#[test]
fn events_run_their_handler() {
    let mut server = WscallServer::new();
    assert_eq!(server.event_handler("e"), 0);
    let (run, step) = match start(&server, emission(9, "e")) {
        Job::Event(run, step) => (run, step),
        _ => panic!("expected an event"),
    };
    assert!(matches!(step, EventStep::RunHandler(0, _)));
    match server.event_handler_done(&run, Outcome::Done(Json::text("r"))) {
        EventStep::Respond(packet) => {
            assert_eq!(body_text(&packet), r#"{"k":3,"i":9,"o":true,"rc":"r"}"#)
        }
        _ => panic!("expected an acknowledgement"),
    }
    match server.event_handler_done(&run, Outcome::Panicked) {
        EventStep::Respond(packet) => assert_eq!(
            body_text(&packet),
            concat(&[
                r#"{"k":3,"i":9,"o":false,"rc":{},"#,
                r#""er":{"code":"internal_error","message":"event handler panicked","status":500}}"#,
            ])
        ),
        _ => panic!("expected an acknowledgement"),
    }
    server.exception_handler();
    match server.event_handler_done(&run, Outcome::Failed(ApiError::not_found("z"))) {
        EventStep::MapException(ctx) => {
            assert_eq!(ctx.message_kind, "event");
            assert_eq!(ctx.target, "e");
            assert_eq!(ctx.request_id, Some(9));
        }
        _ => panic!("expected the exception handler"),
    }
    let packet = server.event_exception_mapped(&run, ApiError::internal("q").into_payload());
    assert!(body_text(&packet).contains(r#""message":"q""#));
}

#[test]
fn an_unknown_event_is_refused() {
    let server = WscallServer::new();
    match start(&server, emission(9, "e")) {
        Job::Event(_, EventStep::Respond(packet)) => assert_eq!(
            body_text(&packet),
            concat(&[
                r#"{"k":3,"i":9,"o":false,"rc":{},"#,
                r#""er":{"code":"not_found","message":"event handler not found","status":404}}"#,
            ])
        ),
        _ => panic!("expected an acknowledgement"),
    }
    let ack = PacketBody::EventAck {
        event_id: 1,
        ok: true,
        receipt: Json::Null,
        error: None,
    };
    assert!(matches!(start(&server, ack), Job::Nothing));
}

#[test]
fn a_mismatched_header_is_answered_with_413() {
    let server = WscallServer::new();
    let mut bogus = 9999u32.to_be_bytes().to_vec();
    bogus.push(0x00);
    bogus.extend_from_slice(b"some payload");
    let step = server.read_step(
        &FrameCodec::plaintext(),
        "c",
        Incoming::Binary(Bytes::from(bogus)),
        Verdict::Allowed,
    );
    assert_eq!(
        reply_text(step),
        concat(&[
            r#"{"k":2,"i":0,"o":false,"s":413,"d":{},"er":{"code":"frame_too_large","#,
            r#""message":"frame length mismatch: declared=9999, actual=13","status":413}}"#,
        ])
    );
}

#[test]
fn an_oversized_frame_is_answered_with_413() {
    let server = WscallServer::new().with_max_frame_bytes(200);
    let step = server.read_step(
        &server.shared_codec(),
        "c",
        Incoming::Binary(Bytes::from(vec![0; 300])),
        Verdict::Banned,
    );
    assert_eq!(
        reply_text(step),
        concat(&[
            r#"{"k":2,"i":0,"o":false,"s":413,"d":{},"er":{"code":"frame_too_large","#,
            r#""message":"frame size 300 exceeds limit 200","status":413}}"#,
        ])
    );
    assert_eq!(server.websocket_limit(), 200 + 1024 * 1024);
    assert_eq!(
        WscallServer::new()
            .with_max_frame_bytes(usize::MAX)
            .websocket_limit(),
        usize::MAX
    );
    assert!(server.screen(&[0; 5]).is_none());
    assert_eq!(server.shared_codec().max_frame_bytes(), 200);
}

#[test]
fn limited_traffic_is_answered_without_a_handler() {
    let server = WscallServer::new();
    let codec = FrameCodec::plaintext();
    for verdict in [Verdict::Limited, Verdict::Banned] {
        assert_eq!(
            reply_text(server.read_step(&codec, "c", frame(request(4, "ping")), verdict)),
            concat(&[
                r#"{"k":2,"i":4,"o":false,"s":503,"d":{},"#,
                r#""er":{"code":"service_busy","message":"service busy","status":503}}"#,
            ])
        );
        assert_eq!(
            reply_text(server.read_step(&codec, "c", frame(emission(5, "e")), verdict)),
            r#"{"k":3,"i":5,"o":true,"rc":{}}"#
        );
        let ack = PacketBody::EventAck {
            event_id: 1,
            ok: true,
            receipt: Json::Null,
            error: None,
        };
        assert!(matches!(
            server.read_step(&codec, "c", frame(ack), verdict),
            ReaderStep::Ignore
        ));
    }
}

#[test]
fn only_frames_that_pass_the_screen_are_counted() {
    let server = WscallServer::new();
    assert!(server.counted(&frame(request(4, "ping"))));
    assert!(server.counted(&Incoming::Binary(Bytes::from(vec![1]))));
    assert!(!server.counted(&Incoming::Binary(Bytes::from(vec![0, 0, 0, 9, 1, 0, 0]))));
    for message in [
        Incoming::Text,
        Incoming::Ping(vec![1]),
        Incoming::Pong,
        Incoming::Close,
        Incoming::TimedOut,
        Incoming::End,
    ] {
        assert!(!server.counted(&message));
    }
}

#[test]
fn the_reader_tells_messages_apart() {
    let server = WscallServer::new();
    let codec = FrameCodec::plaintext();
    let step = |message| server.read_step(&codec, "c9", message, Verdict::Allowed);
    match step(frame(request(4, "ping"))) {
        ReaderStep::Process { packet, spawn } => {
            assert!(spawn);
            assert!(matches!(
                packet.body,
                PacketBody::ApiRequest { request_id: 4, .. }
            ));
        }
        _ => panic!("expected a packet"),
    }
    let ack = PacketBody::EventAck {
        event_id: 1,
        ok: true,
        receipt: Json::Null,
        error: None,
    };
    assert!(matches!(
        step(frame(ack)),
        ReaderStep::Process { spawn: false, .. }
    ));
    assert!(matches!(step(Incoming::Text), ReaderStep::Ignore));
    assert!(matches!(step(Incoming::Pong), ReaderStep::Ignore));
    assert!(matches!(step(Incoming::Frame), ReaderStep::Ignore));
    assert!(matches!(step(Incoming::Ping(vec![1])), ReaderStep::Pong(p) if p == vec![1]));
    assert!(matches!(step(Incoming::Close), ReaderStep::Stop(Ok(()))));
    assert!(matches!(step(Incoming::End), ReaderStep::Stop(Ok(()))));
    match step(Incoming::TimedOut) {
        ReaderStep::Stop(result) => {
            assert_eq!(WscallServer::disconnect_reason(&result), "idle timeout");
            assert_eq!(
                result.expect_err("timeout").message(),
                "connection idle timeout: c9"
            );
        }
        _ => panic!("expected the end"),
    }
    match step(Incoming::Failed("reset".to_string())) {
        ReaderStep::Stop(result) => assert_eq!(
            WscallServer::disconnect_reason(&result),
            "websocket error: reset"
        ),
        _ => panic!("expected the end"),
    }
    match step(Incoming::Binary(Bytes::from(vec![1]))) {
        ReaderStep::Stop(Err(ServerError::Protocol(ProtocolError::FrameTooShort))) => {}
        _ => panic!("expected the end"),
    }
    assert_eq!(WscallServer::disconnect_reason(&Ok(())), "connection closed");
}

#[test]
fn the_writer_encodes_packets() {
    let codec = FrameCodec::plaintext();
    let packet = PacketEnvelope::new(emission(1, "e"));
    match WscallServer::write_step(&codec, ServerOutbound::Packet(packet)) {
        WriterStep::SendBinary(bytes) => {
            assert!(codec.decode(bytes).is_ok());
        }
        _ => panic!("expected a frame"),
    }
    let sealed = PacketEnvelope::with_encryption(emission(1, "e"), EncryptionKind::ChaCha20);
    match WscallServer::write_step(&codec, ServerOutbound::Packet(sealed)) {
        WriterStep::Fail(error) => assert_eq!(
            error.message(),
            "protocol error: missing encryption key for chacha20"
        ),
        _ => panic!("expected a failure"),
    }
    assert!(matches!(
        WscallServer::write_step(&codec, ServerOutbound::PreEncoded(Bytes::from(vec![4]))),
        WriterStep::SendBinary(bytes) if bytes[..] == [4]
    ));
    assert!(matches!(
        WscallServer::write_step(&codec, ServerOutbound::Pong(vec![5])),
        WriterStep::SendPong(p) if p == vec![5]
    ));
    assert!(matches!(
        WscallServer::write_step(&codec, ServerOutbound::Close),
        WriterStep::SendClose
    ));
}

fn sent_text(codec: &FrameCodec, outbound: ServerOutbound) -> String {
    match outbound {
        ServerOutbound::PreEncoded(bytes) => body_text(&codec.decode(bytes).expect("decode")),
        ServerOutbound::Packet(packet) => body_text(&packet),
        _ => panic!("expected a packet"),
    }
}

#[test]
fn the_handle_knows_the_live_connections() {
    let mut server = WscallServer::new();
    let handle: &mut ServerHandle = server.handle();
    assert_eq!(handle.connection_count(), 0);
    handle.connection_opened("a");
    handle.connection_opened("b");
    handle.connection_opened("b");
    assert_eq!(handle.connection_count(), 2);
    assert!(handle.is_live("a"));
    handle.connection_closed("a");
    handle.connection_closed("zzz");
    assert_eq!(handle.connection_count(), 1);
    assert!(!handle.is_live("a"));
    assert!(handle.is_live("b"));
}

#[test]
fn events_are_pushed_with_counting_ids() {
    let mut server = WscallServer::new();
    let codec = server.shared_codec();
    let handle = server.handle();
    handle.connection_opened("a");
    let welcome = handle.welcome_event("a").expect("live");
    assert_eq!(
        sent_text(&codec, welcome),
        concat(&[
            r#"{"k":1,"i":1,"n":"system.notice","#,
            r#""d":{"message":"connected","connection_id":"a"},"#,
            r#""m":{"source":"server"},"e":true}"#,
        ])
    );
    let mut data = JsonMap::new();
    data.insert("x".to_string(), Json::Unsigned(1));
    let broadcast = handle
        .broadcast_event("n", data, Vec::new())
        .expect("encodes");
    assert_eq!(
        sent_text(&codec, broadcast),
        r#"{"k":1,"i":2,"n":"n","d":{"x":1},"m":{"source":"server"},"e":true}"#
    );
    match handle.send_event_to("gone", "n", JsonMap::new(), Vec::new()) {
        Err(error) => assert_eq!(error.text(), "not_found: target connection not found"),
        Ok(_) => panic!("the connection is not live"),
    }
    let direct = handle
        .send_event_to("a", "n", JsonMap::new(), Vec::new())
        .expect("live");
    assert!(sent_text(&codec, direct).contains(r#""i":4,"#));
    assert!(ServerHandle::direct_event_outcome(true).is_ok());
    assert_eq!(
        ServerHandle::direct_event_outcome(false)
            .expect_err("queue is full")
            .text(),
        "internal_error: failed to queue direct event"
    );
}

#[test]
fn all_handles_of_a_server_share_what_it_knows() {
    let mut server = WscallServer::new();
    let codec = server.shared_codec();
    server.handle().connection_opened("a");
    assert_eq!(server.handle().connection_count(), 1);
    for id in 1..4 {
        let pushed = server
            .handle()
            .broadcast_event("n", JsonMap::new(), Vec::new())
            .expect("encodes");
        assert!(sent_text(&codec, pushed).contains(&format!(r#""i":{id},"#)));
    }
    server = server.with_chacha20_key([3; 32]);
    assert!(server.handle().is_live("a"));
    server.handle().connection_closed("a");
    assert_eq!(server.handle().connection_count(), 0);
}

#[test]
fn handlers_keep_the_place_of_their_registration() {
    let mut server = WscallServer::new();
    assert_eq!(server.route("a"), 0);
    assert_eq!(server.route("b"), 1);
    assert_eq!(server.route("a"), 0);
    assert_eq!(server.route("c"), 2);
    assert_eq!(server.event_handler("a"), 0);
    assert_eq!(server.event_handler("x"), 1);
    for (route, place) in [("a", 0), ("b", 1), ("c", 2)] {
        match start_request(&server, route).1 {
            ApiStep::RunHandler(found, _) => assert_eq!(found, place),
            _ => panic!("expected the handler"),
        }
    }
    match start(&server, emission(1, "x")) {
        Job::Event(_, EventStep::RunHandler(found, _)) => assert_eq!(found, 1),
        _ => panic!("expected the handler"),
    }
}

#[test]
fn per_connection_keys_leave_encoding_to_the_writer() {
    let mut server = WscallServer::new().with_ecdh();
    assert!(server.is_ecdh());
    let handle = server.handle();
    match handle.broadcast_event("n", JsonMap::new(), Vec::new()) {
        Ok(ServerOutbound::Packet(packet)) => {
            assert_eq!(packet.encryption, EncryptionKind::ChaCha20)
        }
        _ => panic!("expected a packet"),
    }
}

#[test]
fn pushed_events_that_cannot_be_encoded_are_refused() {
    let mut server = WscallServer::new();
    let handle = server.handle();
    handle.connection_opened("a");
    let data = Bytes::from(vec![0; 100 * 1024 * 1024]);
    let attachments = || vec![FileAttachment::inline_bytes("i", "n", "t", data.clone())];
    match handle.broadcast_event("n", JsonMap::new(), attachments()) {
        Err(error) => {
            assert_eq!(error.text(), "internal_error: failed to encode broadcast event")
        }
        Ok(_) => panic!("the frame is too large"),
    }
    match handle.send_event_to("a", "n", JsonMap::new(), attachments()) {
        Err(error) => assert_eq!(error.text(), "internal_error: failed to encode direct event"),
        Ok(_) => panic!("the frame is too large"),
    }
}

#[test]
fn packets_are_queued_for_live_connections() {
    let mut server = WscallServer::new();
    let packet = || PacketEnvelope::new(emission(1, "e"));
    match server.queue_for("a", packet()) {
        Err(error) => assert_eq!(
            error.message(),
            concat(&[
                r#"api error: ApiError { code: "not_found", message: "connection is closed", "#,
                r#"status: 404, details: None }"#,
            ])
        ),
        Ok(_) => panic!("the connection is not live"),
    }
    server.handle().connection_opened("a");
    assert!(server.queue_for("a", packet()).is_ok());
    assert!(WscallServer::queue_outcome(true).is_ok());
    assert!(WscallServer::queue_outcome(false).is_err());
}

#[test]
fn the_handshake_agrees_on_a_key() {
    let server = WscallServer::new().with_ecdh().with_max_frame_bytes(4096);
    let client_keys = EcdhKeypair::generate().expect("client keypair");
    let server_keys = EcdhKeypair::generate().expect("server keypair");
    let (reply, codec) = match server.perform_ecdh_handshake(
        &server_keys,
        FirstMessage::Binary(client_keys.public_bytes().to_vec()),
    ) {
        Ok(agreed) => agreed,
        Err(error) => panic!("handshake failed: {}", error.message()),
    };
    assert_eq!(reply, server_keys.public_bytes());
    assert_eq!(codec.max_frame_bytes(), 4096);
    let client_codec = wscall::client::WscallClient::finish_handshake(
        &client_keys,
        Some(reply.to_vec()),
    )
    .ok()
    .expect("client side");
    let packet = PacketEnvelope::with_encryption(emission(3, "e"), EncryptionKind::ChaCha20);
    let encoded = client_codec.encode(&packet).expect("encode");
    assert!(codec.decode(Bytes::from(encoded)).is_ok());

    match server.perform_ecdh_handshake(&server_keys, FirstMessage::Binary(vec![0; 31])) {
        Err(error) => assert_eq!(
            error.message(),
            "protocol error: ECDH handshake failed: client sent invalid public key length"
        ),
        Ok(_) => panic!("the key is too short"),
    }
    match server.perform_ecdh_handshake(&server_keys, FirstMessage::Other) {
        Err(error) => assert_eq!(
            error.message(),
            "protocol error: ECDH handshake failed: client did not send a valid public key"
        ),
        Ok(_) => panic!("there is no key"),
    }
}

#[test]
fn the_configuration_is_kept() {
    let server = WscallServer::new()
        .with_chacha20_key([3; 32])
        .with_max_connections(5)
        .with_max_in_flight(6)
        .with_rate_limiter(RateLimiter::new());
    assert_eq!(server.max_connections(), Some(5));
    assert_eq!(server.max_in_flight(), 6);
    assert!(server.rate_limiter().is_some());
    assert!(!server.is_ecdh());
    assert_eq!(WscallServer::new().max_connections(), None);
    assert_eq!(WscallServer::new().max_in_flight(), 64);
    assert!(WscallServer::new().rate_limiter().is_none());
}

#[test]
fn server_errors_have_messages() {
    let cases = [
        (ServerError::Io("x".to_string()), "io error: x"),
        (ServerError::WebSocket("x".to_string()), "websocket error: x"),
        (
            ServerError::Protocol(ProtocolError::FrameTooShort),
            "protocol error: frame too short",
        ),
        (
            ServerError::Api(ApiError::bad_request("a\"b").with_details(Json::Unsigned(1))),
            r#"api error: ApiError { code: "bad_request", message: "a\"b", status: 400, details: Some(Number(1)) }"#,
        ),
        (
            ServerError::IdleTimeout("c".to_string()),
            "connection idle timeout: c",
        ),
        (
            ServerError::OutboundQueueFull("c".to_string()),
            "outbound queue is full for connection c",
        ),
    ];
    for (error, message) in cases {
        assert_eq!(error.message(), message);
    }
}

struct Positive(i64);

impl ValidateParams for Positive {
    fn validate(&self) -> Result<(), ApiError> {
        if self.0 > 0 {
            Ok(())
        } else {
            Err(ApiError::bad_request("not positive"))
        }
    }
}

#[test]
fn params_are_looked_up_bound_and_validated() {
    let mut params = JsonMap::new();
    params.insert("n".to_string(), Json::Signed(-1));
    let mut ctx = ApiContext {
        connection_id: "c".to_string(),
        peer_addr: None,
        request_id: 1,
        route: "r".to_string(),
        params: Json::Object(params),
        attachments: vec![FileAttachment::inline_text("f", "n.txt", "text/plain", "abc")],
        metadata: Json::Null,
        auth: None,
    };
    assert_eq!(ctx.param("n"), Some(&Json::Signed(-1)));
    assert_eq!(ctx.param("m"), None);
    assert_eq!(
        ctx.require_param("m").expect_err("missing").text(),
        "bad_request: missing required param: m"
    );
    assert_eq!(ctx.peer_ip(), None);
    assert_eq!(
        ctx.attachment_summaries()[0].to_vec(),
        br#"{"id":"f","name":"n.txt","content_type":"text/plain","size":3}"#.to_vec()
    );
    let copy = ctx.clone();
    assert_eq!(ctx.take_params(), *copy.params());
    assert_eq!(*ctx.params(), Json::Null);
    assert_eq!(
        ApiContext::bind_error("expected i64").text(),
        "bad_request: invalid params: expected i64"
    );
    assert!(bind_and_validate(Ok(Positive(1))).is_ok());
    assert!(matches!(
        bind_and_validate(Ok(Positive(0))),
        Err(error) if error.message == "not positive"
    ));
    assert!(matches!(
        bind_and_validate::<Positive>(Err(ApiError::internal("b"))),
        Err(error) if error.message == "b"
    ));
    let errors = wscall::validation::ValidationErrors { fields: Vec::new() };
    let error = ApiContext::validation_error(&errors);
    assert_eq!(error.text(), "bad_request: params validation failed");
    assert_eq!(
        error.details.expect("details").to_vec(),
        br#"{"validation_errors":{}}"#.to_vec()
    );
}

#[test]
fn event_contexts_show_their_event() {
    let mut data = JsonMap::new();
    data.insert("k".to_string(), Json::Bool(true));
    let ctx = EventContext {
        connection_id: "c".to_string(),
        peer_addr: Some(PeerAddr {
            ip: "::1".to_string(),
            port: 1,
        }),
        event_id: 3,
        name: "n".to_string(),
        data,
        attachments: Vec::new(),
        metadata: Json::Null,
        auth: None,
    };
    assert_eq!(ctx.connection_id(), "c");
    assert_eq!(ctx.event_id(), 3);
    assert_eq!(ctx.name(), "n");
    assert_eq!(ctx.data().get("k"), Some(&Json::Bool(true)));
    assert_eq!(ctx.peer_ip().as_deref(), Some("::1"));
    assert!(ctx.peer_addr().is_some());
    assert!(ctx.attachments().is_empty());
    assert_eq!(*ctx.metadata(), Json::Null);
    assert!(ctx.auth_context().is_none());
}
