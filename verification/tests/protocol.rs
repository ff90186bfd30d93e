use bytes::Bytes;
use wscall::attachment::FileAttachment;
use wscall::codec::{decode_frame, encode_frame, FrameCodec};
use wscall::error::ProtocolError;
use wscall::json::{Json, JsonMap};
use wscall::packet::{EncryptionKind, PacketBody, PacketEnvelope};

const TEST_KEY: [u8; 32] = [0x11; 32];

fn object(members: Vec<(&str, Json)>) -> JsonMap {
    let mut map = JsonMap::new();
    for (key, value) in members {
        map.insert(key.to_string(), value);
    }
    map
}

fn json_object(members: Vec<(&str, Json)>) -> Json {
    Json::Object(object(members))
}

#[test]
fn plaintext_helpers_still_work() {
    let packet = PacketEnvelope::new(PacketBody::EventAck {
        event_id: 1,
        ok: true,
        receipt: json_object(vec![("ok", Json::Bool(true))]),
        error: None,
    });

    let encoded = encode_frame(&packet).expect("encode plaintext");
    let decoded = decode_frame(Bytes::from(encoded)).expect("decode plaintext");
    assert!(matches!(decoded.encryption, EncryptionKind::Plaintext));
}

#[test]
fn aes256_roundtrip_works() {
    let codec = FrameCodec::plaintext().with_aes256_key(TEST_KEY);
    let packet = PacketEnvelope::with_encryption(
        PacketBody::ApiResponse {
            request_id: 1,
            ok: true,
            status: 200,
            data: json_object(vec![("message", Json::text("encrypted"))]),
            error: None,
            metadata: Json::empty_object(),
        },
        EncryptionKind::Aes256,
    );

    let encoded = codec.encode(&packet).expect("encode aes256");
    let decoded = codec.decode(Bytes::from(encoded)).expect("decode aes256");
    assert!(matches!(decoded.encryption, EncryptionKind::Aes256));
}

#[test]
fn attachment_roundtrip_plaintext() {
    let att = FileAttachment::inline_bytes(
        "f1",
        "test.bin",
        "application/octet-stream",
        Bytes::from(vec![1, 2, 3, 4, 5]),
    );
    let packet = PacketEnvelope::new(PacketBody::ApiRequest {
        request_id: 42,
        route: "files.upload".to_string(),
        params: json_object(vec![(
            "file",
            json_object(vec![("$file", Json::text("f1"))]),
        )]),
        attachments: vec![att],
        metadata: Json::empty_object(),
    });

    let encoded = encode_frame(&packet).expect("encode with attachment");
    let decoded = decode_frame(Bytes::from(encoded)).expect("decode with attachment");

    let atts = decoded.body.attachments();
    assert_eq!(atts.len(), 1);
    assert_eq!(atts[0].id, "f1");
    assert_eq!(atts[0].name, "test.bin");
    assert_eq!(atts[0].content_type, "application/octet-stream");
    assert_eq!(&atts[0].data[..], &[1, 2, 3, 4, 5]);
}

#[test]
fn attachment_roundtrip_encrypted() {
    let codec = FrameCodec::plaintext().with_chacha20_key(TEST_KEY);
    let att = FileAttachment::inline_text("f2", "hello.txt", "text/plain", "hello world");
    let packet = PacketEnvelope::with_encryption(
        PacketBody::EventEmit {
            event_id: 7,
            name: "chat.message".to_string(),
            data: object(vec![("text", Json::text("see attached"))]),
            attachments: vec![att],
            metadata: Json::empty_object(),
            expect_ack: true,
        },
        EncryptionKind::ChaCha20,
    );

    let encoded = codec
        .encode(&packet)
        .expect("encode encrypted with attachment");
    let decoded = codec
        .decode(Bytes::from(encoded))
        .expect("decode encrypted with attachment");

    let atts = decoded.body.attachments();
    assert_eq!(atts.len(), 1);
    assert_eq!(atts[0].id, "f2");
    assert_eq!(&atts[0].data[..], b"hello world");
}

#[test]
fn encode_rejects_payloads_over_limit() {
    let codec = FrameCodec::plaintext().with_max_frame_bytes(1024);
    let packet = PacketEnvelope::new(PacketBody::ApiResponse {
        request_id: 999,
        ok: true,
        status: 200,
        data: json_object(vec![("blob", Json::text(&"a".repeat(2048)))]),
        error: None,
        metadata: Json::empty_object(),
    });

    let error = codec
        .encode(&packet)
        .expect_err("oversized payload should fail");
    assert!(matches!(error, ProtocolError::PayloadTooLarge { .. }));
}

#[test]
fn decode_rejects_frames_over_limit() {
    let codec = FrameCodec::plaintext().with_max_frame_bytes(64);
    let packet = PacketEnvelope::new(PacketBody::ApiResponse {
        request_id: 1,
        ok: true,
        status: 200,
        data: json_object(vec![("msg", Json::text(&"a]".repeat(50)))]),
        error: None,
        metadata: Json::empty_object(),
    });
    let encoded = FrameCodec::plaintext()
        .encode(&packet)
        .expect("encode with default limit");
    assert!(encoded.len() > 64);

    let error = codec
        .decode(Bytes::from(encoded))
        .expect_err("oversized frame should fail");
    assert!(matches!(error, ProtocolError::FrameTooLarge { .. }));
}
