use bytes::Bytes;
use wscall::attachment::FileAttachment;
use wscall::codec::{decode_frame, encode_frame, FrameCodec, DEFAULT_MAX_FRAME_BYTES};
use wscall::error::ProtocolError;
use wscall::json::{Json, JsonMap};
use wscall::packet::{EncryptionKind, MessageType, PacketBody, PacketEnvelope};

const KEY: [u8; 32] = [7; 32];

fn ack(event_id: u64) -> PacketBody {
    PacketBody::EventAck {
        event_id,
        ok: true,
        receipt: Json::Null,
        error: None,
    }
}

fn request() -> PacketBody {
    let mut params = JsonMap::new();
    params.insert("n".to_string(), Json::Signed(-3));
    let mut metadata = JsonMap::new();
    metadata.insert("client".to_string(), Json::text("t"));
    PacketBody::ApiRequest {
        request_id: 77,
        route: "files.upload".to_string(),
        params: Json::Object(params),
        attachments: vec![
            FileAttachment::inline_text("a", "ä.txt", "text/plain", "héllo"),
            FileAttachment::inline_bytes("b", "", "", Bytes::from(vec![0, 1, 2])),
        ],
        metadata: Json::Object(metadata),
    }
}

fn check_request(packet: &PacketEnvelope) {
    assert_eq!(packet.message_type, MessageType::Api);
    match &packet.body {
        PacketBody::ApiRequest {
            request_id,
            route,
            params,
            attachments,
            metadata,
        } => {
            assert_eq!(*request_id, 77);
            assert_eq!(route, "files.upload");
            assert_eq!(params.to_vec(), br#"{"n":-3}"#.to_vec());
            assert_eq!(metadata.to_vec(), br#"{"client":"t"}"#.to_vec());
            assert_eq!(attachments.len(), 2);
            assert_eq!(attachments[0].id, "a");
            assert_eq!(attachments[0].name, "ä.txt");
            assert_eq!(&attachments[0].data[..], "héllo".as_bytes());
            assert_eq!(attachments[0].size(), 6);
            assert_eq!(attachments[1].id, "b");
            assert_eq!(attachments[1].name, "");
            assert_eq!(&attachments[1].data[..], &[0, 1, 2]);
        }
        other => panic!("unexpected body: {other:?}"),
    }
}

#[test]
fn plaintext_frame_has_the_documented_layout() {
    let encoded = encode_frame(&PacketEnvelope::new(ack(5))).expect("encode");
    let json = br#"{"k":3,"i":5,"o":true,"rc":null}"#;
    let mut expected = Vec::new();
    expected.extend_from_slice(&((json.len() + 7) as u32).to_be_bytes());
    expected.push(0x01);
    expected.push(0x00);
    expected.extend_from_slice(&(json.len() as u32).to_be_bytes());
    expected.extend_from_slice(json);
    expected.push(0);
    assert_eq!(encoded, expected);
}

#[test]
fn attachment_section_has_the_documented_layout() {
    let attachment = FileAttachment::inline_bytes("id", "né", "ct", Bytes::from(vec![9, 8]));
    let mut section = vec![0xAA];
    attachment.write_wire(&mut section);
    assert_eq!(
        section,
        vec![0xAA, 2, b'i', b'd', 3, b'n', 0xC3, 0xA9, 2, b'c', b't', 0, 0, 0, 2, 9, 8]
    );
    section.extend_from_slice(&[1, 2, 3]);
    let (read, rest) =
        FileAttachment::read_wire(&Bytes::from(section[1..].to_vec())).expect("valid section");
    assert_eq!(read.name, "né");
    assert_eq!(&read.data[..], &[9, 8]);
    assert_eq!(&rest[..], &[1, 2, 3]);
}

#[test]
fn attachment_lengths_are_cut_to_their_fields() {
    let attachment =
        FileAttachment::inline_bytes(&"x".repeat(258), "", "", Bytes::from(Vec::new()));
    let mut section = Vec::new();
    attachment.write_wire(&mut section);
    assert_eq!(section[0], 2);
    assert_eq!(section.len(), 1 + 258 + 1 + 1 + 4);
}

#[test]
fn truncated_sections_are_refused() {
    let reason = |bytes: &[u8]| match FileAttachment::read_wire(&Bytes::from(bytes.to_vec())) {
        Err(ProtocolError::InvalidAttachmentEncoding(reason)) => reason,
        other => panic!("unexpected outcome: {other:?}"),
    };
    assert_eq!(reason(&[]), "truncated id_len");
    assert_eq!(reason(&[2, b'a']), "truncated id");
    assert_eq!(reason(&[0]), "truncated name_len");
    assert_eq!(reason(&[0, 1]), "truncated name");
    assert_eq!(reason(&[0, 0]), "truncated ct_len");
    assert_eq!(reason(&[0, 0, 9]), "truncated content_type");
    assert_eq!(reason(&[0, 0, 0, 0, 0, 0]), "truncated data_len");
    assert_eq!(reason(&[0, 0, 0, 0, 0, 0, 1]), "truncated data");
}

#[test]
fn malformed_utf8_in_a_section_is_replaced() {
    let (read, _) =
        FileAttachment::read_wire(&Bytes::from(vec![2, b'a', 0xFF, 0, 0, 0, 0, 0, 0]))
            .expect("valid section");
    assert_eq!(read.id, "a\u{FFFD}");
}

#[test]
fn frames_round_trip_in_every_mode() {
    let codec = FrameCodec::plaintext()
        .with_chacha20_key(KEY)
        .with_aes256_key([8; 32]);
    for encryption in [
        EncryptionKind::Plaintext,
        EncryptionKind::ChaCha20,
        EncryptionKind::Aes256,
    ] {
        let packet = PacketEnvelope::with_encryption(request(), encryption);
        let encoded = codec.encode(&packet).expect("encode");
        assert_eq!(
            u32::from_be_bytes([encoded[0], encoded[1], encoded[2], encoded[3]]) as usize,
            encoded.len() - 4
        );
        let decoded = codec.decode(Bytes::from(encoded)).expect("decode");
        assert_eq!(decoded.encryption, encryption);
        check_request(&decoded);
    }
}

#[test]
fn metadata_without_information_decodes_to_null() {
    let packet = PacketEnvelope::new(PacketBody::ApiResponse {
        request_id: 1,
        ok: true,
        status: 200,
        data: Json::Null,
        error: None,
        metadata: Json::empty_object(),
    });
    let decoded = decode_frame(Bytes::from(encode_frame(&packet).expect("encode"))).expect("decode");
    match decoded.body {
        PacketBody::ApiResponse { metadata, .. } => assert_eq!(metadata, Json::Null),
        other => panic!("unexpected body: {other:?}"),
    }
}

#[test]
fn sealed_frames_depend_on_key_and_nonce() {
    let codec = FrameCodec::plaintext().with_chacha20_key(KEY);
    let packet = PacketEnvelope::with_encryption(ack(1), EncryptionKind::ChaCha20);
    let one = codec.encode_with_nonce(&packet, &[1; 12]).expect("encode");
    let same = codec.encode_with_nonce(&packet, &[1; 12]).expect("encode");
    let two = codec.encode_with_nonce(&packet, &[2; 12]).expect("encode");
    assert_eq!(one, same);
    assert_ne!(one, two);
    assert_eq!(&one[6..18], &[1; 12]);
    let plain = encode_frame(&PacketEnvelope::new(ack(1))).expect("encode");
    assert_eq!(one.len(), plain.len() + 12 + 16);
    assert_ne!(&one[18..], &plain[6..]);
    let random = codec.encode(&packet).expect("encode");
    let again = codec.encode(&packet).expect("encode");
    assert_ne!(random, again);
}

#[test]
fn tampered_or_foreign_frames_are_refused() {
    for encryption in [EncryptionKind::ChaCha20, EncryptionKind::Aes256] {
        let codec = FrameCodec::plaintext()
            .with_chacha20_key(KEY)
            .with_aes256_key(KEY);
        let name = match encryption {
            EncryptionKind::Aes256 => "aes256",
            _ => "chacha20",
        };
        let packet = PacketEnvelope::with_encryption(ack(1), encryption);
        let mut encoded = codec.encode(&packet).expect("encode");

        let without_key = FrameCodec::plaintext();
        match without_key.encode(&packet) {
            Err(ProtocolError::MissingEncryptionKey(found)) => assert_eq!(found, name),
            other => panic!("unexpected outcome: {other:?}"),
        }
        match without_key.decode(Bytes::from(encoded.clone())) {
            Err(ProtocolError::MissingEncryptionKey(found)) => assert_eq!(found, name),
            other => panic!("unexpected outcome: {other:?}"),
        }

        let last = encoded.len() - 1;
        encoded[last] ^= 1;
        match codec.decode(Bytes::from(encoded)) {
            Err(ProtocolError::DecryptionFailed(found)) => assert_eq!(found, name),
            other => panic!("unexpected outcome: {other:?}"),
        }

        let mut short = vec![0, 0, 0, 13, 1];
        short.push(if name == "aes256" { 2 } else { 1 });
        short.extend_from_slice(&[0; 11]);
        match codec.decode(Bytes::from(short)) {
            Err(ProtocolError::EncryptedPayloadTooShort {
                algorithm,
                expected_min,
                actual,
            }) => {
                assert_eq!(algorithm, name);
                assert_eq!(expected_min, 12);
                assert_eq!(actual, 11);
            }
            other => panic!("unexpected outcome: {other:?}"),
        }
    }
}

#[test]
fn malformed_frames_are_refused() {
    let decode = |bytes: &[u8]| decode_frame(Bytes::from(bytes.to_vec()));
    assert!(matches!(decode(&[]), Err(ProtocolError::FrameTooShort)));
    assert!(matches!(
        decode(&[0, 0, 0, 1, 0]),
        Err(ProtocolError::FrameTooShort)
    ));
    assert!(matches!(
        decode(&[0, 0, 0, 9, 0, 0]),
        Err(ProtocolError::FrameLengthMismatch {
            declared: 9,
            actual: 2
        })
    ));
    assert!(matches!(
        decode(&[0, 0, 0, 2, 2, 0]),
        Err(ProtocolError::UnknownMessageType(2))
    ));
    assert!(matches!(
        decode(&[0, 0, 0, 2, 0, 3]),
        Err(ProtocolError::UnknownEncryption(3))
    ));
    assert!(matches!(
        decode(&[0, 0, 0, 2, 0, 0]),
        Err(ProtocolError::FrameTooShort)
    ));
    assert!(matches!(
        decode(&[0, 0, 0, 7, 0, 0, 0, 0, 0, 1, 0]),
        Err(ProtocolError::FrameTooShort)
    ));
    assert!(matches!(
        decode(&[0, 0, 0, 7, 0, 0, 0, 0, 0, 0, 1]),
        Err(ProtocolError::InvalidAttachmentEncoding(_))
    ));
    assert!(matches!(
        decode(&[0, 0, 0, 7, 0, 0, 0, 0, 0, 0, 0]),
        Err(ProtocolError::Json(_))
    ));
    let mut wrong_type = encode_frame(&PacketEnvelope::new(ack(1))).expect("encode");
    wrong_type[4] = 0;
    assert!(matches!(
        decode(&wrong_type),
        Err(ProtocolError::MessageTypeMismatch)
    ));
}

#[test]
fn limits_count_what_encryption_adds() {
    let packet = PacketEnvelope::new(ack(1));
    let plain = encode_frame(&packet).expect("encode");
    let exact = FrameCodec::plaintext()
        .with_chacha20_key(KEY)
        .with_max_frame_bytes(plain.len());
    assert_eq!(exact.max_frame_bytes(), plain.len());
    assert_eq!(exact.encode(&packet).expect("fits").len(), plain.len());

    let sealed = PacketEnvelope::with_encryption(ack(1), EncryptionKind::ChaCha20);
    match exact.encode(&sealed) {
        Err(ProtocolError::PayloadTooLarge { actual, max }) => {
            assert_eq!(actual, plain.len() - 6 + 28);
            assert_eq!(max, plain.len() - 6);
        }
        other => panic!("unexpected outcome: {other:?}"),
    }
    let tight = FrameCodec::plaintext().with_max_frame_bytes(plain.len() - 1);
    assert!(matches!(
        tight.encode(&packet),
        Err(ProtocolError::PayloadTooLarge { .. })
    ));
    assert!(matches!(
        tight.decode(Bytes::from(plain)),
        Err(ProtocolError::FrameTooLarge { .. })
    ));
    assert!(matches!(
        FrameCodec::plaintext().with_max_frame_bytes(3).encode(&packet),
        Err(ProtocolError::PayloadTooLarge { max: 0, .. })
    ));
    assert_eq!(FrameCodec::default().max_frame_bytes(), DEFAULT_MAX_FRAME_BYTES);
    assert_eq!(DEFAULT_MAX_FRAME_BYTES, 100 * 1024 * 1024);
}

#[test]
fn header_bytes_name_their_kinds() {
    assert_eq!(MessageType::try_from(0).expect("api"), MessageType::Api);
    assert_eq!(MessageType::try_from(1).expect("event"), MessageType::Event);
    assert!(MessageType::try_from(2).is_err());
    assert_eq!(
        EncryptionKind::try_from(2).expect("aes"),
        EncryptionKind::Aes256
    );
    assert!(EncryptionKind::try_from(3).is_err());
    assert_eq!(MessageType::Event.to_byte(), 1);
    assert_eq!(EncryptionKind::ChaCha20.to_byte(), 1);
}

#[test]
fn attachments_are_kept_by_requests_and_events_only() {
    let attachment = FileAttachment::inline_text("f", "n", "t", "x");
    let mut body = ack(1);
    body.set_attachments(vec![attachment.clone()]);
    assert!(body.attachments().is_empty());
    let mut body = request();
    body.set_attachments(vec![attachment]);
    assert_eq!(body.attachments().len(), 1);
    assert_eq!(body.clone().attachments()[0].id, "f");
    assert_eq!(body.message_type(), MessageType::Api);
}

#[test]
fn protocol_errors_have_messages() {
    let cases = [
        (ProtocolError::FrameTooShort, "frame too short"),
        (
            ProtocolError::FrameLengthMismatch {
                declared: 9999,
                actual: 13,
            },
            "frame length mismatch: declared=9999, actual=13",
        ),
        (
            ProtocolError::PayloadTooLarge { actual: 10, max: 0 },
            "payload too large: actual=10, max=0",
        ),
        (
            ProtocolError::FrameTooLarge {
                actual: 120,
                max: 64,
            },
            "frame too large: actual=120, max=64",
        ),
        (
            ProtocolError::UnknownMessageType(0x0f),
            "unknown message type: 0xf",
        ),
        (
            ProtocolError::UnknownEncryption(0xa0),
            "unknown encryption kind: 0xa0",
        ),
        (
            ProtocolError::UnsupportedEncryption(0),
            "unsupported encryption kind: 0x0",
        ),
        (
            ProtocolError::MissingEncryptionKey("aes256"),
            "missing encryption key for aes256",
        ),
        (
            ProtocolError::InvalidEncryptionKey("aes256"),
            "invalid encryption key for aes256",
        ),
        (
            ProtocolError::Random("x".to_string()),
            "secure random generation failed: x",
        ),
        (
            ProtocolError::EncryptedPayloadTooShort {
                algorithm: "chacha20",
                expected_min: 12,
                actual: 3,
            },
            "encrypted payload too short for chacha20: expected at least 12, actual=3",
        ),
        (
            ProtocolError::EncryptionFailed("chacha20"),
            "encryption failed for chacha20",
        ),
        (
            ProtocolError::DecryptionFailed("chacha20"),
            "decryption failed for chacha20",
        ),
        (
            ProtocolError::InvalidEcdhPublicKey {
                expected: 32,
                actual: 31,
            },
            "invalid ECDH public key: expected 32 bytes, got 31",
        ),
        (
            ProtocolError::EcdhHandshake("x".to_string()),
            "ECDH handshake failed: x",
        ),
        (
            ProtocolError::MessageTypeMismatch,
            "message type does not match packet body",
        ),
        (
            ProtocolError::InvalidAttachmentEncoding("x".to_string()),
            "invalid attachment encoding: x",
        ),
        (ProtocolError::Json("x".to_string()), "json error: x"),
    ];
    for (error, message) in cases {
        assert_eq!(error.message(), message);
    }
}

#[test]
fn every_strict_prefix_of_a_section_is_refused() {
    let attachment = FileAttachment::inline_bytes("id", "né", "text/plain", Bytes::from(vec![9, 8, 7]));
    let mut section: Vec<u8> = Vec::new();
    attachment.write_wire(&mut section);
    for n in 0..section.len() {
        assert!(matches!(
            FileAttachment::read_wire(&Bytes::from(section[..n].to_vec())),
            Err(ProtocolError::InvalidAttachmentEncoding(_))
        ));
    }
    assert!(FileAttachment::read_wire(&Bytes::from(section)).is_ok());
}

#[test]
fn an_encrypted_frame_adds_nonce_and_tag() {
    let codec = FrameCodec::plaintext()
        .with_chacha20_key(KEY)
        .with_aes256_key([8; 32]);
    let plain = codec.encode(&PacketEnvelope::new(request())).expect("encode");
    for encryption in [EncryptionKind::ChaCha20, EncryptionKind::Aes256] {
        let packet = PacketEnvelope::with_encryption(request(), encryption);
        let sealed = codec.encode(&packet).expect("encode");
        assert_eq!(sealed.len(), plain.len() + 28);
    }
}

#[test]
fn floats_survive_the_wire() {
    let half = serde_json::Number::from_f64(0.5).expect("finite");
    let body = || PacketBody::EventAck {
        event_id: 3,
        ok: true,
        receipt: Json::Float(half.clone()),
        error: None,
    };
    let encoded = encode_frame(&PacketEnvelope::new(body())).expect("encode");
    match decode_frame(Bytes::from(encoded)).expect("decode").body {
        PacketBody::EventAck { receipt, .. } => assert_eq!(receipt, Json::Float(half.clone())),
        other => panic!("unexpected body: {other:?}"),
    }
}

#[test]
fn what_is_wrong_with_the_body_comes_before_what_follows_it() {
    let decoded = |text: &str| {
        let mut payload = (text.len() as u32).to_be_bytes().to_vec();
        payload.extend_from_slice(text.as_bytes());
        payload.push(0);
        let mut frame = (payload.len() as u32 + 2).to_be_bytes().to_vec();
        frame.extend_from_slice(&[0, 0]);
        frame.extend_from_slice(&payload);
        match decode_frame(Bytes::from(frame)) {
            Err(ProtocolError::Json(reason)) => reason,
            other => panic!("unexpected outcome: {other:?}"),
        }
    };
    assert_eq!(decoded(r#"{"k":9} x"#), "unknown 'k' value: 9");
    assert_eq!(decoded("[] []"), "packet body must be a JSON object");
    assert_eq!(
        decoded(r#"{"k":2,"i":1} x"#),
        "trailing characters at line 1 column 15"
    );
    assert_eq!(decoded("{"), "EOF while parsing an object at line 1 column 1");
}
