use bytes::Bytes;
use wscall::attachment::FileAttachment;
use wscall::json::{Json, JsonMap};
use wscall::packet::{EncryptionKind, ErrorPayload, MessageType, PacketBody, PacketEnvelope};

fn object(members: Vec<(&str, Json)>) -> JsonMap {
    let mut map = JsonMap::new();
    for (key, value) in members {
        map.insert(key.to_string(), value);
    }
    map
}

fn json_object(members: Vec<(&str, Json)>) -> Json {
    Json::Object(object(members))
}

fn text_of(body: &PacketBody) -> String {
    String::from_utf8(body.to_json().to_vec()).expect("JSON is UTF-8")
}

fn parse(text: &str) -> Result<PacketBody, String> {
    PacketBody::from_json(Json::from_slice(text.as_bytes())?)
}

#[test]
fn request_has_the_compact_form() {
    let body = PacketBody::ApiRequest {
        request_id: 1,
        route: "system.echo".to_string(),
        params: json_object(vec![("message", Json::text("hello"))]),
        attachments: Vec::new(),
        metadata: Json::empty_object(),
    };
    assert_eq!(
        text_of(&body),
        r#"{"k":0,"i":1,"r":"system.echo","p":{"message":"hello"}}"#
    );
}

#[test]
fn response_has_the_compact_form() {
    let body = PacketBody::ApiResponse {
        request_id: 1,
        ok: true,
        status: 200,
        data: json_object(vec![("echo", Json::text("hello"))]),
        error: None,
        metadata: Json::Null,
    };
    assert_eq!(
        text_of(&body),
        r#"{"k":2,"i":1,"o":true,"s":200,"d":{"echo":"hello"}}"#
    );
}

#[test]
fn event_has_the_compact_form() {
    let body = PacketBody::EventEmit {
        event_id: 2,
        name: "chat.message".to_string(),
        data: object(vec![("message", Json::text("hello"))]),
        attachments: Vec::new(),
        metadata: Json::empty_object(),
        expect_ack: true,
    };
    assert_eq!(
        text_of(&body),
        r#"{"k":1,"i":2,"n":"chat.message","d":{"message":"hello"},"e":true}"#
    );
}

#[test]
fn ack_has_the_compact_form() {
    let body = PacketBody::EventAck {
        event_id: 2,
        ok: true,
        receipt: json_object(vec![("ok", Json::Bool(true))]),
        error: None,
    };
    assert_eq!(
        text_of(&body),
        r#"{"k":3,"i":2,"o":true,"rc":{"ok":true}}"#
    );
}

#[test]
fn errors_and_metadata_are_written_in_order() {
    let body = PacketBody::ApiResponse {
        request_id: 9,
        ok: false,
        status: 400,
        data: Json::empty_object(),
        error: Some(ErrorPayload {
            code: "bad_request".to_string(),
            message: "no \"name\"".to_string(),
            status: 400,
            details: Some(Json::Array(vec![Json::Signed(-1), Json::Null])),
        }),
        metadata: json_object(vec![("trace", Json::Unsigned(7))]),
    };
    assert_eq!(
        text_of(&body),
        concat_text(&[
            r#"{"k":2,"i":9,"o":false,"s":400,"d":{},"#,
            r#""er":{"code":"bad_request","message":"no \"name\"","status":400,"details":[-1,null]},"#,
            r#""m":{"trace":7}}"#,
        ])
    );
}

fn concat_text(parts: &[&str]) -> String {
    parts.join("")
}

#[test]
fn body_form_round_trips() {
    let text = r#"{"k":1,"i":18446744073709551615,"n":"ü","d":{"a":[1,-2,"x"],"b":null},"m":{"s":1},"e":true}"#;
    let body = parse(text).expect("valid body");
    assert_eq!(text_of(&body), text);
}

#[test]
fn absent_fields_have_defaults() {
    match parse(r#"{"k":2,"i":3}"#).expect("valid response") {
        PacketBody::ApiResponse {
            request_id,
            ok,
            status,
            data,
            error,
            metadata,
        } => {
            assert_eq!(request_id, 3);
            assert!(!ok);
            assert_eq!(status, 0);
            assert_eq!(data, Json::Null);
            assert!(error.is_none());
            assert_eq!(metadata, Json::Null);
        }
        other => panic!("unexpected body: {other:?}"),
    }
    match parse(r#"{"k":1,"i":3,"n":"x"}"#).expect("valid event") {
        PacketBody::EventEmit {
            data, expect_ack, ..
        } => {
            assert!(data.is_empty());
            assert!(!expect_ack);
        }
        other => panic!("unexpected body: {other:?}"),
    }
}

#[test]
fn status_keeps_its_low_bits() {
    match parse(r#"{"k":2,"i":3,"s":65736}"#).expect("valid response") {
        PacketBody::ApiResponse { status, .. } => assert_eq!(status, 200),
        other => panic!("unexpected body: {other:?}"),
    }
}

#[test]
fn malformed_bodies_are_refused() {
    let cases = [
        ("[]", "packet body must be a JSON object"),
        ("{}", "missing or non-numeric 'k' field in packet body"),
        (
            r#"{"k":"0"}"#,
            "missing or non-numeric 'k' field in packet body",
        ),
        (r#"{"k":256}"#, "'k' value 256 is outside the valid range"),
        (r#"{"k":4}"#, "unknown 'k' value: 4"),
        (
            r#"{"k":0,"r":"x"}"#,
            "missing or non-numeric 'i' field in packet body",
        ),
        (
            r#"{"k":0,"i":-1,"r":"x"}"#,
            "missing or non-numeric 'i' field in packet body",
        ),
        (
            r#"{"k":0,"i":1,"r":5}"#,
            "missing or non-string 'r' field in packet body",
        ),
        (
            r#"{"k":1,"i":1}"#,
            "missing or non-string 'n' field in packet body",
        ),
        (
            r#"{"k":1,"i":1,"n":"x","d":[]}"#,
            "'d' field must be a JSON object",
        ),
        (
            r#"{"k":0,"i":1,"r":"x","a":[{"id":"f"}]}"#,
            "missing field `name`",
        ),
        (
            r#"{"k":3,"i":1,"er":null}"#,
            "invalid type: null, expected struct ErrorPayload",
        ),
    ];
    for (text, reason) in cases {
        assert_eq!(parse(text).expect_err(text), reason);
    }
}

#[test]
fn a_later_member_replaces_an_earlier_one() {
    match parse(r#"{"k":3,"i":1,"i":2,"o":true}"#).expect("valid ack") {
        PacketBody::EventAck { event_id, .. } => assert_eq!(event_id, 2),
        other => panic!("unexpected body: {other:?}"),
    }
    let mut map = JsonMap::new();
    map.insert("a".to_string(), Json::Unsigned(1));
    map.insert("b".to_string(), Json::Unsigned(2));
    map.insert("a".to_string(), Json::Unsigned(3));
    assert_eq!(map.get("a"), Some(&Json::Unsigned(3)));
    assert_eq!(map.get("c"), None);
    assert_eq!(Json::Object(map).to_vec(), br#"{"a":3,"b":2}"#.to_vec());
}

#[test]
fn error_details_that_are_null_are_left_out_when_read() {
    match parse(r#"{"k":3,"i":1,"er":{"code":"c","message":"m","status":404,"details":null}}"#)
        .expect("valid ack")
    {
        PacketBody::EventAck {
            error: Some(error), ..
        } => {
            assert_eq!(error.code, "c");
            assert_eq!(error.message, "m");
            assert_eq!(error.status, 404);
            assert!(error.details.is_none());
        }
        other => panic!("unexpected body: {other:?}"),
    }
    match parse(r#"{"k":3,"i":1,"er":["c","m",404,{"x":1}]}"#).expect("valid ack") {
        PacketBody::EventAck {
            error: Some(error), ..
        } => assert!(error.details.is_some()),
        other => panic!("unexpected body: {other:?}"),
    }
    assert!(parse(r#"{"k":3,"i":1,"er":{"code":"c","message":"m","status":65536}}"#).is_err());
}

#[test]
fn attachment_json_round_trips() {
    let attachment =
        FileAttachment::inline_bytes("f1", "a.bin", "text/plain", Bytes::from(vec![0, 255]));
    let value = attachment.to_json();
    assert_eq!(
        value.to_vec(),
        br#"{"id":"f1","name":"a.bin","content_type":"text/plain","data":[0,255]}"#.to_vec()
    );
    let read = FileAttachment::from_json(value).expect("valid attachment");
    assert_eq!(read.id, "f1");
    assert_eq!(read.name, "a.bin");
    assert_eq!(read.content_type, "text/plain");
    assert_eq!(&read.data[..], &[0, 255]);
}

#[test]
fn attachment_json_is_strict() {
    let read = |text: &str| {
        FileAttachment::from_json(Json::from_slice(text.as_bytes()).expect("valid JSON"))
    };
    assert!(read(r#"["f","n","t",[1,2]]"#).is_ok());
    let cases = [
        (r#"["f","n","t",[1,2],0]"#, "invalid length 5, expected fewer elements in array"),
        (r#"["f","n","t"]"#, "invalid length 3, expected struct FileAttachment"),
        (r#"["f",1]"#, "invalid type: integer `1`, expected a string"),
        (
            r#"{"id":"f","name":"n","content_type":"t","data":[1,256]}"#,
            "invalid value: integer `256`, expected u8",
        ),
        (
            r#"{"id":"f","name":"n","content_type":"t","data":[-1]}"#,
            "invalid value: integer `-1`, expected u8",
        ),
        (
            r#"{"id":"f","name":"n","content_type":"t","data":[1.5]}"#,
            "invalid type: floating point `1.5`, expected u8",
        ),
        (
            r#"{"id":"f","name":"n","content_type":"t","data":"x"}"#,
            "invalid type: string \"x\", expected a sequence",
        ),
        (
            r#"{"id":"f","name":"n","content_type":"t","data":[],"x":1}"#,
            "unknown field `x`, expected one of `id`, `name`, `content_type`, `data`",
        ),
        (r#"{"id":"f","name":"n","data":[]}"#, "missing field `content_type`"),
        (r#"{"id":null,"x":1}"#, "invalid type: null, expected a string"),
        (r#"{"x":1,"id":null}"#, "unknown field `x`, expected one of `id`, `name`, `content_type`, `data`"),
        ("3", "invalid type: integer `3`, expected struct FileAttachment"),
        ("true", "invalid type: boolean `true`, expected struct FileAttachment"),
    ];
    for (text, reason) in cases {
        assert_eq!(read(text).expect_err(text), reason);
    }
}

#[test]
fn attachments_in_the_json_form_are_honoured() {
    let body = parse(
        r#"{"k":0,"i":1,"r":"x","a":[{"id":"f","name":"n","content_type":"t","data":[7]}]}"#,
    )
    .expect("valid request");
    assert_eq!(body.attachments().len(), 1);
    assert_eq!(&body.attachments()[0].data[..], &[7]);
}

#[test]
fn param_ref_names_the_attachment() {
    assert_eq!(
        FileAttachment::param_ref("f1").to_vec(),
        br#"{"$file":"f1"}"#.to_vec()
    );
}

#[test]
fn numbers_keep_their_kind() {
    let value = Json::from_slice(b"[0,18446744073709551615,-9223372036854775808,1.5]")
        .expect("valid JSON");
    match &value {
        Json::Array(items) => {
            assert_eq!(items[0], Json::Unsigned(0));
            assert_eq!(items[1], Json::Unsigned(u64::MAX));
            assert_eq!(items[2], Json::Signed(i64::MIN));
            assert!(matches!(items[3], Json::Float(_)));
            assert_eq!(items[1].as_u64(), Some(u64::MAX));
            assert_eq!(items[2].as_u64(), None);
            assert_eq!(items[3].as_u64(), None);
        }
        other => panic!("unexpected value: {other:?}"),
    }
    assert_eq!(
        value.to_vec(),
        b"[0,18446744073709551615,-9223372036854775808,1.5]".to_vec()
    );
    assert_eq!(value.clone(), value);
    assert_eq!(Json::Signed(5).as_u64(), Some(5));
}

#[test]
fn nesting_is_limited_when_read() {
    let nested = |depth: usize| {
        let mut value = Json::Null;
        for _ in 0..depth {
            value = Json::Array(vec![value]);
        }
        value
    };
    let deepest = nested(127);
    assert_eq!(Json::from_slice(&deepest.to_vec()), Ok(deepest));
    assert!(Json::from_slice(&nested(128).to_vec()).is_err());
}

#[test]
fn text_that_is_not_json_is_refused() {
    let reason = Json::from_slice(b"{").expect_err("truncated object");
    assert!(reason.contains("EOF"));
    assert!(Json::from_slice(b"").is_err());
    assert!(Json::from_slice(b"{} x").is_err());
}

#[test]
fn malformed_fields_are_reported_in_the_words_of_serde() {
    let cases = [
        (r#"{"k":0,"i":1,"r":"x","a":{}}"#, "invalid type: map, expected a sequence"),
        (
            r#"{"k":0,"i":1,"r":"x","a":[["f","n","t",[]],7]}"#,
            "invalid type: integer `7`, expected struct FileAttachment",
        ),
        (r#"{"k":3,"i":1,"er":"x"}"#, "invalid type: string \"x\", expected struct ErrorPayload"),
        (r#"{"k":3,"i":1,"er":{"message":1,"code":2}}"#, "invalid type: integer `1`, expected a string"),
        (r#"{"k":3,"i":1,"er":{"code":"c","status":1}}"#, "missing field `message`"),
        (
            r#"{"k":3,"i":1,"er":{"code":"c","message":"m","status":65536}}"#,
            "invalid value: integer `65536`, expected u16",
        ),
        (
            r#"{"k":3,"i":1,"er":{"code":"c","message":"m","status":[]}}"#,
            "invalid type: sequence, expected u16",
        ),
        (
            r#"{"k":3,"i":1,"er":["c","m"]}"#,
            "invalid length 2, expected struct ErrorPayload with 4 elements",
        ),
        (
            r#"{"k":3,"i":1,"er":["c","m",1,2,3]}"#,
            "invalid length 5, expected fewer elements in array",
        ),
    ];
    for (text, reason) in cases {
        assert_eq!(parse(text).expect_err(text), reason);
    }
}

#[test]
fn envelopes_have_a_json_form() {
    let packet = PacketEnvelope::with_encryption(
        PacketBody::EventAck {
            event_id: 7,
            ok: true,
            receipt: Json::Null,
            error: None,
        },
        EncryptionKind::Aes256,
    );
    let text = br#"{"message_type":"Event","encryption":"Aes256","body":{"k":3,"i":7,"o":true,"rc":null}}"#;
    assert_eq!(packet.to_json().to_vec(), text.to_vec());
    let read = PacketEnvelope::from_json(packet.to_json()).expect("valid envelope");
    assert_eq!(read.message_type, MessageType::Event);
    assert_eq!(read.encryption, EncryptionKind::Aes256);
    assert!(matches!(read.body, PacketBody::EventAck { event_id: 7, ok: true, .. }));

    let plain = PacketEnvelope::new(packet.body.clone());
    let text = plain.to_json().to_vec();
    assert!(String::from_utf8(text).expect("text").contains(r#""encryption":"None""#));
}

#[test]
fn malformed_envelopes_are_refused() {
    let read = |text: &str| {
        PacketEnvelope::from_json(Json::from_slice(text.as_bytes()).expect("valid JSON"))
    };
    assert!(read(r#"[{"Event":null},"None",{"k":3,"i":7}]"#).is_ok());
    assert!(read(r#"{"x":1,"message_type":"Api","encryption":"None","body":{"k":2,"i":7}}"#).is_ok());
    let cases = [
        ("7", "invalid type: integer `7`, expected struct PacketEnvelope"),
        (r#"{"message_type":"Api"}"#, "missing field `encryption`"),
        (r#"{}"#, "missing field `message_type`"),
        (r#"{"message_type":"Auth"}"#, "unknown variant `Auth`, expected `Api` or `Event`"),
        (
            r#"{"encryption":"Plaintext"}"#,
            "unknown variant `Plaintext`, expected one of `None`, `ChaCha20`, `Aes256`",
        ),
        (r#"{"encryption":1}"#, "invalid type: integer `1`, expected string or map"),
        (r#"{"encryption":{}}"#, "invalid value: map, expected map with a single key"),
        (r#"{"encryption":{"None":1}}"#, "invalid type: integer `1`, expected unit"),
        (r#"{"encryption":{"None":null,"x":1}}"#, "invalid value: map, expected map with a single key"),
        (r#"{"body":1,"encryption":1}"#, "packet body must be a JSON object"),
        (r#"["Api"]"#, "invalid length 1, expected struct PacketEnvelope with 3 elements"),
        (
            r#"["Api","None",{"k":2,"i":7},4]"#,
            "invalid length 4, expected fewer elements in array",
        ),
    ];
    for (text, reason) in cases {
        assert_eq!(read(text).expect_err(text), reason);
    }
    assert_eq!(MessageType::from_json(&MessageType::Api.to_json()), Ok(MessageType::Api));
    assert_eq!(
        EncryptionKind::from_json(&EncryptionKind::Plaintext.to_json()),
        Ok(EncryptionKind::Plaintext)
    );
}
