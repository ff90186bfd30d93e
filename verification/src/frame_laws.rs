//! Laws of the frame: which packets have one, where each byte of it stands, and what
//! the other side reads from it.
use crate::attachment;
use crate::attachment::Attachment;
use crate::auth;
use crate::auth::{AuthEnvelope, AuthInfo};
use crate::buffer;
use crate::codec;
use crate::codec::Codec;
use crate::crypto;
use crate::error::Failure;
use crate::json;
use crate::json::Tree;
use crate::packet::{Body, EncryptionKind, ErrorInfo, MessageType, Packet};
use crate::text;
use vstd::prelude::*;
use vstd::utf8::*;

verus! {

/// Numbers are written with the most significant byte first, and four bytes are read
/// so.
pub proof fn lemma_numbers_are_big_endian(n: nat, bytes: Seq<u8>)
    requires
        n < 0x1_0000_0000,
        bytes.len() >= 4,
    ensures
        buffer::be32(n).len() == 4,
        buffer::be32(n)[0] * 0x100_0000 + buffer::be32(n)[1] * 0x1_0000 + buffer::be32(n)[2] * 0x100
            + buffer::be32(n)[3] == n,
        buffer::be32_value(bytes) == bytes[0] * 0x100_0000 + bytes[1] * 0x1_0000 + bytes[2] * 0x100
            + bytes[3],
{
}

proof fn lemma_composite_is_long_enough(body: Body)
    ensures
        codec::composite(body).len() >= 5,
{
}

/// A plaintext packet has a frame exactly where its composite payload and the six
/// bytes of the header keep to the limit.
pub proof fn lemma_plaintext_has_frame(codec: Codec, packet: Packet, nonce: Seq<u8>)
    requires
        packet.encryption == EncryptionKind::Plaintext,
    ensures
        codec.encode(packet, nonce) is Ok <==> 6 + codec::composite(packet.body).len()
            <= codec.max_frame_bytes,
        codec.encode(packet, nonce) matches Err(e) ==> e == (Failure::PayloadTooLarge {
            actual: codec::composite(packet.body).len(),
            max: if codec.max_frame_bytes < 6 {
                0
            } else {
                (codec.max_frame_bytes - 6) as nat
            },
        }),
{
    lemma_composite_is_long_enough(packet.body);
}

/// A packet that is encrypted with ChaCha20-Poly1305 has a frame exactly where there is
/// a key, the composite payload is no longer than the cipher's 2^32 - 2 blocks of 64
/// bytes, and with the header, the nonce of 12 bytes and the tag of 16 it keeps to the
/// limit.
pub proof fn lemma_chacha20_packet_has_frame(codec: Codec, packet: Packet, nonce: Seq<u8>)
    requires
        packet.encryption == EncryptionKind::ChaCha20,
    ensures
        codec.encode(packet, nonce) is Ok <==> {
            &&& codec.chacha20_key is Some
            &&& codec::composite(packet.body).len() <= 274877906816
            &&& 6 + 12 + codec::composite(packet.body).len() + 16 <= codec.max_frame_bytes
        },
        codec.encode(packet, nonce) matches Err(e) ==> {
            ||| e is PayloadTooLarge && 6 + 12 + codec::composite(packet.body).len() + 16
                > codec.max_frame_bytes
            ||| e == Failure::MissingEncryptionKey("chacha20"@) && codec.chacha20_key is None
            ||| e == Failure::EncryptionFailed("chacha20"@) && codec::composite(packet.body).len()
                > 274877906816
        },
{
    lemma_composite_is_long_enough(packet.body);
}

/// A packet that is encrypted with AES-256-GCM has a frame exactly where there is a key,
/// the composite payload is no longer than the 2^36 bytes that the cipher takes, and with
/// the header, the nonce of 12 bytes and the tag of 16 it keeps to the limit.
pub proof fn lemma_aes256_packet_has_frame(codec: Codec, packet: Packet, nonce: Seq<u8>)
    requires
        packet.encryption == EncryptionKind::Aes256,
    ensures
        codec.encode(packet, nonce) is Ok <==> {
            &&& codec.aes256_key is Some
            &&& codec::composite(packet.body).len() <= 68719476736
            &&& 6 + 12 + codec::composite(packet.body).len() + 16 <= codec.max_frame_bytes
        },
        codec.encode(packet, nonce) matches Err(e) ==> {
            ||| e is PayloadTooLarge && 6 + 12 + codec::composite(packet.body).len() + 16
                > codec.max_frame_bytes
            ||| e == Failure::MissingEncryptionKey("aes256"@) && codec.aes256_key is None
            ||| e == Failure::EncryptionFailed("aes256"@) && codec::composite(packet.body).len()
                > 68719476736
        },
{
    lemma_composite_is_long_enough(packet.body);
}

/// The same holds of the messages of the authentication phase.
pub proof fn lemma_auth_message_has_frame(codec: Codec, packet: AuthEnvelope, nonce: Seq<u8>)
    ensures
        codec.encode_auth(packet, nonce) is Ok <==> match packet.encryption {
            EncryptionKind::Plaintext => 6 + packet.message.composite().len()
                <= codec.max_frame_bytes,
            EncryptionKind::ChaCha20 => {
                &&& codec.chacha20_key is Some
                &&& packet.message.composite().len() <= 274877906816
                &&& 6 + 12 + packet.message.composite().len() + 16 <= codec.max_frame_bytes
            },
            EncryptionKind::Aes256 => {
                &&& codec.aes256_key is Some
                &&& packet.message.composite().len() <= 68719476736
                &&& 6 + 12 + packet.message.composite().len() + 16 <= codec.max_frame_bytes
            },
        },
        packet.message.composite().len() == 5 + json::json_text(packet.message.tree()).len(),
{
}

/// Encoding fails for no other reason than that the packet has no frame, or that the
/// random source gives no nonce, which it is asked for only where there is a key.
pub proof fn lemma_encoding_fails_only_without_room(codec: Codec, packet: Packet, e: Failure)
    requires
        codec.refuses_with(packet, e),
        match packet.encryption {
            EncryptionKind::Plaintext => 6 + codec::composite(packet.body).len()
                <= codec.max_frame_bytes,
            EncryptionKind::ChaCha20 => {
                &&& codec.chacha20_key is Some
                &&& codec::composite(packet.body).len() <= 274877906816
                &&& 34 + codec::composite(packet.body).len() <= codec.max_frame_bytes
            },
            EncryptionKind::Aes256 => {
                &&& codec.aes256_key is Some
                &&& codec::composite(packet.body).len() <= 68719476736
                &&& 34 + codec::composite(packet.body).len() <= codec.max_frame_bytes
            },
        },
    ensures
        packet.encryption != EncryptionKind::Plaintext,
        e matches Failure::Random(source) && crypto::draw_failed::<12>(source),
{
    lemma_composite_is_long_enough(packet.body);
}

/// A composite payload is four bytes with the length of the JSON text, that text, one
/// byte with the number of attachments, and their sections one after the other.
pub proof fn lemma_composite_layout(body: Body)
    requires
        json::json_text(body.tree()).len() < 0x1_0000_0000,
        body.attachments().len() <= 255,
    ensures
        ({
            let bytes = codec::composite(body);
            let text = json::json_text(body.tree());
            &&& bytes[0] * 0x100_0000 + bytes[1] * 0x1_0000 + bytes[2] * 0x100 + bytes[3]
                == text.len()
            &&& bytes.subrange(4, 4 + text.len() as int) == text
            &&& bytes[4 + text.len() as int] == body.attachments().len()
            &&& bytes.subrange(5 + text.len() as int, bytes.len() as int) == attachment::sections(
                body.attachments(),
            )
        }),
{
    let text = json::json_text(body.tree());
    let count = (body.attachments().len() % 256) as u8;
    let tail = attachment::sections(body.attachments());
    codec::lemma_composite_parts(text, count, tail);
    lemma_numbers_are_big_endian(text.len(), codec::composite(body));
}

/// A section is the three texts, each behind a byte with its length, then four bytes with
/// the length of the data, and the data.
pub proof fn lemma_section_layout(file: Attachment)
    requires
        encode_utf8(file.id).len() <= 255,
        encode_utf8(file.name).len() <= 255,
        encode_utf8(file.content_type).len() <= 255,
        file.data.len() < 0x1_0000_0000,
    ensures
        ({
            let bytes = file.section();
            let a = encode_utf8(file.id).len() as int;
            let b = encode_utf8(file.name).len() as int;
            let c = encode_utf8(file.content_type).len() as int;
            &&& bytes.len() == 7 + a + b + c + file.data.len()
            &&& bytes[0] == a
            &&& bytes.subrange(1, 1 + a) == encode_utf8(file.id)
            &&& bytes[1 + a] == b
            &&& bytes.subrange(2 + a, 2 + a + b) == encode_utf8(file.name)
            &&& bytes[2 + a + b] == c
            &&& bytes.subrange(3 + a + b, 3 + a + b + c) == encode_utf8(file.content_type)
            &&& bytes[3 + a + b + c] * 0x100_0000 + bytes[4 + a + b + c] * 0x1_0000 + bytes[5 + a
                + b + c] * 0x100 + bytes[6 + a + b + c] == file.data.len()
            &&& bytes.subrange(7 + a + b + c, bytes.len() as int) == file.data
        }),
{
    let bytes = file.section();
    let id = encode_utf8(file.id);
    let name = encode_utf8(file.name);
    let kind = encode_utf8(file.content_type);
    let a = id.len() as int;
    let b = name.len() as int;
    let c = kind.len() as int;
    let len = buffer::be32(file.data.len());
    assert(bytes.subrange(1, 1 + a) =~= id);
    assert(bytes.subrange(2 + a, 2 + a + b) =~= name);
    assert(bytes.subrange(3 + a + b, 3 + a + b + c) =~= kind);
    assert(bytes.subrange(7 + a + b + c, bytes.len() as int) =~= file.data);
    assert(bytes[3 + a + b + c] == len[0]);
    assert(bytes[4 + a + b + c] == len[1]);
    assert(bytes[5 + a + b + c] == len[2]);
    assert(bytes[6 + a + b + c] == len[3]);
    lemma_numbers_are_big_endian(file.data.len(), len);
}

/// The sections of several attachments stand one after the other, in order.
pub proof fn lemma_sections_follow_each_other(
    files: Seq<Attachment>,
    file: Attachment,
)
    ensures
        attachment::sections(Seq::empty()) == Seq::<u8>::empty(),
        attachment::sections(files.push(file)) == attachment::sections(files) + file.section(),
{
    assert(files.push(file).drop_last() =~= files);
}

/// Where each byte of a frame stands: the length of what follows, the codes of the
/// message type and of the encryption mode, and the payload. That of a plaintext frame is
/// the composite payload; an encrypted one is the nonce and what the cipher makes of the
/// composite payload with the key of its mode.
pub proof fn lemma_frame_layout(codec: Codec, packet: Packet, nonce: Seq<u8>, bytes: Seq<u8>)
    requires
        codec.encode(packet, nonce) == Ok::<Seq<u8>, Failure>(bytes),
        nonce.len() == 12,
        bytes.len() - 4 < 0x1_0000_0000,
    ensures
        bytes[0] * 0x100_0000 + bytes[1] * 0x1_0000 + bytes[2] * 0x100 + bytes[3] == bytes.len()
            - 4,
        bytes[4] == match packet.message_type {
            MessageType::Api => 0u8,
            MessageType::Event => 1u8,
        },
        match packet.encryption {
            EncryptionKind::Plaintext => {
                &&& bytes[5] == 0
                &&& bytes.subrange(6, bytes.len() as int) == codec::composite(packet.body)
            },
            EncryptionKind::ChaCha20 => {
                &&& bytes[5] == 1
                &&& bytes.subrange(6, 18) == nonce
                &&& codec.chacha20_key matches Some(key) && bytes.subrange(18, bytes.len() as int)
                    == crypto::chacha20_seal(key, nonce, codec::composite(packet.body))
            },
            EncryptionKind::Aes256 => {
                &&& bytes[5] == 2
                &&& bytes.subrange(6, 18) == nonce
                &&& codec.aes256_key matches Some(key) && bytes.subrange(18, bytes.len() as int)
                    == crypto::aes256_seal(key, nonce, codec::composite(packet.body))
            },
        },
{
    codec::lemma_encoded_frame_declares_length(codec, packet, nonce, bytes);
    lemma_composite_is_long_enough(packet.body);
    match packet.encryption {
        EncryptionKind::Plaintext => {
            assert(bytes.subrange(6, bytes.len() as int) =~= codec::composite(packet.body));
        },
        EncryptionKind::ChaCha20 => {
            let key = codec.chacha20_key->Some_0;
            let sealed = crypto::chacha20_seal(key, nonce, codec::composite(packet.body));
            assert(bytes.subrange(6, 18) =~= nonce);
            assert(bytes.subrange(18, bytes.len() as int) =~= sealed);
        },
        EncryptionKind::Aes256 => {
            let key = codec.aes256_key->Some_0;
            let sealed = crypto::aes256_seal(key, nonce, codec::composite(packet.body));
            assert(bytes.subrange(6, 18) =~= nonce);
            assert(bytes.subrange(18, bytes.len() as int) =~= sealed);
        },
    }
}

/// What is checked of a frame before its payload is looked at, in this order: it holds a
/// header, the header declares its length, it keeps to the limit, and the codes of its
/// type and of its mode are known. What is then decoded has that type and that mode.
pub proof fn lemma_frame_is_checked_in_order(codec: Codec, frame: Seq<u8>)
    ensures
        ({
            let declared = (frame[0] * 0x100_0000 + frame[1] * 0x1_0000 + frame[2] * 0x100
                + frame[3]) as nat;
            let result = codec.decode(frame);
            if frame.len() < 6 {
                result == Err::<Packet, Failure>(Failure::FrameTooShort)
            } else if declared != frame.len() - 4 {
                result == Err::<Packet, Failure>(
                    Failure::FrameLengthMismatch { declared, actual: (frame.len() - 4) as nat },
                )
            } else if frame.len() > codec.max_frame_bytes {
                result == Err::<Packet, Failure>(
                    Failure::FrameTooLarge { actual: frame.len(), max: codec.max_frame_bytes },
                )
            } else if frame[4] > 1 {
                result == Err::<Packet, Failure>(Failure::UnknownMessageType(frame[4]))
            } else if frame[5] > 2 {
                result == Err::<Packet, Failure>(Failure::UnknownEncryption(frame[5]))
            } else {
                result matches Ok(packet) ==> {
                    &&& packet.message_type == packet.body.message_type()
                    &&& packet.message_type is Api <==> frame[4] == 0
                    &&& packet.encryption is Plaintext <==> frame[5] == 0
                    &&& packet.encryption is ChaCha20 <==> frame[5] == 1
                    &&& packet.encryption is Aes256 <==> frame[5] == 2
                }
            }
        }),
{
    reveal(codec::decode_composite);
}

/// A plaintext frame whose header is right is decoded from its payload: the JSON text
/// behind the four bytes with its length, and as many attachments as the byte behind it
/// says. The packet has the body that the text stands for, with these attachments.
pub proof fn lemma_plaintext_is_decoded(codec: Codec, frame: Seq<u8>)
    requires
        6 <= frame.len() <= codec.max_frame_bytes,
        frame[0] * 0x100_0000 + frame[1] * 0x1_0000 + frame[2] * 0x100 + frame[3] == frame.len()
            - 4,
        frame[4] <= 1,
        frame[5] == 0,
    ensures
        ({
            let text_len = if frame.len() < 10 {
                0
            } else {
                frame[6] * 0x100_0000 + frame[7] * 0x1_0000 + frame[8] * 0x100 + frame[9]
            };
            if frame.len() < 11 || frame.len() < 11 + text_len {
                codec.decode(frame) == Err::<Packet, Failure>(Failure::FrameTooShort)
            } else {
                let files = attachment::read_sections(
                    frame.subrange(11 + text_len, frame.len() as int),
                    frame[10 + text_len] as nat,
                );
                let body = codec::read_text(frame.subrange(10, 10 + text_len));
                match (files, body) {
                    (Err(reason), _) => codec.decode(frame) == Err::<Packet, Failure>(
                        Failure::InvalidAttachmentEncoding(reason),
                    ),
                    (_, Err(reason)) => codec.decode(frame) == Err::<Packet, Failure>(
                        Failure::Json(reason),
                    ),
                    (Ok((attachments, _)), Ok(body)) => if (body.message_type() is Api) != (frame[4]
                        == 0) {
                        codec.decode(frame) == Err::<Packet, Failure>(Failure::MessageTypeMismatch)
                    } else {
                        codec.decode(frame) matches Ok(packet) && packet.body
                            == body.with_attachments(attachments)
                    },
                }
            }
        }),
{
    reveal(codec::decode_composite);
    let payload = frame.subrange(6, frame.len() as int);
    if frame.len() >= 11 {
        assert(payload[0] == frame[6]);
        assert(payload[1] == frame[7]);
        assert(payload[2] == frame[8]);
        assert(payload[3] == frame[9]);
        let text_len = buffer::be32_value(payload) as int;
        if frame.len() >= 11 + text_len {
            assert(payload.subrange(4, 4 + text_len) =~= frame.subrange(10, 10 + text_len));
            assert(payload.subrange(5 + text_len, payload.len() as int) =~= frame.subrange(
                11 + text_len,
                frame.len() as int,
            ));
        }
    }
}

/// An encrypted frame whose header is right is opened with the key of its mode: the
/// first twelve bytes of the payload are the nonce. Without a key, or where the cipher
/// does not open it, it is not decoded.
pub proof fn lemma_encrypted_frame_is_opened(codec: Codec, frame: Seq<u8>)
    requires
        6 <= frame.len() <= codec.max_frame_bytes,
        frame[0] * 0x100_0000 + frame[1] * 0x1_0000 + frame[2] * 0x100 + frame[3] == frame.len()
            - 4,
        frame[4] <= 1,
        frame[5] == 1 || frame[5] == 2,
    ensures
        ({
            let name = if frame[5] == 1 {
                "chacha20"@
            } else {
                "aes256"@
            };
            let key = if frame[5] == 1 {
                codec.chacha20_key
            } else {
                codec.aes256_key
            };
            if frame.len() < 18 {
                codec.decode(frame) == Err::<Packet, Failure>(
                    Failure::EncryptedPayloadTooShort {
                        algorithm: name,
                        expected_min: 12,
                        actual: (frame.len() - 6) as nat,
                    },
                )
            } else if key is None {
                codec.decode(frame) == Err::<Packet, Failure>(Failure::MissingEncryptionKey(name))
            } else {
                let nonce = frame.subrange(6, 18);
                let sealed = frame.subrange(18, frame.len() as int);
                let opened = if frame[5] == 1 {
                    crypto::chacha20_open(key->Some_0, nonce, sealed)
                } else {
                    crypto::aes256_open(key->Some_0, nonce, sealed)
                };
                match opened {
                    None => codec.decode(frame) == Err::<Packet, Failure>(
                        Failure::DecryptionFailed(name),
                    ),
                    Some(plaintext) => codec.decode(frame) == codec::decode_composite(
                        if frame[4] == 0 {
                            MessageType::Api
                        } else {
                            MessageType::Event
                        },
                        if frame[5] == 1 {
                            EncryptionKind::ChaCha20
                        } else {
                            EncryptionKind::Aes256
                        },
                        plaintext,
                    ),
                }
            }
        }),
{
    let payload = frame.subrange(6, frame.len() as int);
    if frame.len() >= 18 {
        assert(payload.subrange(0, 12) =~= frame.subrange(6, 18));
        assert(payload.subrange(12, payload.len() as int) =~= frame.subrange(
            18,
            frame.len() as int,
        ));
    }
}

/// What arrives of a packet: every field as it was sent, but that metadata which is
/// an empty object arrives as null, and an error's details that are null are left out.
pub proof fn lemma_packet_arrives_as_sent(packet: Packet)
    ensures
        ({
            let arrived = codec::received(packet);
            &&& arrived.message_type == packet.message_type
            &&& arrived.encryption == packet.encryption
            &&& match (packet.body, arrived.body) {
                (
                    Body::ApiRequest { request_id, route, params, attachments, metadata },
                    Body::ApiRequest {
                        request_id: id,
                        route: wanted,
                        params: given,
                        attachments: files,
                        metadata: noted,
                    },
                ) => {
                    &&& id == request_id
                    &&& wanted == route
                    &&& given == params
                    &&& files == attachments
                    &&& noted == if metadata == Tree::Object(Seq::empty()) {
                        Tree::Null
                    } else {
                        metadata
                    }
                },
                (
                    Body::ApiResponse { request_id, ok, status, data, error, metadata },
                    Body::ApiResponse {
                        request_id: id,
                        ok: success,
                        status: number,
                        data: value,
                        error: reason,
                        metadata: noted,
                    },
                ) => {
                    &&& id == request_id
                    &&& success == ok
                    &&& number == status
                    &&& value == data
                    &&& arrives(error, reason)
                    &&& noted == if metadata == Tree::Object(Seq::empty()) {
                        Tree::Null
                    } else {
                        metadata
                    }
                },
                (
                    Body::EventEmit { event_id, name, data, attachments, metadata, expect_ack },
                    Body::EventEmit {
                        event_id: id,
                        name: title,
                        data: value,
                        attachments: files,
                        metadata: noted,
                        expect_ack: wanted,
                    },
                ) => {
                    &&& id == event_id
                    &&& title == name
                    &&& value == data
                    &&& files == attachments
                    &&& wanted == expect_ack
                    &&& noted == if metadata == Tree::Object(Seq::empty()) {
                        Tree::Null
                    } else {
                        metadata
                    }
                },
                (
                    Body::EventAck { event_id, ok, receipt, error },
                    Body::EventAck { event_id: id, ok: success, receipt: value, error: reason },
                ) => {
                    &&& id == event_id
                    &&& success == ok
                    &&& value == receipt
                    &&& arrives(error, reason)
                },
                _ => false,
            }
        }),
{
}

/// An error arrives: with its code, message and status, and its details but for null.
pub open spec fn arrives(sent: Option<ErrorInfo>, got: Option<ErrorInfo>) -> bool {
    match (sent, got) {
        (None, None) => true,
        (Some(sent), Some(got)) => {
            &&& got.code == sent.code
            &&& got.message == sent.message
            &&& got.status == sent.status
            &&& sent.details == Some(Tree::Null) ==> got.details is None
            &&& sent.details != Some(Tree::Null) ==> got.details == sent.details
        },
        _ => false,
    }
}

/// A packet survives a frame where its type is that of its body, it has at most 255
/// attachments, each with texts of at most 255 bytes and under 4 GiB of data, and its
/// JSON form holds no float and nests at most 127 deep.
pub proof fn lemma_ordinary_packet_survives(packet: Packet)
    requires
        packet.message_type is Api <==> (packet.body is ApiRequest || packet.body is ApiResponse),
        packet.body.attachments().len() <= 255,
        forall|i: int|
            0 <= i < packet.body.attachments().len() ==> {
                let file = #[trigger] packet.body.attachments()[i];
                &&& encode_utf8(file.id).len() <= 255
                &&& encode_utf8(file.name).len() <= 255
                &&& encode_utf8(file.content_type).len() <= 255
                &&& file.data.len() < 0x1_0000_0000
            },
        json::exact_within(packet.body.tree(), 127),
    ensures
        codec::survives(packet),
        packet.body matches Body::ApiRequest { attachments, .. } ==> packet.body.attachments()
            == attachments,
        packet.body matches Body::EventEmit { attachments, .. } ==> packet.body.attachments()
            == attachments,
{
}

/// A frame is read by every peer that has the sender's key of the frame's mode and a
/// limit that the frame keeps to; a plaintext frame needs no key.
pub proof fn lemma_frame_reaches_peer(sender: Codec, peer: Codec, packet: Packet, bytes: Seq<u8>)
    requires
        codec::round_trips(sender, packet, bytes),
        codec::survives(packet),
        bytes.len() <= peer.max_frame_bytes,
        bytes.len() - 4 < 0x1_0000_0000,
        match packet.encryption {
            EncryptionKind::Plaintext => true,
            EncryptionKind::ChaCha20 => peer.chacha20_key == sender.chacha20_key,
            EncryptionKind::Aes256 => peer.aes256_key == sender.aes256_key,
        },
    ensures
        peer.decode(bytes) == Ok::<Packet, Failure>(codec::received(packet)),
{
}

/// The JSON form of each body: which member holds what.
pub proof fn lemma_json_form_of_body(body: Body)
    ensures
        body.tree() matches Tree::Object(members) && match body {
            Body::ApiRequest { request_id, route, params, metadata, .. } => {
                &&& members[0] == ("k"@, Tree::Int(0))
                &&& members[1] == ("i"@, Tree::Int(request_id as int))
                &&& members[2] == ("r"@, Tree::Text(route))
                &&& members[3] == ("p"@, params)
                &&& if metadata is Null || metadata == Tree::Object(Seq::empty()) {
                    members.len() == 4
                } else {
                    members.len() == 5 && members[4] == ("m"@, metadata)
                }
            },
            Body::EventEmit { event_id, name, data, metadata, expect_ack, .. } => {
                &&& members[0] == ("k"@, Tree::Int(1))
                &&& members[1] == ("i"@, Tree::Int(event_id as int))
                &&& members[2] == ("n"@, Tree::Text(name))
                &&& members[3] == ("d"@, Tree::Object(data))
                &&& if metadata is Null || metadata == Tree::Object(Seq::empty()) {
                    members.len() == 5
                } else {
                    members.len() == 6 && members[4] == ("m"@, metadata)
                }
                &&& members[members.len() - 1] == ("e"@, Tree::Bool(expect_ack))
            },
            Body::ApiResponse { request_id, ok, status, data, error, metadata } => {
                let place: int = if error is Some {
                    6
                } else {
                    5
                };
                &&& members[0] == ("k"@, Tree::Int(2))
                &&& members[1] == ("i"@, Tree::Int(request_id as int))
                &&& members[2] == ("o"@, Tree::Bool(ok))
                &&& members[3] == ("s"@, Tree::Int(status as int))
                &&& members[4] == ("d"@, data)
                &&& error matches Some(e) ==> is_error_form(members[5], e)
                &&& if metadata is Null || metadata == Tree::Object(Seq::empty()) {
                    members.len() == place
                } else {
                    members.len() == place + 1 && members[place] == ("m"@, metadata)
                }
            },
            Body::EventAck { event_id, ok, receipt, error } => {
                &&& members[0] == ("k"@, Tree::Int(3))
                &&& members[1] == ("i"@, Tree::Int(event_id as int))
                &&& members[2] == ("o"@, Tree::Bool(ok))
                &&& members[3] == ("rc"@, receipt)
                &&& match error {
                    Some(e) => members.len() == 5 && is_error_form(members[4], e),
                    None => members.len() == 4,
                }
            },
        },
{
}

/// The member that holds an error.
pub open spec fn is_error_form(member: (Seq<char>, Tree), e: ErrorInfo) -> bool {
    member.0 == "er"@ && (member.1 matches Tree::Object(members) && {
        &&& members[0] == ("code"@, Tree::Text(e.code))
        &&& members[1] == ("message"@, Tree::Text(e.message))
        &&& members[2] == ("status"@, Tree::Int(e.status as int))
        &&& match e.details {
            Some(details) => members.len() == 4 && members[3] == ("details"@, details),
            None => members.len() == 3,
        }
    })
}

/// The JSON form of the messages of the authentication phase.
pub proof fn lemma_json_form_of_auth_message(message: AuthInfo)
    ensures
        message.tree() matches Tree::Object(members) && match message {
            AuthInfo::AuthRequest { credential } => members.len() == 2 && members[0] == (
                "k"@,
                Tree::Int(4),
            ) && members[1] == ("c"@, Tree::Text(credential)),
            AuthInfo::AuthResponse { ok, error } => {
                &&& members[0] == ("k"@, Tree::Int(5))
                &&& members[1] == ("o"@, Tree::Bool(ok))
                &&& match error {
                    Some(e) => members.len() == 3 && is_error_form(members[2], e),
                    None => members.len() == 2,
                }
            },
        },
{
}

/// The length of a frame: the header and the composite payload, and with encryption the
/// nonce and the tag.
pub proof fn lemma_frame_length(packet: Packet)
    ensures
        packet.encryption is Plaintext ==> codec::frame_len(packet) == 6 + codec::composite(
            packet.body,
        ).len(),
        !(packet.encryption is Plaintext) ==> codec::frame_len(packet) == 34 + codec::composite(
            packet.body,
        ).len(),
{
}

/// A frame that was encoded freshly is what encoding gives with a nonce: one from the
/// random source where the frame is encrypted.
pub proof fn lemma_fresh_frame_has_drawn_nonce(codec: Codec, packet: Packet, bytes: Seq<u8>)
    requires
        codec.encodes_to(packet, bytes),
        !(packet.encryption is Plaintext),
        bytes.len() - 4 < 0x1_0000_0000,
    ensures
        exists|nonce: [u8; 12]| #[trigger]
            crypto::is_drawn(nonce) && bytes.subrange(6, 18) == nonce@,
{
    let nonce = choose|nonce: Seq<u8>|
        nonce.len() == 12 && (packet.encryption != EncryptionKind::Plaintext ==> codec::is_fresh(
            nonce,
        )) && #[trigger] codec.encode(packet, nonce) == Ok::<Seq<u8>, Failure>(bytes);
    lemma_frame_layout(codec, packet, nonce, bytes);
    let drawn = choose|drawn: [u8; 12]| drawn@ == nonce && #[trigger] crypto::is_drawn(drawn);
    assert(crypto::is_drawn(drawn));
}

/// The checks of a frame of the authentication phase: as of any frame, and its type is
/// the third. A frame of a live connection is told from one of an unknown type.
pub proof fn lemma_auth_frame_is_checked_in_order(codec: Codec, frame: Seq<u8>)
    ensures
        ({
            let declared = (frame[0] * 0x100_0000 + frame[1] * 0x1_0000 + frame[2] * 0x100
                + frame[3]) as nat;
            let result = codec.decode_auth(frame);
            if frame.len() < 6 {
                result == Err::<AuthEnvelope, Failure>(Failure::FrameTooShort)
            } else if declared != frame.len() - 4 {
                result == Err::<AuthEnvelope, Failure>(
                    Failure::FrameLengthMismatch { declared, actual: (frame.len() - 4) as nat },
                )
            } else if frame.len() > codec.max_frame_bytes {
                result == Err::<AuthEnvelope, Failure>(
                    Failure::FrameTooLarge { actual: frame.len(), max: codec.max_frame_bytes },
                )
            } else if frame[4] > 2 {
                result == Err::<AuthEnvelope, Failure>(Failure::UnknownMessageType(frame[4]))
            } else if frame[4] < 2 {
                result == Err::<AuthEnvelope, Failure>(Failure::MessageTypeMismatch)
            } else if frame[5] > 2 {
                result == Err::<AuthEnvelope, Failure>(Failure::UnknownEncryption(frame[5]))
            } else {
                result matches Ok(packet) ==> {
                    &&& packet.encryption is Plaintext <==> frame[5] == 0
                    &&& packet.encryption is ChaCha20 <==> frame[5] == 1
                    &&& packet.encryption is Aes256 <==> frame[5] == 2
                }
            }
        }),
{
}

/// A plaintext frame of the authentication phase whose header is right is read from the
/// JSON text behind the four bytes with its length.
pub proof fn lemma_plaintext_auth_is_decoded(codec: Codec, frame: Seq<u8>)
    requires
        11 <= frame.len() <= codec.max_frame_bytes,
        frame[0] * 0x100_0000 + frame[1] * 0x1_0000 + frame[2] * 0x100 + frame[3] == frame.len()
            - 4,
        frame[4] == 2,
        frame[5] == 0,
    ensures
        ({
            let text_len = frame[6] * 0x100_0000 + frame[7] * 0x1_0000 + frame[8] * 0x100 + frame[9];
            if frame.len() < 11 + text_len {
                codec.decode_auth(frame) == Err::<AuthEnvelope, Failure>(Failure::FrameTooShort)
            } else {
                match json::json_parse(frame.subrange(10, 10 + text_len)) {
                    Err(reason) => codec.decode_auth(frame) == Err::<AuthEnvelope, Failure>(
                        Failure::Json(reason),
                    ),
                    Ok(tree) => match auth::read_auth(tree) {
                        Err(reason) => codec.decode_auth(frame) == Err::<AuthEnvelope, Failure>(
                            Failure::Json(reason),
                        ),
                        Ok(message) => codec.decode_auth(frame) matches Ok(packet)
                            && packet.message == message,
                    },
                }
            }
        }),
{
    reveal(auth::decode_composite);
    reveal(auth::read_auth_text);
    let payload = frame.subrange(6, frame.len() as int);
    assert(payload[0] == frame[6]);
    assert(payload[1] == frame[7]);
    assert(payload[2] == frame[8]);
    assert(payload[3] == frame[9]);
    let text_len = buffer::be32_value(payload) as int;
    if frame.len() >= 11 + text_len {
        assert(payload.subrange(4, 4 + text_len) =~= frame.subrange(10, 10 + text_len));
    }
}

/// What is read of the messages of the authentication phase: a credential is a text, and
/// only a `true` accepts it.
pub proof fn lemma_auth_message_is_read(members: Seq<(Seq<char>, Tree)>)
    ensures
        json::member(members, "k"@) == Some(Tree::Int(4)) ==> (match json::member(members, "c"@) {
            Some(Tree::Text(credential)) => auth::read_auth(Tree::Object(members)) == Ok::<
                AuthInfo,
                Seq<char>,
            >(AuthInfo::AuthRequest { credential }),
            _ => auth::read_auth(Tree::Object(members)) is Err,
        }),
        json::member(members, "k"@) == Some(Tree::Int(5)) && json::member(members, "er"@) is None
            ==> auth::read_auth(Tree::Object(members)) == Ok::<AuthInfo, Seq<char>>(
            AuthInfo::AuthResponse {
                ok: json::member(members, "o"@) == Some(Tree::Bool(true)),
                error: None,
            },
        ),
        json::member(members, "k"@) matches Some(Tree::Int(k)) ==> (k < 4 || k > 5
            ==> auth::read_auth(Tree::Object(members)) is Err),
{
}

/// What a message of the authentication phase says, as it is sent and as it arrives: the
/// credential, that it is accepted, or the error with which it is refused.
pub proof fn lemma_auth_messages(credential: Seq<char>, error: ErrorInfo, mode: EncryptionKind)
    ensures
        auth::auth_request(credential, mode).encryption == mode,
        auth::auth_request(credential, mode).message == (AuthInfo::AuthRequest { credential }),
        auth::received(auth::auth_request(credential, mode)).message == (AuthInfo::AuthRequest {
            credential,
        }),
        auth::auth_accepted(mode).encryption == mode,
        auth::auth_accepted(mode).message matches AuthInfo::AuthResponse { ok, error: none } && ok
            && none is None,
        auth::received(auth::auth_accepted(mode)).message matches AuthInfo::AuthResponse {
            ok,
            error: none,
        } && ok && none is None,
        auth::auth_refused(error, mode).encryption == mode,
        auth::auth_refused(error, mode).message matches AuthInfo::AuthResponse { ok, error: sent }
            && !ok && sent == Some(error),
        auth::received(auth::auth_refused(error, mode)).message matches AuthInfo::AuthResponse {
            ok,
            error: got,
        } && !ok && arrives(Some(error), got),
{
}

/// Where the parts of a section are read from: three texts, each behind its length, then
/// the length of the data, and the data. What follows is left.
pub proof fn lemma_section_is_read(data: Seq<u8>, file: Attachment, rest: Seq<u8>)
    requires
        attachment::read_section(data) == Ok::<(Attachment, Seq<u8>), Seq<char>>((file, rest)),
    ensures
        ({
            let a = data[0] as int;
            let b = data[1 + a] as int;
            let c = data[2 + a + b] as int;
            let at = 3 + a + b + c;
            let len = data[at] * 0x100_0000 + data[at + 1] * 0x1_0000 + data[at + 2] * 0x100
                + data[at + 3];
            &&& at + 4 + len <= data.len()
            &&& file.id == buffer::lossy_text(data.subrange(1, 1 + a))
            &&& file.name == buffer::lossy_text(data.subrange(2 + a, 2 + a + b))
            &&& file.content_type == buffer::lossy_text(data.subrange(3 + a + b, 3 + a + b + c))
            &&& file.data == data.subrange(at + 4, at + 4 + len)
            &&& rest == data.subrange(at + 4 + len, data.len() as int)
        }),
{
    let a = data[0] as int;
    let after_id = data.subrange(1 + a, data.len() as int);
    let b = after_id[0] as int;
    let after_name = after_id.subrange(1 + b, after_id.len() as int);
    let c = after_name[0] as int;
    let after_kind = after_name.subrange(1 + c, after_name.len() as int);
    let at = 3 + a + b + c;
    assert(after_name =~= data.subrange(2 + a + b, data.len() as int));
    assert(after_kind =~= data.subrange(at, data.len() as int));
    assert(after_id.subrange(1, 1 + b) =~= data.subrange(2 + a, 2 + a + b));
    assert(after_name.subrange(1, 1 + c) =~= data.subrange(3 + a + b, 3 + a + b + c));
    let len = buffer::be32_value(after_kind) as int;
    assert(after_kind.subrange(4, 4 + len) =~= data.subrange(at + 4, at + 4 + len));
    assert(after_kind.subrange(4 + len, after_kind.len() as int) =~= data.subrange(
        at + 4 + len,
        data.len() as int,
    ));
}

/// Bytes that are UTF-8 are read as the text that they encode.
pub proof fn lemma_utf8_is_read_exactly(text: Seq<char>)
    ensures
        buffer::lossy_text(encode_utf8(text)) == text,
{
    encode_utf8_valid_utf8(text);
    encode_utf8_decode_utf8(text);
}

/// A frame of the authentication phase is read by every peer that has the sender's key
/// of the frame's mode and a limit that the frame keeps to.
pub proof fn lemma_auth_frame_reaches_peer(
    sender: Codec,
    peer: Codec,
    packet: AuthEnvelope,
    bytes: Seq<u8>,
)
    requires
        auth::round_trips(sender, packet, bytes),
        json::exact_within(packet.message.tree(), 127),
        bytes.len() <= peer.max_frame_bytes,
        bytes.len() - 4 < 0x1_0000_0000,
        match packet.encryption {
            EncryptionKind::Plaintext => true,
            EncryptionKind::ChaCha20 => peer.chacha20_key == sender.chacha20_key,
            EncryptionKind::Aes256 => peer.aes256_key == sender.aes256_key,
        },
    ensures
        peer.decode_auth(bytes) == Ok::<AuthEnvelope, Failure>(auth::received(packet)),
{
}

/// Where each byte of a frame of the authentication phase stands.
pub proof fn lemma_auth_frame_layout(
    codec: Codec,
    packet: AuthEnvelope,
    nonce: Seq<u8>,
    bytes: Seq<u8>,
)
    requires
        codec.encode_auth(packet, nonce) == Ok::<Seq<u8>, Failure>(bytes),
        nonce.len() == 12,
        bytes.len() - 4 < 0x1_0000_0000,
    ensures
        bytes[0] * 0x100_0000 + bytes[1] * 0x1_0000 + bytes[2] * 0x100 + bytes[3] == bytes.len()
            - 4,
        bytes[4] == 2,
        match packet.encryption {
            EncryptionKind::Plaintext => {
                &&& bytes[5] == 0
                &&& bytes.subrange(6, bytes.len() as int) == packet.message.composite()
            },
            EncryptionKind::ChaCha20 => {
                &&& bytes[5] == 1
                &&& bytes.subrange(6, 18) == nonce
                &&& codec.chacha20_key matches Some(key) && bytes.subrange(18, bytes.len() as int)
                    == crypto::chacha20_seal(key, nonce, packet.message.composite())
            },
            EncryptionKind::Aes256 => {
                &&& bytes[5] == 2
                &&& bytes.subrange(6, 18) == nonce
                &&& codec.aes256_key matches Some(key) && bytes.subrange(18, bytes.len() as int)
                    == crypto::aes256_seal(key, nonce, packet.message.composite())
            },
        },
{
    let payload = bytes.subrange(6, bytes.len() as int);
    let plain = packet.message.composite();
    let codes = seq![2u8, packet.encryption.code()];
    assert(bytes =~= buffer::be32(payload.len() + 2) + (codes + payload));
    buffer::lemma_be32(payload.len() + 2, codes + payload);
    assert(bytes[4] == codes[0]);
    assert(bytes[5] == codes[1]);
    match packet.encryption {
        EncryptionKind::Plaintext => {
            assert(payload =~= plain);
        },
        EncryptionKind::ChaCha20 => {
            let key = codec.chacha20_key->Some_0;
            assert(bytes.subrange(6, 18) =~= nonce);
            assert(bytes.subrange(18, bytes.len() as int) =~= crypto::chacha20_seal(
                key,
                nonce,
                plain,
            ));
        },
        EncryptionKind::Aes256 => {
            let key = codec.aes256_key->Some_0;
            assert(bytes.subrange(6, 18) =~= nonce);
            assert(bytes.subrange(18, bytes.len() as int) =~= crypto::aes256_seal(
                key,
                nonce,
                plain,
            ));
        },
    }
}

/// The composite payload of a message of the authentication phase has no attachments.
pub proof fn lemma_auth_composite_layout(message: AuthInfo)
    requires
        json::json_text(message.tree()).len() < 0x1_0000_0000,
    ensures
        ({
            let bytes = message.composite();
            let text = json::json_text(message.tree());
            &&& bytes.len() == 5 + text.len()
            &&& bytes[0] * 0x100_0000 + bytes[1] * 0x1_0000 + bytes[2] * 0x100 + bytes[3]
                == text.len()
            &&& bytes.subrange(4, 4 + text.len() as int) == text
            &&& bytes[4 + text.len() as int] == 0
        }),
{
    let bytes = message.composite();
    let text = json::json_text(message.tree());
    assert(bytes.subrange(4, 4 + text.len() as int) =~= text);
    lemma_numbers_are_big_endian(text.len(), bytes);
    assert(bytes[0] == buffer::be32(text.len())[0]);
    assert(bytes[1] == buffer::be32(text.len())[1]);
    assert(bytes[2] == buffer::be32(text.len())[2]);
    assert(bytes[3] == buffer::be32(text.len())[3]);
}

/// Why a section is not read: its first part that is missing or cut short.
pub proof fn lemma_cut_sections(data: Seq<u8>)
    ensures
        data.len() == 0 ==> attachment::read_section(data) == Err::<
            (Attachment, Seq<u8>),
            Seq<char>,
        >("truncated id_len"@),
        0 < data.len() < 1 + data[0] ==> attachment::read_section(data) == Err::<
            (Attachment, Seq<u8>),
            Seq<char>,
        >("truncated id"@),
        0 < data.len() == 1 + data[0] ==> attachment::read_section(data) == Err::<
            (Attachment, Seq<u8>),
            Seq<char>,
        >("truncated name_len"@),
        0 < data.len() && 1 + data[0] < data.len() < 2 + data[0] + data[1 + data[0] as int]
            ==> attachment::read_section(data) == Err::<(Attachment, Seq<u8>), Seq<char>>(
            "truncated name"@,
        ),
        0 < data.len() && 1 + data[0] < data.len() && data.len() == 2 + data[0] + data[1
            + data[0] as int] ==> attachment::read_section(data) == Err::<
            (Attachment, Seq<u8>),
            Seq<char>,
        >("truncated ct_len"@),
        ({
            let b = 2 + data[0] + data[1 + data[0] as int];
            0 < data.len() && 1 + data[0] < data.len() && b < data.len() < b + 1 + data[b]
                ==> attachment::read_section(data) == Err::<(Attachment, Seq<u8>), Seq<char>>(
                "truncated content_type"@,
            )
        }),
        data.len() < 4 ==> attachment::read_payload(data) == Err::<(Seq<u8>, Seq<u8>), Seq<char>>(
            "truncated data_len"@,
        ),
        4 <= data.len() < 4 + data[0] * 0x100_0000 + data[1] * 0x1_0000 + data[2] * 0x100 + data[3]
            ==> attachment::read_payload(data) == Err::<(Seq<u8>, Seq<u8>), Seq<char>>(
            "truncated data"@,
        ),
{
    if data.len() > 0 && 1 + data[0] <= data.len() {
        let after_id = data.subrange(1 + data[0], data.len() as int);
        if after_id.len() > 0 {
            assert(after_id[0] == data[1 + data[0] as int]);
            if 1 + after_id[0] <= after_id.len() {
                let after_name = after_id.subrange(1 + after_id[0], after_id.len() as int);
                if after_name.len() > 0 {
                    assert(after_name[0] == data[2 + data[0] + after_id[0]]);
                }
            }
        }
    }
}

/// Attachments are read one after the other, as many as are asked for; the first that is
/// not read decides.
pub proof fn lemma_sections_are_read_in_order(data: Seq<u8>, count: nat)
    ensures
        attachment::read_sections(data, 0) == Ok::<(Seq<Attachment>, Seq<u8>), Seq<char>>(
            (Seq::empty(), data),
        ),
        attachment::read_sections(data, count + 1) == match attachment::read_sections(data, count) {
            Err(reason) => Err::<(Seq<Attachment>, Seq<u8>), Seq<char>>(reason),
            Ok((files, rest)) => match attachment::read_section(rest) {
                Err(reason) => Err(reason),
                Ok((file, after)) => Ok((files.push(file), after)),
            },
        },
{
}

/// Lengths and counts that do not fit in their fields are cut to them: the bytes are
/// written all the same.
pub proof fn lemma_oversized_fields_are_cut(text: Seq<char>, body: Body, n: nat)
    ensures
        attachment::short_text(text).len() == 1 + encode_utf8(text).len(),
        attachment::short_text(text)[0] == encode_utf8(text).len() % 256,
        attachment::short_text(text).subrange(1, attachment::short_text(text).len() as int)
            == encode_utf8(text),
        codec::composite(body)[4 + json::json_text(body.tree()).len() as int]
            == body.attachments().len() % 256,
        codec::composite(body).len() == 5 + json::json_text(body.tree()).len()
            + attachment::sections(body.attachments()).len(),
        buffer::be32(n)[0] * 0x100_0000 + buffer::be32(n)[1] * 0x1_0000 + buffer::be32(n)[2] * 0x100
            + buffer::be32(n)[3] == n % 0x1_0000_0000,
{
    let short = attachment::short_text(text);
    assert(short.subrange(1, short.len() as int) =~= encode_utf8(text));
    let a = n / 16777216;
    let b = n / 65536;
    let c = n / 256;
    assert(n == 256 * c + n % 256);
    assert(c == 256 * b + c % 256);
    assert(b == 256 * a + b % 256);
    assert(a == 256 * (a / 256) + a % 256);
    assert(n == 0x1_0000_0000 * (a / 256) + (a % 256) * 0x100_0000 + (b % 256) * 0x1_0000 + (c
        % 256) * 0x100 + n % 256);
}

/// Why a message of the authentication phase is not read.
pub proof fn lemma_reasons_of_unreadable_auth(tree: Tree, members: Seq<(Seq<char>, Tree)>)
    ensures
        !(tree is Object) ==> auth::read_auth(tree) == Err::<AuthInfo, Seq<char>>(
            "packet body must be a JSON object"@,
        ),
        json::member(members, "k"@) matches Some(Tree::Int(k)) ==> (0 <= k <= u64::MAX && (k < 4 || k
            > 5) ==> auth::read_auth(Tree::Object(members)) == Err::<AuthInfo, Seq<char>>(
            "unknown 'k' value: "@ + text::decimal(k as nat),
        )),
        json::member(members, "k"@) is None ==> auth::read_auth(Tree::Object(members)) == Err::<
            AuthInfo,
            Seq<char>,
        >("missing or non-numeric '"@ + "k"@ + "' field in packet body"@),
        json::member(members, "k"@) == Some(Tree::Int(4)) && json::member(members, "c"@) is None
            ==> auth::read_auth(Tree::Object(members)) == Err::<AuthInfo, Seq<char>>(
            "missing or non-string '"@ + "c"@ + "' field in packet body"@,
        ),
{
}

} // verus!
