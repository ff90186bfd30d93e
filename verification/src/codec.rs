//! The frame codec.
//!
//! A frame is `len:u32 | message_type:u8 | encryption:u8 | payload`, with `len` the
//! number of bytes behind itself. The payload is the composite
//! `meta_len:u32 | json | attachment_count:u8 | sections`, as it is or, where the
//! frame is encrypted, as `nonce | ciphertext`.
use crate::attachment;
use crate::attachment::{read_attachments, write_sections, Attachment};
use crate::buffer;
use crate::buffer::{as_slice, be32_at, be32_bytes, from_vec, slice};
use crate::crypto;
use crate::crypto::{
    aes256_decrypt, aes256_encrypt, chacha20_decrypt, chacha20_encrypt, draw,
    CHACHA20_MAX_LEN, NONCE_LEN, TAG_LEN,
};
use crate::error::{Failure, ProtocolError};
use crate::json;
use crate::json::Json;
use crate::packet;
use crate::packet::{Body, EncryptionKind, MessageType, Packet, PacketBody, PacketEnvelope};
use bytes::Bytes;
use vstd::prelude::*;

verus! {

/// Default maximum frame size: 100 MiB.
pub const DEFAULT_MAX_FRAME_BYTES: usize = 104857600;

/// Byte length of a frame's header.
pub const HEADER_LEN: usize = 6;

/// Encodes and decodes WSCALL binary frames.
///
/// It has no `Debug`: it holds the keys.
pub struct FrameCodec {
    aes256_key: Option<[u8; 32]>,
    chacha20_key: Option<[u8; 32]>,
    /// Maximum total frame size (including the 4-byte length prefix).
    max_frame_bytes: usize,
}

/// How a [`FrameCodec`] is set up.
pub struct Codec {
    pub aes256_key: Option<Seq<u8>>,
    pub chacha20_key: Option<Seq<u8>>,
    pub max_frame_bytes: nat,
}

/// The bytes of an optional key.
pub open spec fn key_view(key: Option<[u8; 32]>) -> Option<Seq<u8>> {
    match key {
        Some(key) => Some(key@),
        None => None,
    }
}

impl View for FrameCodec {
    type V = Codec;

    closed spec fn view(&self) -> Codec {
        Codec {
            aes256_key: key_view(self.aes256_key),
            chacha20_key: key_view(self.chacha20_key),
            max_frame_bytes: self.max_frame_bytes as nat,
        }
    }
}

/// The composite payload of a body: its JSON text and its attachments' sections.
pub open spec fn composite(body: Body) -> Seq<u8> {
    let text = json::json_text(body.tree());
    buffer::be32(text.len()) + text + seq![(body.attachments().len() % 256) as u8]
        + attachment::sections(body.attachments())
}

/// A frame with the given payload; the code is that of its message type.
pub open spec fn frame(type_code: u8, encryption: EncryptionKind, payload: Seq<u8>) -> Seq<u8> {
    buffer::be32(payload.len() + 2) + seq![type_code, encryption.code()] + payload
}

/// The name of a cipher in error messages.
pub open spec fn algorithm(encryption: EncryptionKind) -> Seq<char> {
    match encryption {
        EncryptionKind::Aes256 => "aes256"@,
        _ => "chacha20"@,
    }
}

/// The length of the longest composite payload that a cipher takes.
pub open spec fn longest_plaintext(encryption: EncryptionKind) -> nat {
    match encryption {
        EncryptionKind::Aes256 => crypto::AES256_MAX_LEN as nat,
        _ => crypto::CHACHA20_MAX_LEN as nat,
    }
}

/// The length of the payload that a composite payload of the given length is put in:
/// encryption adds the nonce and the tag.
pub open spec fn payload_len(encryption: EncryptionKind, len: nat) -> nat {
    if encryption == EncryptionKind::Plaintext {
        len
    } else {
        NONCE_LEN as nat + len + crypto::TAG_LEN as nat
    }
}

/// The length of a packet's frame.
pub open spec fn frame_len(packet: Packet) -> nat {
    HEADER_LEN as nat + payload_len(packet.encryption, composite(packet.body).len())
}

/// A nonce that was drawn from the random source.
pub open spec fn is_fresh(nonce: Seq<u8>) -> bool {
    exists|bytes: [u8; 12]| bytes@ == nonce && #[trigger] crypto::is_drawn(bytes)
}

/// The random source has failed to give a nonce, with this error.
pub open spec fn is_random_fault(e: Failure) -> bool {
    e matches Failure::Random(source) && crypto::draw_failed::<12>(source)
}

impl Codec {
    /// The key for an encryption mode.
    pub open spec fn key(self, encryption: EncryptionKind) -> Option<Seq<u8>> {
        match encryption {
            EncryptionKind::Plaintext => None,
            EncryptionKind::ChaCha20 => self.chacha20_key,
            EncryptionKind::Aes256 => self.aes256_key,
        }
    }

    /// The largest payload that a frame may have.
    pub open spec fn max_payload(self) -> nat {
        if self.max_frame_bytes < HEADER_LEN {
            0
        } else {
            (self.max_frame_bytes - HEADER_LEN) as nat
        }
    }

    /// The nonce and the ciphertext that is made of a composite payload.
    pub open spec fn seal(
        self,
        encryption: EncryptionKind,
        nonce: Seq<u8>,
        plaintext: Seq<u8>,
    ) -> Seq<u8> {
        let key = self.key(encryption)->Some_0;
        nonce + if encryption == EncryptionKind::Aes256 {
            crypto::aes256_seal(key, nonce, plaintext)
        } else {
            crypto::chacha20_seal(key, nonce, plaintext)
        }
    }

    /// The composite payload that is found in an encrypted one.
    pub open spec fn open(self, encryption: EncryptionKind, payload: Seq<u8>) -> Result<
        Seq<u8>,
        Failure,
    > {
        if payload.len() < NONCE_LEN {
            Err(
                Failure::EncryptedPayloadTooShort {
                    algorithm: algorithm(encryption),
                    expected_min: NONCE_LEN as nat,
                    actual: payload.len(),
                },
            )
        } else {
            match self.key(encryption) {
                None => Err(Failure::MissingEncryptionKey(algorithm(encryption))),
                Some(key) => {
                    let nonce = payload.subrange(0, NONCE_LEN as int);
                    let ciphertext = payload.subrange(NONCE_LEN as int, payload.len() as int);
                    match (if encryption == EncryptionKind::Aes256 {
                        crypto::aes256_open(key, nonce, ciphertext)
                    } else if ciphertext.len() > crypto::CHACHA20_MAX_LEN + crypto::TAG_LEN {
                        None
                    } else {
                        crypto::chacha20_open(key, nonce, ciphertext)
                    }) {
                        Some(plaintext) => Ok(plaintext),
                        None => Err(Failure::DecryptionFailed(algorithm(encryption))),
                    }
                },
            }
        }
    }

    /// The error with which a composite payload of the given length gets no frame in
    /// the given mode: it is over the limit, as it is or with what encryption adds to
    /// it, there is no key, or it is too long for the cipher.
    pub open spec fn refusal(self, encryption: EncryptionKind, len: nat) -> Option<Failure> {
        let max = self.max_payload();
        if len > max {
            Some(Failure::PayloadTooLarge { actual: len, max })
        } else if encryption == EncryptionKind::Plaintext {
            None
        } else if self.key(encryption) is None {
            Some(Failure::MissingEncryptionKey(algorithm(encryption)))
        } else if len > longest_plaintext(encryption) {
            Some(Failure::EncryptionFailed(algorithm(encryption)))
        } else if payload_len(encryption, len) > max {
            Some(Failure::PayloadTooLarge { actual: payload_len(encryption, len), max })
        } else {
            None
        }
    }

    /// A composite payload of the given length has a frame in the given mode.
    pub open spec fn has_room(self, encryption: EncryptionKind, len: nat) -> bool {
        self.refusal(encryption, len) is None
    }

    /// A packet has a frame.
    pub open spec fn has_room_for(self, packet: Packet) -> bool {
        self.has_room(packet.encryption, composite(packet.body).len())
    }

    /// The frame that a composite payload is put in; an encrypted one depends on a
    /// nonce.
    pub open spec fn encode_composite(
        self,
        type_code: u8,
        encryption: EncryptionKind,
        plaintext: Seq<u8>,
        nonce: Seq<u8>,
    ) -> Result<Seq<u8>, Failure> {
        match self.refusal(encryption, plaintext.len()) {
            Some(e) => Err(e),
            None => Ok(
                frame(
                    type_code,
                    encryption,
                    if encryption == EncryptionKind::Plaintext {
                        plaintext
                    } else {
                        self.seal(encryption, nonce, plaintext)
                    },
                ),
            ),
        }
    }

    /// The frame that a packet is encoded to; an encrypted one depends on a nonce.
    pub open spec fn encode(self, packet: Packet, nonce: Seq<u8>) -> Result<Seq<u8>, Failure> {
        self.encode_composite(
            packet.message_type.code(),
            packet.encryption,
            composite(packet.body),
            nonce,
        )
    }

    /// Encoding a composite payload of the given length comes to the point where it
    /// draws a nonce.
    pub open spec fn draws_nonce(self, encryption: EncryptionKind, len: nat) -> bool {
        &&& encryption != EncryptionKind::Plaintext
        &&& len <= self.max_payload()
        &&& self.key(encryption) is Some
    }

    /// Encoding a packet comes to the point where it draws a nonce.
    pub open spec fn needs_nonce(self, packet: Packet) -> bool {
        self.draws_nonce(packet.encryption, composite(packet.body).len())
    }

    /// The bytes are the frame of a packet, with a nonce from the random source where
    /// it is encrypted.
    pub open spec fn encodes_to(self, packet: Packet, bytes: Seq<u8>) -> bool {
        &&& bytes.len() == frame_len(packet)
        &&& exists|nonce: Seq<u8>|
            nonce.len() == NONCE_LEN && (packet.encryption != EncryptionKind::Plaintext
                ==> is_fresh(nonce)) && #[trigger] self.encode(packet, nonce) == Ok::<
                Seq<u8>,
                Failure,
            >(bytes)
    }

    /// Encoding a packet can end in this error: the one that is specified, or that
    /// of the random source where a nonce is drawn.
    pub open spec fn refuses_with(self, packet: Packet, e: Failure) -> bool {
        ||| self.needs_nonce(packet) && is_random_fault(e)
        ||| self.refusal(packet.encryption, composite(packet.body).len()) == Some(e)
    }

    /// What is wrong with the length of a frame.
    pub open spec fn length_fault(self, frame: Seq<u8>) -> Option<Failure> {
        if frame.len() < HEADER_LEN {
            Some(Failure::FrameTooShort)
        } else if buffer::be32_value(frame) != frame.len() - 4 {
            Some(
                Failure::FrameLengthMismatch {
                    declared: buffer::be32_value(frame),
                    actual: (frame.len() - 4) as nat,
                },
            )
        } else if frame.len() > self.max_frame_bytes {
            Some(Failure::FrameTooLarge { actual: frame.len(), max: self.max_frame_bytes })
        } else {
            None
        }
    }

    /// The encryption mode and the composite payload of a frame.
    pub open spec fn unpack(self, frame: Seq<u8>) -> Result<(EncryptionKind, Seq<u8>), Failure> {
        if frame[5] > 2 {
            Err(Failure::UnknownEncryption(frame[5]))
        } else {
            let encryption = if frame[5] == 0 {
                EncryptionKind::Plaintext
            } else if frame[5] == 1 {
                EncryptionKind::ChaCha20
            } else {
                EncryptionKind::Aes256
            };
            let payload = frame.subrange(HEADER_LEN as int, frame.len() as int);
            match (if encryption == EncryptionKind::Plaintext {
                Ok(payload)
            } else {
                self.open(encryption, payload)
            }) {
                Err(e) => Err(e),
                Ok(plaintext) => Ok((encryption, plaintext)),
            }
        }
    }

    /// The packet that a frame is decoded to.
    pub open spec fn decode(self, frame: Seq<u8>) -> Result<Packet, Failure> {
        match self.length_fault(frame) {
            Some(e) => Err(e),
            None => if frame[4] > 1 {
                Err(Failure::UnknownMessageType(frame[4]))
            } else {
                let message_type = if frame[4] == 0 {
                    MessageType::Api
                } else {
                    MessageType::Event
                };
                match self.unpack(frame) {
                    Err(e) => Err(e),
                    Ok((encryption, plaintext)) => decode_composite(
                        message_type,
                        encryption,
                        plaintext,
                    ),
                }
            },
        }
    }

    /// The other codec opens what this one seals, in the given mode.
    pub open spec fn opens(self, other: Codec, encryption: EncryptionKind) -> bool {
        self.key(encryption) == other.key(encryption)
    }
}

/// The body that a JSON text stands for, or the reason why it stands for none. What
/// is wrong with the value at the start comes before what is wrong behind it.
#[verifier::opaque]
pub open spec fn read_text(text: Seq<u8>) -> Result<Body, Seq<char>> {
    match json::json_parse(text) {
        Ok(tree) => packet::read_body(tree),
        Err(reason) => match json::json_first(text) {
            Ok(tree) => match packet::read_body(tree) {
                Ok(_) => Err(reason),
                Err(earlier) => Err(earlier),
            },
            Err(_) => Err(reason),
        },
    }
}

/// Reads a body from its JSON text.
fn read_body_text(text: &[u8]) -> (r: Result<PacketBody, String>)
    ensures
        packet::read_agrees(r, read_text(text@)),
{
    proof {
        reveal(read_text);
    }
    match Json::from_slice(text) {
        Ok(value) => PacketBody::from_json(value),
        Err(reason) => match Json::first_in(text) {
            Ok(value) => match PacketBody::from_json(value) {
                Ok(_) => Err(reason),
                Err(earlier) => Err(earlier),
            },
            Err(_) => Err(reason),
        },
    }
}

/// The packet that a composite payload is decoded to.
#[verifier::opaque]
pub open spec fn decode_composite(
    message_type: MessageType,
    encryption: EncryptionKind,
    plaintext: Seq<u8>,
) -> Result<Packet, Failure> {
    if plaintext.len() < 5 {
        Err(Failure::FrameTooShort)
    } else {
        let meta_len = buffer::be32_value(plaintext) as int;
        if plaintext.len() < 4 + meta_len + 1 {
            Err(Failure::FrameTooShort)
        } else {
            let text = plaintext.subrange(4, 4 + meta_len);
            let count = plaintext[4 + meta_len] as nat;
            let rest = plaintext.subrange(5 + meta_len, plaintext.len() as int);
            match attachment::read_sections(rest, count) {
                Err(reason) => Err(Failure::InvalidAttachmentEncoding(reason)),
                Ok((attachments, _)) => match read_text(text) {
                    Err(reason) => Err(Failure::Json(reason)),
                    Ok(body) => if body.message_type() != message_type {
                        Err(Failure::MessageTypeMismatch)
                    } else {
                        Ok(
                            Packet {
                                message_type,
                                encryption,
                                body: body.with_attachments(attachments),
                            },
                        )
                    },
                },
            }
        }
    }
}

/// The packet fits in a frame's fields: its header is that of its body, and its
/// attachments fit their sections.
pub open spec fn fits_fields(packet: Packet) -> bool {
    &&& packet.message_type == packet.body.message_type()
    &&& packet.body.attachments().len() <= 255
    &&& forall|i: int|
        0 <= i < packet.body.attachments().len() ==> (
        #[trigger] packet.body.attachments()[i]).fits()
}

/// The packet survives a frame: it fits in the frame's fields, and its JSON text is
/// read as its JSON form. That is so where the form holds no float and does not nest
/// too deep, and of a form with floats where they read back.
pub open spec fn survives(packet: Packet) -> bool {
    let tree = packet.body.tree();
    &&& fits_fields(packet)
    &&& json::exact_within(tree, json::MAX_DEPTH as nat) || json::reads_as(
        json::json_text(tree),
        tree,
    )
}

/// A packet as decoding gives it back.
pub open spec fn received(packet: Packet) -> Packet {
    Packet { body: packet.body.normal(), ..packet }
}

pub(crate) proof fn lemma_composite_parts(text: Seq<u8>, count: u8, tail: Seq<u8>)
    requires
        text.len() < 0x1_0000_0000,
    ensures
        ({
            let whole = buffer::be32(text.len()) + text + seq![count] + tail;
            let meta_len = text.len() as int;
            &&& whole.len() == 5 + meta_len + tail.len()
            &&& buffer::be32_value(whole) == meta_len
            &&& whole.subrange(4, 4 + meta_len) == text
            &&& whole[4 + meta_len] == count
            &&& whole.subrange(5 + meta_len, whole.len() as int) == tail
        }),
{
    let whole = buffer::be32(text.len()) + text + seq![count] + tail;
    let meta_len = text.len() as int;
    assert(whole =~= buffer::be32(text.len()) + (text + seq![count] + tail));
    buffer::lemma_be32(text.len(), text + seq![count] + tail);
    assert(whole.subrange(4, 4 + meta_len) =~= text);
    assert(whole.subrange(5 + meta_len, whole.len() as int) =~= tail);
}

proof fn lemma_attachments_restored(body: Body)
    ensures
        body.normal().with_attachments(Seq::empty()).message_type() == body.message_type(),
        body.normal().with_attachments(Seq::empty()).with_attachments(body.attachments())
            == body.normal(),
{
}

/// A composite payload is decoded to what its parts are read as.
proof fn lemma_composite_decodes(
    message_type: MessageType,
    encryption: EncryptionKind,
    text: Seq<u8>,
    count: u8,
    tail: Seq<u8>,
    attachments: Seq<Attachment>,
    read: Body,
)
    requires
        text.len() < 0x1_0000_0000,
        attachment::read_sections(tail, count as nat) matches Ok((found, _)) && found
            == attachments,
        read_text(text) == Ok::<Body, Seq<char>>(read),
        read.message_type() == message_type,
    ensures
        decode_composite(
            message_type,
            encryption,
            buffer::be32(text.len()) + text + seq![count] + tail,
        ) == Ok::<Packet, Failure>(
            Packet { message_type, encryption, body: read.with_attachments(attachments) },
        ),
{
    reveal(decode_composite);
    lemma_composite_parts(text, count, tail);
}

proof fn lemma_text_read(body: Body)
    requires
        json::reads_as(json::json_text(body.tree()), body.tree()),
    ensures
        read_text(json::json_text(body.tree())) == Ok::<Body, Seq<char>>(
            body.normal().with_attachments(Seq::empty()),
        ),
{
    reveal(read_text);
    packet::lemma_body_round_trip(body);
}

proof fn lemma_all_sections_read(attachments: Seq<Attachment>)
    requires
        forall|i: int| 0 <= i < attachments.len() ==> (#[trigger] attachments[i]).fits(),
    ensures
        attachment::read_sections(attachment::sections(attachments), attachments.len()) matches Ok(
            (found, _),
        ) && found == attachments,
{
    attachment::lemma_sections_round_trip(attachments, Seq::empty());
    assert(attachment::sections(attachments) + Seq::<u8>::empty() =~= attachment::sections(
        attachments,
    ));
}

/// A composite payload is decoded to the packet whose text and sections it holds.
proof fn lemma_parts_decode(packet: Packet, text: Seq<u8>, tail: Seq<u8>)
    requires
        text.len() < 0x1_0000_0000,
        packet.message_type == packet.body.message_type(),
        packet.body.attachments().len() <= 255,
        attachment::read_sections(tail, packet.body.attachments().len()) matches Ok((found, _))
            && found == packet.body.attachments(),
        read_text(text) == Ok::<Body, Seq<char>>(
            packet.body.normal().with_attachments(Seq::empty()),
        ),
    ensures
        decode_composite(
            packet.message_type,
            packet.encryption,
            buffer::be32(text.len()) + text + seq![(packet.body.attachments().len() % 256) as u8]
                + tail,
        ) == Ok::<Packet, Failure>(received(packet)),
{
    lemma_attachments_restored(packet.body);
    lemma_composite_decodes(
        packet.message_type,
        packet.encryption,
        text,
        (packet.body.attachments().len() % 256) as u8,
        tail,
        packet.body.attachments(),
        packet.body.normal().with_attachments(Seq::empty()),
    );
}

/// Decoding the composite payload of a packet gives the packet back.
pub proof fn lemma_composite_round_trip(packet: Packet)
    requires
        fits_fields(packet),
        json::reads_as(json::json_text(packet.body.tree()), packet.body.tree()),
        json::json_text(packet.body.tree()).len() < 0x1_0000_0000,
    ensures
        decode_composite(packet.message_type, packet.encryption, composite(packet.body)) == Ok::<
            Packet,
            Failure,
        >(received(packet)),
{
    let body = packet.body;
    let attachments = body.attachments();
    lemma_all_sections_read(attachments);
    lemma_text_read(body);
    lemma_parts_decode(packet, json::json_text(body.tree()), attachment::sections(attachments));
}

/// A frame with the given payload holds its type and, once opened, its composite.
proof fn lemma_frame_header(
    codec: Codec,
    type_code: u8,
    encryption: EncryptionKind,
    payload: Seq<u8>,
)
    requires
        payload.len() + 2 < 0x1_0000_0000,
        payload.len() + HEADER_LEN <= codec.max_frame_bytes,
    ensures
        codec.length_fault(frame(type_code, encryption, payload)) is None,
        frame(type_code, encryption, payload)[4] == type_code,
        codec.unpack(frame(type_code, encryption, payload)) == match (if encryption
            == EncryptionKind::Plaintext {
            Ok(payload)
        } else {
            codec.open(encryption, payload)
        }) {
            Err(e) => Err(e),
            Ok(plaintext) => Ok((encryption, plaintext)),
        },
{
    let whole = frame(type_code, encryption, payload);
    let codes = seq![type_code, encryption.code()];
    assert(whole =~= buffer::be32(payload.len() + 2) + (codes + payload));
    buffer::lemma_be32(payload.len() + 2, codes + payload);
    assert(whole[4] == type_code);
    assert(whole[5] == encryption.code());
    assert(whole.subrange(HEADER_LEN as int, whole.len() as int) =~= payload);
}

/// A peer with the same key and a limit that the frame keeps to finds the composite
/// payload in the frame.
pub open spec fn is_unpacked(
    sender: Codec,
    encryption: EncryptionKind,
    plaintext: Seq<u8>,
    bytes: Seq<u8>,
) -> bool {
    bytes.len() - 4 < 0x1_0000_0000 ==> forall|peer: Codec|
        peer.opens(sender, encryption) && bytes.len() <= peer.max_frame_bytes
            ==> peer.length_fault(bytes) is None && #[trigger] peer.unpack(bytes) == Ok::<
            (EncryptionKind, Seq<u8>),
            Failure,
        >((encryption, plaintext))
}

/// A peer with the same key and a limit that the frame keeps to decodes the frame
/// of a packet to that packet.
pub open spec fn round_trips(sender: Codec, packet: Packet, bytes: Seq<u8>) -> bool {
    survives(packet) && bytes.len() - 4 < 0x1_0000_0000 ==> forall|peer: Codec|
        peer.opens(sender, packet.encryption) && bytes.len() <= peer.max_frame_bytes
            ==> #[trigger] peer.decode(bytes) == Ok::<Packet, Failure>(received(packet))
}

/// The outcome of an encoding is the one that is specified.
pub open spec fn encode_agrees(
    r: Result<Vec<u8>, ProtocolError>,
    expected: Result<Seq<u8>, Failure>,
) -> bool {
    match r {
        Ok(bytes) => expected == Ok::<Seq<u8>, Failure>(bytes@),
        Err(e) => expected == Err::<Seq<u8>, Failure>(e@),
    }
}

/// The outcome of a decoding is the one that is specified.
pub open spec fn decode_agrees(
    r: Result<PacketEnvelope, ProtocolError>,
    expected: Result<Packet, Failure>,
) -> bool {
    match r {
        Ok(packet) => expected == Ok::<Packet, Failure>(packet@),
        Err(e) => expected == Err::<Packet, Failure>(e@),
    }
}

/// The composite payload of a body.
fn composite_bytes(body: &PacketBody) -> (bytes: Vec<u8>)
    ensures
        bytes@ == composite(body@),
        json::exact_within(body@.tree(), json::MAX_DEPTH as nat) ==> json::reads_as(
            json::json_text(body@.tree()),
            body@.tree(),
        ),
{
    let text = body.to_json().to_vec();
    let attachments = body.attachments();
    let mut bytes: Vec<u8> = Vec::new();
    bytes.extend_from_slice(&be32_bytes(text.len()));
    bytes.extend_from_slice(text.as_slice());
    bytes.push((attachments.len() % 256) as u8);
    write_sections(attachments, &mut bytes);
    proof {
        assert(bytes@ == composite(body@));
    }
    bytes
}

fn frame_bytes(type_code: u8, encryption: EncryptionKind, payload: &[u8]) -> (bytes: Vec<u8>)
    requires
        payload@.len() + HEADER_LEN <= usize::MAX,
    ensures
        bytes@ == frame(type_code, encryption, payload@),
{
    let mut bytes: Vec<u8> = Vec::with_capacity(payload.len() + HEADER_LEN);
    bytes.extend_from_slice(&be32_bytes(payload.len() + 2));
    bytes.push(type_code);
    bytes.push(encryption.to_byte());
    bytes.extend_from_slice(payload);
    proof {
        assert(bytes@ == frame(type_code, encryption, payload@));
    }
    bytes
}

impl Default for FrameCodec {
    fn default() -> (codec: Self)
        ensures
            codec@ == default_codec(),
    {
        FrameCodec {
            aes256_key: None,
            chacha20_key: None,
            max_frame_bytes: DEFAULT_MAX_FRAME_BYTES,
        }
    }
}

impl Clone for FrameCodec {
    fn clone(&self) -> (copy: Self)
        ensures
            copy@ == self@,
    {
        FrameCodec {
            aes256_key: self.aes256_key,
            chacha20_key: self.chacha20_key,
            max_frame_bytes: self.max_frame_bytes,
        }
    }
}

impl FrameCodec {
    /// Builds a codec configured for plaintext transport.
    pub fn plaintext() -> (codec: Self)
        ensures
            codec@ == default_codec(),
    {
        Self::default()
    }

    /// Configures a ChaCha20-Poly1305 key.
    pub fn with_chacha20_key(self, key: [u8; 32]) -> (codec: Self)
        ensures
            codec@ == (Codec { chacha20_key: Some(key@), ..self@ }),
    {
        FrameCodec { chacha20_key: Some(key), ..self }
    }

    /// Configures an AES256-GCM key.
    pub fn with_aes256_key(self, key: [u8; 32]) -> (codec: Self)
        ensures
            codec@ == (Codec { aes256_key: Some(key@), ..self@ }),
    {
        FrameCodec { aes256_key: Some(key), ..self }
    }

    /// Sets the maximum total frame size (including the 4-byte length prefix).
    ///
    /// Frames exceeding this limit are rejected during encode/decode.
    pub fn with_max_frame_bytes(self, max: usize) -> (codec: Self)
        ensures
            codec@ == (Codec { max_frame_bytes: max as nat, ..self@ }),
    {
        FrameCodec { max_frame_bytes: max, ..self }
    }

    /// Returns the configured maximum frame size.
    pub fn max_frame_bytes(&self) -> (max: usize)
        ensures
            max == self@.max_frame_bytes,
    {
        self.max_frame_bytes
    }

    fn max_payload(&self) -> (max: usize)
        ensures
            max == self@.max_payload(),
    {
        self.max_frame_bytes.saturating_sub(HEADER_LEN)
    }

    fn key(&self, encryption: EncryptionKind) -> (key: Option<[u8; 32]>)
        ensures
            key_view(key) == self@.key(encryption),
    {
        match encryption {
            EncryptionKind::Plaintext => None,
            EncryptionKind::ChaCha20 => self.chacha20_key,
            EncryptionKind::Aes256 => self.aes256_key,
        }
    }

    /// Encrypts a composite payload and puts the nonce before it. Where that
    /// succeeds, a codec with the same key finds the composite payload again.
    fn seal(&self, encryption: EncryptionKind, nonce: &[u8; 12], plaintext: &[u8]) -> (r: Result<
        Vec<u8>,
        ProtocolError,
    >)
        requires
            encryption != EncryptionKind::Plaintext,
        ensures
            match r {
                Ok(payload) => {
                    &&& self@.key(encryption) is Some
                    &&& plaintext@.len() <= longest_plaintext(encryption)
                    &&& payload@ == self@.seal(encryption, nonce@, plaintext@)
                    &&& payload@.len() == payload_len(encryption, plaintext@.len())
                    &&& forall|peer: Codec|
                        peer.opens(self@, encryption) ==> #[trigger] peer.open(
                            encryption,
                            payload@,
                        ) == Ok::<Seq<u8>, Failure>(plaintext@)
                },
                Err(e) => if self@.key(encryption) is None {
                    e@ == Failure::MissingEncryptionKey(algorithm(encryption))
                } else {
                    &&& plaintext@.len() > longest_plaintext(encryption)
                    &&& e@ == Failure::EncryptionFailed(algorithm(encryption))
                },
            },
    {
        let name: &'static str = match encryption {
            EncryptionKind::Aes256 => "aes256",
            _ => "chacha20",
        };
        let key = match self.key(encryption) {
            Some(key) => key,
            None => return Err(ProtocolError::MissingEncryptionKey(name)),
        };
        let sealed = match encryption {
            EncryptionKind::Aes256 => aes256_encrypt(&key, nonce, plaintext),
            _ => if plaintext.len() as u64 > CHACHA20_MAX_LEN {
                None
            } else {
                Some(chacha20_encrypt(&key, nonce, plaintext))
            },
        };
        match sealed {
            Some(ciphertext) => {
                let mut payload: Vec<u8> = Vec::new();
                payload.extend_from_slice(nonce);
                payload.extend_from_slice(ciphertext.as_slice());
                proof {
                    assert(payload@ =~= nonce@ + ciphertext@);
                    assert(payload@.subrange(0, NONCE_LEN as int) =~= nonce@);
                    assert(payload@.subrange(NONCE_LEN as int, payload@.len() as int)
                        =~= ciphertext@);
                }
                Ok(payload)
            },
            None => Err(ProtocolError::EncryptionFailed(name)),
        }
    }

    /// Finds the composite payload in an encrypted one.
    fn open(&self, encryption: EncryptionKind, payload: &[u8]) -> (r: Result<
        Vec<u8>,
        ProtocolError,
    >)
        requires
            encryption != EncryptionKind::Plaintext,
        ensures
            encode_agrees(r, self@.open(encryption, payload@)),
    {
        let name: &'static str = match encryption {
            EncryptionKind::Aes256 => "aes256",
            _ => "chacha20",
        };
        if payload.len() < NONCE_LEN {
            return Err(
                ProtocolError::EncryptedPayloadTooShort {
                    algorithm: name,
                    expected_min: NONCE_LEN,
                    actual: payload.len(),
                },
            );
        }
        let key = match self.key(encryption) {
            Some(key) => key,
            None => return Err(ProtocolError::MissingEncryptionKey(name)),
        };
        let mut nonce: [u8; 12] = [0; 12];
        let mut i: usize = 0;
        while i < 12
            invariant
                i <= 12,
                payload@.len() >= 12,
                forall|j: int| 0 <= j < i ==> nonce@[j] == payload@[j],
            decreases 12 - i,
        {
            nonce[i] = payload[i];
            i += 1;
        }
        proof {
            assert(nonce@ =~= payload@.subrange(0, NONCE_LEN as int));
        }
        let ciphertext = &payload[NONCE_LEN..payload.len()];
        let opened = match encryption {
            EncryptionKind::Aes256 => aes256_decrypt(&key, &nonce, ciphertext),
            _ => if ciphertext.len() as u64 > CHACHA20_MAX_LEN + TAG_LEN as u64 {
                None
            } else {
                chacha20_decrypt(&key, &nonce, ciphertext)
            },
        };
        match opened {
            Some(plaintext) => Ok(plaintext),
            None => Err(ProtocolError::DecryptionFailed(name)),
        }
    }

    /// Puts a composite payload in a frame.
    pub(crate) fn encode_composite(
        &self,
        type_code: u8,
        encryption: EncryptionKind,
        plaintext: Vec<u8>,
        nonce: &[u8; 12],
    ) -> (r: Result<Vec<u8>, ProtocolError>)
        ensures
            encode_agrees(r, self@.encode_composite(type_code, encryption, plaintext@, nonce@)),
            r matches Ok(bytes) ==> {
                &&& bytes@.len() == HEADER_LEN + payload_len(encryption, plaintext@.len())
                &&& bytes@[4] == type_code
                &&& is_unpacked(self@, encryption, plaintext@, bytes@)
            },
    {
        let max: usize = self.max_payload();
        if plaintext.len() > max {
            return Err(ProtocolError::PayloadTooLarge { actual: plaintext.len(), max });
        }
        let payload = match encryption {
            EncryptionKind::Plaintext => plaintext,
            _ => match self.seal(encryption, nonce, plaintext.as_slice()) {
                Ok(payload) => payload,
                Err(e) => return Err(e),
            },
        };
        if payload.len() > max {
            return Err(ProtocolError::PayloadTooLarge { actual: payload.len(), max });
        }
        let bytes = frame_bytes(type_code, encryption, payload.as_slice());
        proof {
            if bytes@.len() - 4 < 0x1_0000_0000 {
                assert forall|peer: Codec|
                    peer.opens(self@, encryption) && bytes@.len()
                        <= peer.max_frame_bytes implies peer.length_fault(bytes@) is None
                    && #[trigger] peer.unpack(bytes@) == Ok::<(EncryptionKind, Seq<u8>), Failure>(
                    (encryption, plaintext@),
                ) by {
                    lemma_frame_header(peer, type_code, encryption, payload@);
                }
            }
        }
        Ok(bytes)
    }

    /// Puts a composite payload in a frame; an encrypted one has a fresh random nonce.
    pub(crate) fn encode_freshly(
        &self,
        type_code: u8,
        encryption: EncryptionKind,
        plaintext: Vec<u8>,
    ) -> (r: Result<Vec<u8>, ProtocolError>)
        ensures
            match r {
                Ok(bytes) => {
                    &&& bytes@.len() == HEADER_LEN + payload_len(encryption, plaintext@.len())
                    &&& bytes@[4] == type_code
                    &&& is_unpacked(self@, encryption, plaintext@, bytes@)
                    &&& exists|nonce: Seq<u8>|
                        nonce.len() == NONCE_LEN && (encryption != EncryptionKind::Plaintext
                            ==> is_fresh(nonce)) && #[trigger] self@.encode_composite(
                            type_code,
                            encryption,
                            plaintext@,
                            nonce,
                        ) == Ok::<Seq<u8>, Failure>(bytes@)
                },
                Err(e) => {
                    ||| self@.draws_nonce(encryption, plaintext@.len()) && is_random_fault(e@)
                    ||| self@.refusal(encryption, plaintext@.len()) == Some(e@)
                },
            },
    {
        let mut nonce: [u8; 12] = [0; 12];
        if plaintext.len() <= self.max_payload() && self.key(encryption).is_some() {
            nonce = match draw::<12>() {
                Ok(bytes) => bytes,
                Err(source) => return Err(ProtocolError::Random(source)),
            };
        }
        self.encode_composite(type_code, encryption, plaintext, &nonce)
    }

    /// Encodes an envelope into a binary WSCALL frame, with the nonce that an
    /// encrypted frame is to have.
    pub fn encode_with_nonce(&self, packet: &PacketEnvelope, nonce: &[u8; 12]) -> (r: Result<
        Vec<u8>,
        ProtocolError,
    >)
        ensures
            encode_agrees(r, self@.encode(packet@, nonce@)),
            r is Ok <==> self@.has_room_for(packet@),
            r matches Ok(bytes) ==> {
                &&& bytes@.len() == frame_len(packet@)
                &&& round_trips(self@, packet@, bytes@)
            },
    {
        let plaintext = composite_bytes(&packet.body);
        let r = self.encode_composite(
            packet.message_type.to_byte(),
            packet.encryption,
            plaintext,
            nonce,
        );
        proof {
            if r is Ok {
                lemma_round_trips(self@, packet@, r->Ok_0@);
            }
        }
        r
    }

    /// Encodes an envelope into a binary WSCALL frame. An encrypted frame has a
    /// fresh random nonce.
    pub fn encode(&self, packet: &PacketEnvelope) -> (r: Result<Vec<u8>, ProtocolError>)
        ensures
            match r {
                Ok(bytes) => {
                    &&& self@.encodes_to(packet@, bytes@)
                    &&& round_trips(self@, packet@, bytes@)
                },
                Err(e) => self@.refuses_with(packet@, e@),
            },
            self@.has_room_for(packet@) ==> (r matches Err(e) ==> e@ is Random),
    {
        let plaintext = composite_bytes(&packet.body);
        let r = self.encode_freshly(packet.message_type.to_byte(), packet.encryption, plaintext);
        proof {
            if r is Ok {
                lemma_round_trips(self@, packet@, r->Ok_0@);
                let nonce = choose|nonce: Seq<u8>|
                    nonce.len() == NONCE_LEN && (packet@.encryption != EncryptionKind::Plaintext
                        ==> is_fresh(nonce)) && #[trigger] self@.encode_composite(
                        packet@.message_type.code(),
                        packet@.encryption,
                        composite(packet@.body),
                        nonce,
                    ) == Ok::<Seq<u8>, Failure>(r->Ok_0@);
                assert(self@.encode(packet@, nonce) == Ok::<Seq<u8>, Failure>(r->Ok_0@));
            }
        }
        r
    }

    /// Checks a frame's length.
    pub(crate) fn check_length(&self, bytes: &[u8]) -> (r: Result<(), ProtocolError>)
        ensures
            match r {
                Ok(_) => self@.length_fault(bytes@) is None,
                Err(e) => self@.length_fault(bytes@) == Some(e@),
            },
    {
        if bytes.len() < HEADER_LEN {
            return Err(ProtocolError::FrameTooShort);
        }
        let declared: usize = be32_at(bytes, 0) as usize;
        let actual: usize = bytes.len() - 4;
        proof {
            assert(declared == buffer::be32_value(bytes@));
        }
        if declared != actual {
            return Err(ProtocolError::FrameLengthMismatch { declared, actual });
        }
        if bytes.len() > self.max_frame_bytes {
            return Err(
                ProtocolError::FrameTooLarge { actual: bytes.len(), max: self.max_frame_bytes },
            );
        }
        Ok(())
    }

    /// Finds a frame's encryption mode and composite payload.
    pub(crate) fn unpack(&self, frame: &Bytes) -> (r: Result<(EncryptionKind, Bytes), ProtocolError>)
        requires
            buffer::contents(*frame).len() >= HEADER_LEN,
        ensures
            match r {
                Ok((encryption, plaintext)) => self@.unpack(buffer::contents(*frame)) == Ok::<
                    (EncryptionKind, Seq<u8>),
                    Failure,
                >((encryption, buffer::contents(plaintext))),
                Err(e) => self@.unpack(buffer::contents(*frame)) == Err::<
                    (EncryptionKind, Seq<u8>),
                    Failure,
                >(e@),
            },
    {
        let bytes = as_slice(frame);
        let encryption = match EncryptionKind::try_from(bytes[5]) {
            Ok(encryption) => encryption,
            Err(e) => return Err(e),
        };
        let plaintext = match encryption {
            EncryptionKind::Plaintext => slice(frame, HEADER_LEN, bytes.len()),
            _ => match self.open(encryption, &bytes[HEADER_LEN..bytes.len()]) {
                Ok(plaintext) => from_vec(plaintext),
                Err(e) => return Err(e),
            },
        };
        Ok((encryption, plaintext))
    }

    /// Decodes a binary WSCALL frame back into an envelope. The payloads of
    /// plaintext attachments share the frame's buffer.
    pub fn decode(&self, frame: Bytes) -> (r: Result<PacketEnvelope, ProtocolError>)
        ensures
            decode_agrees(r, self@.decode(buffer::contents(frame))),
    {
        let bytes = as_slice(&frame);
        if let Err(e) = self.check_length(bytes) {
            return Err(e);
        }
        let message_type = match MessageType::try_from(bytes[4]) {
            Ok(message_type) => message_type,
            Err(e) => return Err(e),
        };
        match self.unpack(&frame) {
            Ok((encryption, plaintext)) => {
                Self::decode_composite(message_type, encryption, plaintext)
            },
            Err(e) => Err(e),
        }
    }

    /// Decodes a composite payload: JSON text and attachment sections.
    fn decode_composite(
        message_type: MessageType,
        encryption: EncryptionKind,
        plaintext: Bytes,
    ) -> (r: Result<PacketEnvelope, ProtocolError>)
        ensures
            decode_agrees(
                r,
                decode_composite(message_type, encryption, buffer::contents(plaintext)),
            ),
    {
        proof {
            reveal(decode_composite);
        }
        let bytes = as_slice(&plaintext);
        if bytes.len() < 5 {
            return Err(ProtocolError::FrameTooShort);
        }
        let meta_len: usize = be32_at(bytes, 0) as usize;
        proof {
            assert(meta_len == buffer::be32_value(bytes@));
        }
        if bytes.len() - 5 < meta_len {
            return Err(ProtocolError::FrameTooShort);
        }
        let end: usize = 4 + meta_len;
        let count: usize = bytes[end] as usize;
        let rest = slice(&plaintext, end + 1, bytes.len());
        let attachments = match read_attachments(rest, count) {
            Ok(attachments) => attachments,
            Err(e) => return Err(e),
        };
        let mut body = match read_body_text(&bytes[4..end]) {
            Ok(body) => body,
            Err(reason) => return Err(ProtocolError::Json(reason)),
        };
        body.set_attachments(attachments);
        if body.message_type() != message_type {
            return Err(ProtocolError::MessageTypeMismatch);
        }
        Ok(PacketEnvelope { message_type, encryption, body })
    }
}

proof fn lemma_round_trips(codec: Codec, packet: Packet, bytes: Seq<u8>)
    requires
        json::exact_within(packet.body.tree(), json::MAX_DEPTH as nat) ==> json::reads_as(
            json::json_text(packet.body.tree()),
            packet.body.tree(),
        ),
        is_unpacked(codec, packet.encryption, composite(packet.body), bytes),
        bytes.len() >= composite(packet.body).len() + HEADER_LEN,
        bytes[4] == packet.message_type.code(),
    ensures
        round_trips(codec, packet, bytes),
{
    if survives(packet) && bytes.len() - 4 < 0x1_0000_0000 {
        assert(json::json_text(packet.body.tree()).len() < 0x1_0000_0000);
        lemma_composite_round_trip(packet);
        assert forall|peer: Codec|
            peer.opens(codec, packet.encryption) && bytes.len()
                <= peer.max_frame_bytes implies #[trigger] peer.decode(bytes) == Ok::<
            Packet,
            Failure,
        >(received(packet)) by {
            assert(peer.unpack(bytes) == Ok::<(EncryptionKind, Seq<u8>), Failure>(
                (packet.encryption, composite(packet.body)),
            ));
        }
    }
}

/// A frame that is encoded keeps to the limit.
pub proof fn lemma_encoded_frame_keeps_limit(codec: Codec, packet: Packet, bytes: Seq<u8>)
    requires
        codec.encodes_to(packet, bytes),
    ensures
        bytes.len() <= codec.max_frame_bytes,
{
    assert(composite(packet.body).len() >= 5);
}

/// The same holds of a frame that was encoded with any nonce.
pub proof fn lemma_frame_keeps_limit_with_any_nonce(
    codec: Codec,
    packet: Packet,
    nonce: Seq<u8>,
    bytes: Seq<u8>,
)
    requires
        codec.encode(packet, nonce) == Ok::<Seq<u8>, Failure>(bytes),
        bytes.len() == frame_len(packet),
    ensures
        bytes.len() <= codec.max_frame_bytes,
{
    assert(composite(packet.body).len() >= 5);
}

/// A frame declares its own length: the bytes behind the length field. (The field
/// holds 32 bits, so a frame of 4 GiB or more is left out.)
pub proof fn lemma_encoded_frame_declares_length(
    codec: Codec,
    packet: Packet,
    nonce: Seq<u8>,
    bytes: Seq<u8>,
)
    requires
        codec.encode(packet, nonce) == Ok::<Seq<u8>, Failure>(bytes),
        bytes.len() - 4 < 0x1_0000_0000,
    ensures
        buffer::be32_value(bytes) == bytes.len() - 4,
        bytes[4] == packet.message_type.code(),
        bytes[5] == packet.encryption.code(),
{
    let payload = bytes.subrange(HEADER_LEN as int, bytes.len() as int);
    let codes = seq![packet.message_type.code(), packet.encryption.code()];
    assert(bytes =~= buffer::be32(payload.len() + 2) + (codes + payload));
    buffer::lemma_be32(payload.len() + 2, codes + payload);
}

/// A frame that is over the limit is not decoded, whatever it holds.
pub proof fn lemma_oversized_frame_is_rejected(codec: Codec, bytes: Seq<u8>)
    requires
        bytes.len() > codec.max_frame_bytes,
    ensures
        codec.decode(bytes) is Err,
        bytes.len() >= HEADER_LEN && buffer::be32_value(bytes) == bytes.len() - 4
            ==> codec.decode(bytes) == Err::<Packet, Failure>(
            Failure::FrameTooLarge { actual: bytes.len(), max: codec.max_frame_bytes },
        ),
{
}

/// A packet that is decoded has the message type of its body.
pub proof fn lemma_decoded_type_matches_body(codec: Codec, bytes: Seq<u8>, packet: Packet)
    requires
        codec.decode(bytes) == Ok::<Packet, Failure>(packet),
    ensures
        packet.message_type == packet.body.message_type(),
{
    reveal(decode_composite);
}

/// Helper for encoding a plaintext frame without constructing a custom codec.
pub fn encode_frame(packet: &PacketEnvelope) -> (r: Result<Vec<u8>, ProtocolError>)
    ensures
        encode_agrees(r, default_codec().encode(packet@, Seq::empty())),
        r matches Ok(bytes) ==> {
            &&& bytes@.len() == frame_len(packet@)
            &&& round_trips(default_codec(), packet@, bytes@)
        },
{
    FrameCodec::plaintext().encode(packet)
}

/// Helper for decoding a plaintext frame without constructing a custom codec.
pub fn decode_frame(frame: Bytes) -> (r: Result<PacketEnvelope, ProtocolError>)
    ensures
        decode_agrees(r, default_codec().decode(buffer::contents(frame))),
{
    FrameCodec::plaintext().decode(frame)
}

/// The codec without keys and with the default limit.
pub open spec fn default_codec() -> Codec {
    Codec {
        aes256_key: None,
        chacha20_key: None,
        max_frame_bytes: DEFAULT_MAX_FRAME_BYTES as nat,
    }
}

} // verus!
