//! Errors of the frame protocol.
use crate::text;
use crate::text::{decimal_text, join, push_char};
use vstd::prelude::*;

verus! {

/// Errors returned while encoding or decoding WSCALL frames.
#[derive(Debug)]
pub enum ProtocolError {
    FrameTooShort,
    FrameLengthMismatch { declared: usize, actual: usize },
    PayloadTooLarge { actual: usize, max: usize },
    FrameTooLarge { actual: usize, max: usize },
    UnknownMessageType(u8),
    UnknownEncryption(u8),
    UnsupportedEncryption(u8),
    MissingEncryptionKey(&'static str),
    InvalidEncryptionKey(&'static str),
    Random(String),
    EncryptedPayloadTooShort { algorithm: &'static str, expected_min: usize, actual: usize },
    EncryptionFailed(&'static str),
    DecryptionFailed(&'static str),
    InvalidEcdhPublicKey { expected: usize, actual: usize },
    EcdhHandshake(String),
    MessageTypeMismatch,
    InvalidAttachmentEncoding(String),
    Json(String),
}

/// What a [`ProtocolError`] says.
pub enum Failure {
    FrameTooShort,
    FrameLengthMismatch { declared: nat, actual: nat },
    PayloadTooLarge { actual: nat, max: nat },
    FrameTooLarge { actual: nat, max: nat },
    UnknownMessageType(u8),
    UnknownEncryption(u8),
    UnsupportedEncryption(u8),
    MissingEncryptionKey(Seq<char>),
    InvalidEncryptionKey(Seq<char>),
    Random(Seq<char>),
    EncryptedPayloadTooShort { algorithm: Seq<char>, expected_min: nat, actual: nat },
    EncryptionFailed(Seq<char>),
    DecryptionFailed(Seq<char>),
    InvalidEcdhPublicKey { expected: nat, actual: nat },
    EcdhHandshake(Seq<char>),
    MessageTypeMismatch,
    InvalidAttachmentEncoding(Seq<char>),
    Json(Seq<char>),
}

impl View for ProtocolError {
    type V = Failure;

    open spec fn view(&self) -> Failure {
        match self {
            ProtocolError::FrameTooShort => Failure::FrameTooShort,
            ProtocolError::FrameLengthMismatch { declared, actual } => {
                Failure::FrameLengthMismatch { declared: *declared as nat, actual: *actual as nat }
            },
            ProtocolError::PayloadTooLarge { actual, max } => {
                Failure::PayloadTooLarge { actual: *actual as nat, max: *max as nat }
            },
            ProtocolError::FrameTooLarge { actual, max } => {
                Failure::FrameTooLarge { actual: *actual as nat, max: *max as nat }
            },
            ProtocolError::UnknownMessageType(value) => Failure::UnknownMessageType(*value),
            ProtocolError::UnknownEncryption(value) => Failure::UnknownEncryption(*value),
            ProtocolError::UnsupportedEncryption(value) => Failure::UnsupportedEncryption(*value),
            ProtocolError::MissingEncryptionKey(name) => Failure::MissingEncryptionKey(name@),
            ProtocolError::InvalidEncryptionKey(name) => Failure::InvalidEncryptionKey(name@),
            ProtocolError::Random(source) => Failure::Random(source@),
            ProtocolError::EncryptedPayloadTooShort { algorithm, expected_min, actual } => {
                Failure::EncryptedPayloadTooShort {
                    algorithm: algorithm@,
                    expected_min: *expected_min as nat,
                    actual: *actual as nat,
                }
            },
            ProtocolError::EncryptionFailed(name) => Failure::EncryptionFailed(name@),
            ProtocolError::DecryptionFailed(name) => Failure::DecryptionFailed(name@),
            ProtocolError::InvalidEcdhPublicKey { expected, actual } => {
                Failure::InvalidEcdhPublicKey { expected: *expected as nat, actual: *actual as nat }
            },
            ProtocolError::EcdhHandshake(reason) => Failure::EcdhHandshake(reason@),
            ProtocolError::MessageTypeMismatch => Failure::MessageTypeMismatch,
            ProtocolError::InvalidAttachmentEncoding(reason) => {
                Failure::InvalidAttachmentEncoding(reason@)
            },
            ProtocolError::Json(reason) => Failure::Json(reason@),
        }
    }
}

/// The lower-case hexadecimal digit with value `d`.
pub open spec fn hex_digit(d: nat) -> char {
    if d < 10 {
        ((d + 48) as u8) as char
    } else {
        ((d + 87) as u8) as char
    }
}

/// A byte in hexadecimal with the prefix `0x`, without leading zeros.
pub open spec fn hex(value: u8) -> Seq<char> {
    if value < 16 {
        seq!['0', 'x', hex_digit(value as nat)]
    } else {
        seq!['0', 'x', hex_digit((value / 16) as nat), hex_digit((value % 16) as nat)]
    }
}

fn hex_digit_of(d: u8) -> (c: char)
    requires
        d < 16,
    ensures
        c == hex_digit(d as nat),
{
    if d < 10 {
        (d + 48) as char
    } else {
        (d + 87) as char
    }
}

fn hex_text(value: u8) -> (text: String)
    ensures
        text@ == hex(value),
{
    let mut text = String::new();
    push_char(&mut text, '0');
    push_char(&mut text, 'x');
    if value >= 16 {
        push_char(&mut text, hex_digit_of(value / 16));
    }
    push_char(&mut text, hex_digit_of(value % 16));
    text
}

impl Failure {
    /// The error's message.
    pub open spec fn text(self) -> Seq<char> {
        match self {
            Failure::FrameTooShort => "frame too short"@,
            Failure::FrameLengthMismatch { declared, actual } => {
                "frame length mismatch: declared="@ + text::decimal(declared) + ", actual="@ + text::decimal(
                    actual,
                )
            },
            Failure::PayloadTooLarge { actual, max } => {
                "payload too large: actual="@ + text::decimal(actual) + ", max="@ + text::decimal(max)
            },
            Failure::FrameTooLarge { actual, max } => {
                "frame too large: actual="@ + text::decimal(actual) + ", max="@ + text::decimal(max)
            },
            Failure::UnknownMessageType(value) => "unknown message type: "@ + hex(value),
            Failure::UnknownEncryption(value) => "unknown encryption kind: "@ + hex(value),
            Failure::UnsupportedEncryption(value) => "unsupported encryption kind: "@ + hex(value),
            Failure::MissingEncryptionKey(name) => "missing encryption key for "@ + name,
            Failure::InvalidEncryptionKey(name) => "invalid encryption key for "@ + name,
            Failure::Random(source) => "secure random generation failed: "@ + source,
            Failure::EncryptedPayloadTooShort { algorithm, expected_min, actual } => {
                "encrypted payload too short for "@ + algorithm + ": expected at least "@ + text::decimal(
                    expected_min,
                ) + ", actual="@ + text::decimal(actual)
            },
            Failure::EncryptionFailed(name) => "encryption failed for "@ + name,
            Failure::DecryptionFailed(name) => "decryption failed for "@ + name,
            Failure::InvalidEcdhPublicKey { expected, actual } => {
                "invalid ECDH public key: expected "@ + text::decimal(expected) + " bytes, got "@
                    + text::decimal(actual)
            },
            Failure::EcdhHandshake(reason) => "ECDH handshake failed: "@ + reason,
            Failure::MessageTypeMismatch => "message type does not match packet body"@,
            Failure::InvalidAttachmentEncoding(reason) => "invalid attachment encoding: "@ + reason,
            Failure::Json(reason) => "json error: "@ + reason,
        }
    }
}

fn two_sizes(label: &str, first: usize, middle: &str, second: usize) -> (r: String)
    ensures
        r@ == label@ + text::decimal(first as nat) + middle@ + text::decimal(second as nat),
{
    let mut r = label.to_owned();
    r.append(decimal_text(first as u128).as_str());
    r.append(middle);
    r.append(decimal_text(second as u128).as_str());
    r
}

impl ProtocolError {
    /// The error's message.
    pub fn message(&self) -> (r: String)
        ensures
            r@ == self@.text(),
    {
        match self {
            ProtocolError::FrameTooShort => "frame too short".to_owned(),
            ProtocolError::FrameLengthMismatch { declared, actual } => {
                two_sizes("frame length mismatch: declared=", *declared, ", actual=", *actual)
            },
            ProtocolError::PayloadTooLarge { actual, max } => {
                two_sizes("payload too large: actual=", *actual, ", max=", *max)
            },
            ProtocolError::FrameTooLarge { actual, max } => {
                two_sizes("frame too large: actual=", *actual, ", max=", *max)
            },
            ProtocolError::UnknownMessageType(value) => {
                join("unknown message type: ", hex_text(*value).as_str())
            },
            ProtocolError::UnknownEncryption(value) => {
                join("unknown encryption kind: ", hex_text(*value).as_str())
            },
            ProtocolError::UnsupportedEncryption(value) => {
                join("unsupported encryption kind: ", hex_text(*value).as_str())
            },
            ProtocolError::MissingEncryptionKey(name) => {
                join("missing encryption key for ", name)
            },
            ProtocolError::InvalidEncryptionKey(name) => {
                join("invalid encryption key for ", name)
            },
            ProtocolError::Random(source) => {
                join("secure random generation failed: ", source.as_str())
            },
            ProtocolError::EncryptedPayloadTooShort { algorithm, expected_min, actual } => {
                let mut r = join("encrypted payload too short for ", algorithm);
                r.append(two_sizes(": expected at least ", *expected_min, ", actual=", *actual).as_str());
                proof {
                    assert(r@ == self@.text());
                }
                r
            },
            ProtocolError::EncryptionFailed(name) => join("encryption failed for ", name),
            ProtocolError::DecryptionFailed(name) => join("decryption failed for ", name),
            ProtocolError::InvalidEcdhPublicKey { expected, actual } => {
                two_sizes("invalid ECDH public key: expected ", *expected, " bytes, got ", *actual)
            },
            ProtocolError::EcdhHandshake(reason) => {
                join("ECDH handshake failed: ", reason.as_str())
            },
            ProtocolError::MessageTypeMismatch => {
                "message type does not match packet body".to_owned()
            },
            ProtocolError::InvalidAttachmentEncoding(reason) => {
                join("invalid attachment encoding: ", reason.as_str())
            },
            ProtocolError::Json(reason) => join("json error: ", reason.as_str()),
        }
    }
}

} // verus!
