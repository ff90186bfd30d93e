//! Byte buffers: the shared buffer of the `bytes` crate, and the big-endian
//! numerals and UTF-8 texts that frames are made of.
use bytes::Bytes;
use vstd::prelude::*;
use vstd::utf8::*;

verus! {

/// `bytes::Bytes`, an immutable buffer that clones and slices without copying.
#[verifier::external_type_specification]
#[verifier::external_body]
pub struct ExBytes(bytes::Bytes);

/// The bytes that a `bytes::Bytes` holds.
pub uninterp spec fn contents(buffer: Bytes) -> Seq<u8>;

/// `Bytes::from` on a `Vec<u8>`: a buffer with the vector's bytes.
#[verifier::external_body]
pub(crate) fn from_vec(bytes: Vec<u8>) -> (buffer: Bytes)
    ensures
        contents(buffer) == bytes@,
{
    Bytes::from(bytes)
}

/// `Bytes::deref`: the bytes of the buffer as a slice.
#[verifier::external_body]
pub(crate) fn as_slice(buffer: &Bytes) -> (bytes: &[u8])
    ensures
        bytes@ == contents(*buffer),
{
    buffer
}

/// `Bytes::slice`: the part from `from` up to `to`, which shares the buffer. It
/// panics where the range is not one of the buffer.
#[verifier::external_body]
pub(crate) fn slice(buffer: &Bytes, from: usize, to: usize) -> (part: Bytes)
    requires
        from <= to <= contents(*buffer).len(),
    ensures
        contents(part) == contents(*buffer).subrange(from as int, to as int),
{
    buffer.slice(from..to)
}

/// `Bytes::clone`: another handle on the same bytes.
#[verifier::external_body]
pub(crate) fn share(buffer: &Bytes) -> (copy: Bytes)
    ensures
        contents(copy) == contents(*buffer),
{
    buffer.clone()
}

/// The low 32 bits of `n`, most significant byte first.
pub open spec fn be32(n: nat) -> Seq<u8> {
    seq![
        (n / 16777216 % 256) as u8,
        (n / 65536 % 256) as u8,
        (n / 256 % 256) as u8,
        (n % 256) as u8,
    ]
}

/// The number that the first four of `bytes` write, most significant first.
pub open spec fn be32_value(bytes: Seq<u8>) -> nat {
    (bytes[0] * 16777216 + bytes[1] * 65536 + bytes[2] * 256 + bytes[3]) as nat
}

/// Reading four bytes gives back the number that they were written for.
pub proof fn lemma_be32(n: nat, rest: Seq<u8>)
    requires
        n < 0x1_0000_0000,
    ensures
        be32_value(be32(n) + rest) == n,
{
    let bytes = be32(n) + rest;
    assert(bytes[0] == be32(n)[0]);
    assert(bytes[1] == be32(n)[1]);
    assert(bytes[2] == be32(n)[2]);
    assert(bytes[3] == be32(n)[3]);
}

/// The four bytes of `n`, most significant first; `n` is cut to 32 bits.
pub(crate) fn be32_bytes(n: usize) -> (bytes: [u8; 4])
    ensures
        bytes@ == be32(n as nat),
{
    let wide: u64 = n as u64;
    [
        (wide / 16777216 % 256) as u8,
        (wide / 65536 % 256) as u8,
        (wide / 256 % 256) as u8,
        (wide % 256) as u8,
    ]
}

/// The number that four bytes at `at` write, most significant first.
pub(crate) fn be32_at(bytes: &[u8], at: usize) -> (n: u32)
    requires
        at + 4 <= bytes@.len(),
    ensures
        n == be32_value(bytes@.subrange(at as int, at + 4)),
{
    let first: u32 = bytes[at] as u32 * 16777216;
    let second: u32 = bytes[at + 1] as u32 * 65536;
    let third: u32 = bytes[at + 2] as u32 * 256;
    first + second + third + bytes[at + 3] as u32
}

/// The text of bytes that are not UTF-8, with the malformed parts replaced.
pub uninterp spec fn repaired_utf8(bytes: Seq<u8>) -> Seq<char>;

/// The text that bytes stand for; malformed parts are replaced.
pub open spec fn lossy_text(bytes: Seq<u8>) -> Seq<char> {
    if valid_utf8(bytes) {
        decode_utf8(bytes)
    } else {
        repaired_utf8(bytes)
    }
}

/// `String::from_utf8_lossy` of `std`: the text of UTF-8 bytes. Where the bytes
/// are not UTF-8 the malformed parts are replaced; the text is then a function
/// of the bytes, and nothing more is said of it.
#[verifier::external_body]
pub(crate) fn from_utf8_lossy(bytes: &[u8]) -> (text: String)
    ensures
        text@ == if valid_utf8(bytes@) {
            decode_utf8(bytes@)
        } else {
            repaired_utf8(bytes@)
        },
{
    String::from_utf8_lossy(bytes).into_owned()
}

} // verus!
