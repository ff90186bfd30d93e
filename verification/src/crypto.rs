//! The outside primitives: AEAD ciphers, SHA-256, X25519 and secure randomness.
use aes_gcm::aead::Aead;
use aes_gcm::KeyInit;
use sha2::Digest;
use vstd::prelude::*;

verus! {

/// The ciphertext with its tag that ChaCha20-Poly1305 makes of a plaintext.
pub uninterp spec fn chacha20_seal(key: Seq<u8>, nonce: Seq<u8>, plaintext: Seq<u8>) -> Seq<u8>;

/// The plaintext that ChaCha20-Poly1305 finds in an authentic ciphertext.
pub uninterp spec fn chacha20_open(key: Seq<u8>, nonce: Seq<u8>, ciphertext: Seq<u8>) -> Option<
    Seq<u8>,
>;

/// The ciphertext with its tag that AES-256-GCM makes of a plaintext.
pub uninterp spec fn aes256_seal(key: Seq<u8>, nonce: Seq<u8>, plaintext: Seq<u8>) -> Seq<u8>;

/// The plaintext that AES-256-GCM finds in an authentic ciphertext.
pub uninterp spec fn aes256_open(key: Seq<u8>, nonce: Seq<u8>, ciphertext: Seq<u8>) -> Option<
    Seq<u8>,
>;

/// Byte length of a nonce of either cipher.
pub const NONCE_LEN: usize = 12;

/// Byte length of the tag that either cipher appends.
pub const TAG_LEN: usize = 16;

/// The longest plaintext for ChaCha20-Poly1305: the 64-byte blocks that a 32-bit
/// counter numbers from 1 on, without the last.
pub const CHACHA20_MAX_LEN: u64 = 0x3F_FFFF_FF80;

/// The longest plaintext for AES-256-GCM.
pub const AES256_MAX_LEN: u64 = 0x10_0000_0000;

/// `ChaCha20Poly1305::encrypt` without associated data. The ciphertext is a
/// function of key, nonce and plaintext, carries a tag of 16 bytes behind it, and
/// decrypts to the plaintext. It does not fail on a plaintext up to the bound; just
/// above it the call panics, where its key stream has run out.
#[verifier::external_body]
pub(crate) fn chacha20_encrypt(key: &[u8; 32], nonce: &[u8; 12], plaintext: &[u8]) -> (ciphertext:
    Vec<u8>)
    requires
        plaintext@.len() <= CHACHA20_MAX_LEN,
    ensures
        ciphertext@ == chacha20_seal(key@, nonce@, plaintext@),
        chacha20_open(key@, nonce@, ciphertext@) == Some(plaintext@),
        ciphertext@.len() == plaintext@.len() + TAG_LEN,
{
    chacha20poly1305::ChaCha20Poly1305::new(key.into())
        .encrypt(nonce.into(), plaintext)
        .expect("the plaintext is not too long")
}

/// `ChaCha20Poly1305::decrypt` without associated data: the plaintext of an
/// authentic ciphertext, a function of key, nonce and ciphertext. Just above the
/// bound the call can panic, where its key stream has run out.
#[verifier::external_body]
pub(crate) fn chacha20_decrypt(key: &[u8; 32], nonce: &[u8; 12], ciphertext: &[u8]) -> (r: Option<
    Vec<u8>,
>)
    requires
        ciphertext@.len() <= CHACHA20_MAX_LEN + TAG_LEN,
    ensures
        match r {
            Some(plaintext) => chacha20_open(key@, nonce@, ciphertext@) == Some(plaintext@),
            None => chacha20_open(key@, nonce@, ciphertext@) is None,
        },
{
    chacha20poly1305::ChaCha20Poly1305::new(key.into()).decrypt(nonce.into(), ciphertext).ok()
}

/// `Aes256Gcm::encrypt` without associated data. The ciphertext is a function of
/// key, nonce and plaintext, carries a tag of 16 bytes behind it, and decrypts to
/// the plaintext. It fails exactly on a plaintext that is over the bound.
#[verifier::external_body]
pub(crate) fn aes256_encrypt(key: &[u8; 32], nonce: &[u8; 12], plaintext: &[u8]) -> (r: Option<
    Vec<u8>,
>)
    ensures
        match r {
            Some(ciphertext) => {
                &&& plaintext@.len() <= AES256_MAX_LEN
                &&& ciphertext@ == aes256_seal(key@, nonce@, plaintext@)
                &&& aes256_open(key@, nonce@, ciphertext@) == Some(plaintext@)
                &&& ciphertext@.len() == plaintext@.len() + TAG_LEN
            },
            None => plaintext@.len() > AES256_MAX_LEN,
        },
{
    aes_gcm::Aes256Gcm::new(key.into()).encrypt(nonce.into(), plaintext).ok()
}

/// `Aes256Gcm::decrypt` without associated data: the plaintext of an authentic
/// ciphertext, a function of key, nonce and ciphertext.
#[verifier::external_body]
pub(crate) fn aes256_decrypt(key: &[u8; 32], nonce: &[u8; 12], ciphertext: &[u8]) -> (r: Option<
    Vec<u8>,
>)
    ensures
        match r {
            Some(plaintext) => aes256_open(key@, nonce@, ciphertext@) == Some(plaintext@),
            None => aes256_open(key@, nonce@, ciphertext@) is None,
        },
{
    aes_gcm::Aes256Gcm::new(key.into()).decrypt(nonce.into(), ciphertext).ok()
}

/// `getrandom::getrandom`: `N` bytes from the platform's secure random source, or
/// the message of its error. Nothing is promised of the bytes.
#[verifier::external_body]
pub(crate) fn random_bytes<const N: usize>() -> (r: Result<[u8; N], String>) {
    let mut bytes = [0u8; N];
    getrandom::getrandom(&mut bytes).map(|()| bytes).map_err(|source| source.to_string())
}

/// The bytes were drawn from the random source.
pub closed spec fn is_drawn<const N: usize>(bytes: [u8; N]) -> bool {
    call_ensures(random_bytes::<N>, (), Ok::<[u8; N], String>(bytes))
}

/// The random source has failed to give `N` bytes, with this message.
pub closed spec fn draw_failed<const N: usize>(source: Seq<char>) -> bool {
    exists|message: String|
        message@ == source && #[trigger] call_ensures(
            random_bytes::<N>,
            (),
            Err::<[u8; N], String>(message),
        )
}

/// The result of a call, known to be one.
fn outcome<const N: usize, F: Fn() -> Result<[u8; N], String>>(source: F) -> (r: Result<
    [u8; N],
    String,
>)
    requires
        call_requires(source, ()),
    ensures
        call_ensures(source, (), r),
{
    source()
}

/// Draws bytes from the random source.
pub(crate) fn draw<const N: usize>() -> (r: Result<[u8; N], String>)
    ensures
        match r {
            Ok(bytes) => is_drawn(bytes),
            Err(source) => draw_failed::<N>(source@),
        },
        call_ensures(random_bytes::<N>, (), r),
{
    outcome(random_bytes::<N>)
}

/// Drawn bytes are what a call of the random source has returned, and a failure to draw
/// is an error that it has returned.
pub(crate) proof fn lemma_drawn_by_the_source<const N: usize>(bytes: [u8; N], source: Seq<char>)
    ensures
        is_drawn(bytes) ==> call_ensures(random_bytes::<N>, (), Ok::<[u8; N], String>(bytes)),
        draw_failed::<N>(source) ==> exists|message: String|
            message@ == source && #[trigger] call_ensures(
                random_bytes::<N>,
                (),
                Err::<[u8; N], String>(message),
            ),
{
}

/// The SHA-256 digest of some bytes.
pub uninterp spec fn sha256(data: Seq<u8>) -> Seq<u8>;

/// `Sha256::digest`: the 32-byte digest, a function of the data.
#[verifier::external_body]
pub(crate) fn sha256_digest(data: &[u8]) -> (digest: [u8; 32])
    ensures
        digest@ == sha256(data@),
{
    sha2::Sha256::digest(data).into()
}

/// `x25519_dalek::StaticSecret`, an X25519 secret key that is zeroized on drop.
#[verifier::external_type_specification]
#[verifier::external_body]
pub struct ExStaticSecret(x25519_dalek::StaticSecret);

/// The bytes of a secret key.
pub uninterp spec fn secret_bytes(secret: x25519_dalek::StaticSecret) -> Seq<u8>;

/// The X25519 public key of a secret key.
pub uninterp spec fn x25519_public(secret: Seq<u8>) -> Seq<u8>;

/// The X25519 shared secret of a secret key and a peer's public key.
pub uninterp spec fn x25519_shared(secret: Seq<u8>, peer: Seq<u8>) -> Seq<u8>;

/// `StaticSecret::from`: the secret key with these bytes.
#[verifier::external_body]
pub(crate) fn secret_from(bytes: [u8; 32]) -> (secret: x25519_dalek::StaticSecret)
    ensures
        secret_bytes(secret) == bytes@,
{
    x25519_dalek::StaticSecret::from(bytes)
}

/// `PublicKey::from` on a `StaticSecret`: the 32 bytes of the public key, a
/// function of the secret key's bytes.
#[verifier::external_body]
pub(crate) fn public_of(secret: &x25519_dalek::StaticSecret) -> (public: [u8; 32])
    ensures
        public@ == x25519_public(secret_bytes(*secret)),
{
    x25519_dalek::PublicKey::from(secret).to_bytes()
}

/// `StaticSecret::diffie_hellman`: the 32 bytes of the shared secret, a function of
/// the secret key's bytes and the peer's public key. Where the public key is that
/// of another secret key, the peer computes the same from its side.
#[verifier::external_body]
pub(crate) fn diffie_hellman(secret: &x25519_dalek::StaticSecret, peer: &[u8; 32]) -> (shared: [u8;
    32])
    ensures
        shared@ == x25519_shared(secret_bytes(*secret), peer@),
        forall|other: Seq<u8>|
            other.len() == 32 && peer@ == #[trigger] x25519_public(other) ==> shared@
                == x25519_shared(other, x25519_public(secret_bytes(*secret))),
{
    secret.diffie_hellman(&x25519_dalek::PublicKey::from(*peer)).to_bytes()
}

} // verus!
