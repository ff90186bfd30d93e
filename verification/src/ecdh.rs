//! The ECDH handshake: both sides send a raw X25519 public key and derive the same
//! 32-byte session key as SHA-256 of a domain tag and the shared secret.
use crate::crypto;
use crate::crypto::{diffie_hellman, draw, public_of, secret_from, sha256_digest};
use crate::error::{Failure, ProtocolError};
use vstd::prelude::*;

verus! {

/// Domain-separation tag mixed into the key derivation: `wscall-ecdh-v1`.
pub const ECDH_DOMAIN_TAG: [u8; 14] = [
    119,
    115,
    99,
    97,
    108,
    108,
    45,
    101,
    99,
    100,
    104,
    45,
    118,
    49,
];

/// Byte length of an X25519 public key (also the secret key length).
pub const ECDH_KEY_LEN: usize = 32;

/// The session key that is derived from a shared secret.
pub open spec fn session_key(shared: Seq<u8>) -> Seq<u8> {
    crypto::sha256(ECDH_DOMAIN_TAG@ + shared)
}

/// A freshly generated X25519 keypair for the ECDH handshake.
///
/// The secret is zeroized on drop. Keep the secret on the side that generated it
/// and send only the [`EcdhKeypair::public_bytes`] to the peer.
pub struct EcdhKeypair {
    secret: x25519_dalek::StaticSecret,
    public: [u8; 32],
}

impl EcdhKeypair {
    /// The bytes of the secret key.
    pub closed spec fn secret(self) -> Seq<u8> {
        crypto::secret_bytes(self.secret)
    }

    /// The public key is that of the secret key.
    #[verifier::type_invariant]
    spec fn well_formed(self) -> bool {
        self.public@ == crypto::x25519_public(self.secret())
    }

    /// Generates a random X25519 keypair using the platform CSPRNG.
    pub fn generate() -> (r: Result<Self, ProtocolError>)
        ensures
            match r {
                Ok(pair) => pair.secret().len() == ECDH_KEY_LEN && exists|secret: [u8; 32]|
                    pair.secret() == secret@ && #[trigger] crypto::is_drawn(secret),
                Err(e) => e@ matches Failure::Random(source) && crypto::draw_failed::<32>(source),
            },
    {
        match draw::<32>() {
            Ok(secret) => Ok(Self::from_secret(secret)),
            Err(source) => Err(ProtocolError::Random(source)),
        }
    }

    /// The keypair with the given secret key.
    pub fn from_secret(secret: [u8; 32]) -> (pair: Self)
        ensures
            pair.secret() == secret@,
    {
        let secret = secret_from(secret);
        let public = public_of(&secret);
        EcdhKeypair { secret, public }
    }

    /// Returns the 32-byte public key that should be sent to the peer.
    pub fn public_bytes(&self) -> (public: [u8; 32])
        ensures
            public@ == crypto::x25519_public(self.secret()),
    {
        proof {
            use_type_invariant(self);
        }
        self.public
    }

    /// Derives the 32-byte ChaCha20-Poly1305 session key from the peer's 32-byte
    /// public key. A peer that holds the secret key of that public key, and has
    /// been sent this side's public key, derives the same session key.
    pub fn derive_session_key(&self, peer_public: &[u8; 32]) -> (key: [u8; 32])
        ensures
            key@ == session_key(crypto::x25519_shared(self.secret(), peer_public@)),
            forall|other: Seq<u8>|
                other.len() == 32 && peer_public@ == #[trigger] crypto::x25519_public(other)
                    ==> key@ == session_key(
                    crypto::x25519_shared(other, crypto::x25519_public(self.secret())),
                ),
    {
        let shared = diffie_hellman(&self.secret, peer_public);
        derive_session_key(&shared)
    }
}

/// Derives a 32-byte symmetric key from a raw X25519 shared secret.
///
/// Uses SHA-256(domain ‖ shared_secret) for domain separation. The result is
/// suitable as a ChaCha20-Poly1305 or AES-256-GCM key.
pub fn derive_session_key(shared_secret: &[u8; 32]) -> (key: [u8; 32])
    ensures
        key@ == session_key(shared_secret@),
{
    let tag = ECDH_DOMAIN_TAG;
    let mut data: Vec<u8> = Vec::new();
    data.extend_from_slice(&tag);
    data.extend_from_slice(shared_secret);
    proof {
        assert(data@ == ECDH_DOMAIN_TAG@ + shared_secret@);
    }
    sha256_digest(data.as_slice())
}

/// Parses 32 raw bytes received from the peer into an X25519 public key.
///
/// Returns an error if the slice is not exactly 32 bytes.
pub fn parse_peer_public(bytes: &[u8]) -> (r: Result<[u8; 32], ProtocolError>)
    ensures
        match r {
            Ok(key) => key@ == bytes@,
            Err(e) => bytes@.len() != ECDH_KEY_LEN && e@ == (Failure::InvalidEcdhPublicKey {
                expected: ECDH_KEY_LEN as nat,
                actual: bytes@.len(),
            }),
        },
{
    if bytes.len() != ECDH_KEY_LEN {
        return Err(
            ProtocolError::InvalidEcdhPublicKey { expected: ECDH_KEY_LEN, actual: bytes.len() },
        );
    }
    let mut key: [u8; 32] = [0; 32];
    let mut i: usize = 0;
    while i < 32
        invariant
            i <= 32,
            bytes@.len() == 32,
            forall|j: int| 0 <= j < i ==> key@[j] == bytes@[j],
        decreases 32 - i,
    {
        key[i] = bytes[i];
        i += 1;
    }
    proof {
        assert(key@ =~= bytes@);
    }
    Ok(key)
}

} // verus!
