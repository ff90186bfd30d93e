use sha2::Digest;
use wscall::ecdh::{
    derive_session_key, parse_peer_public, EcdhKeypair, ECDH_DOMAIN_TAG, ECDH_KEY_LEN,
};
use wscall::error::ProtocolError;

fn session_key_of(shared: &[u8; 32]) -> [u8; 32] {
    let mut data = b"wscall-ecdh-v1".to_vec();
    data.extend_from_slice(shared);
    sha2::Sha256::digest(&data).into()
}

#[test]
fn both_sides_derive_the_same_key() {
    let client = EcdhKeypair::generate().expect("client keypair");
    let server = EcdhKeypair::generate().expect("server keypair");
    let other = EcdhKeypair::generate().expect("another keypair");
    let at_client = client.derive_session_key(&server.public_bytes());
    let at_server = server.derive_session_key(&client.public_bytes());
    assert_eq!(at_client, at_server);
    assert_ne!(at_client, other.derive_session_key(&server.public_bytes()));
    assert_ne!(client.public_bytes(), server.public_bytes());
}

#[test]
fn keypairs_follow_from_their_secret() {
    let secret = [0x42; 32];
    let pair = EcdhKeypair::from_secret(secret);
    let expected =
        x25519_dalek::PublicKey::from(&x25519_dalek::StaticSecret::from(secret)).to_bytes();
    assert_eq!(pair.public_bytes(), expected);
    let peer = EcdhKeypair::from_secret([0x24; 32]).public_bytes();
    let shared = x25519_dalek::x25519(secret, peer);
    assert_eq!(pair.derive_session_key(&peer), session_key_of(&shared));
}

#[test]
fn session_key_is_the_digest_of_tag_and_secret() {
    assert_eq!(&ECDH_DOMAIN_TAG[..], b"wscall-ecdh-v1");
    assert_eq!(ECDH_KEY_LEN, 32);
    let shared = [9; 32];
    assert_eq!(derive_session_key(&shared), session_key_of(&shared));
    assert_ne!(derive_session_key(&shared), shared);
}

#[test]
fn peer_keys_have_32_bytes() {
    assert_eq!(parse_peer_public(&[5; 32]).expect("valid key"), [5; 32]);
    for len in [0, 31, 33] {
        match parse_peer_public(&vec![0; len]) {
            Err(ProtocolError::InvalidEcdhPublicKey { expected, actual }) => {
                assert_eq!(expected, 32);
                assert_eq!(actual, len);
            }
            other => panic!("unexpected outcome: {other:?}"),
        }
    }
}
