//! The AEAD envelope: round trips, wrong-key rejection, nonce freshness,
//! and the three failure kinds.

use chacha20poly1305::aead::Aead;
use chacha20poly1305::{ChaCha20Poly1305, KeyInit};
use vpn_core::creds::Credentials;
use vpn_core::packet::{
    derive_session_key, ClientPacket, EncryptedPacket, PacketError, ServerPacket,
};

#[test]
fn encrypt_decrypt_round_trip() {
    let key = [42u8; 32];
    let ep = EncryptedPacket::encrypt(&key, &ClientPacket::Data(vec![1, 2, 3])).unwrap();
    let p: ClientPacket = ep.decrypt(&key).unwrap();
    match p {
        ClientPacket::Data(d) => assert_eq!(d, vec![1, 2, 3]),
        _ => panic!("wrong variant"),
    }

    let original = Credentials::from_str("test_user:test_pass").unwrap();
    let ep = EncryptedPacket::encrypt(&key, &ClientPacket::Auth(original.clone())).unwrap();
    match ep.decrypt(&key).unwrap() {
        ClientPacket::Auth(c) => assert!(c.matches(&original)),
        _ => panic!("wrong variant"),
    }

    let ep = EncryptedPacket::encrypt(
        &key,
        &ServerPacket::Disconnect { reason: "Stale connection".to_string() },
    )
    .unwrap();
    match ep.decrypt(&key).unwrap() {
        ServerPacket::Disconnect { reason } => assert_eq!(reason, "Stale connection"),
        _ => panic!("wrong variant"),
    }
}

#[test]
fn round_trip_survives_the_wire() {
    let key = [7u8; 32];
    let ep = EncryptedPacket::encrypt(&key, &ClientPacket::Ping).unwrap();
    let wire = ep.to_bytes();
    let back = EncryptedPacket::from_bytes(&wire).unwrap();
    let p: ClientPacket = back.decrypt(&key).unwrap();
    assert!(matches!(p, ClientPacket::Ping));
}

#[test]
fn wrong_key_is_rejected() {
    let k1 = [1u8; 32];
    let k2 = [2u8; 32];
    for packet in [
        ClientPacket::Ping,
        ClientPacket::Data(vec![1, 2, 3, 4]),
        ClientPacket::KeyExchange([5u8; 32]),
    ] {
        let ep = EncryptedPacket::encrypt(&k1, &packet).unwrap();
        let r: Result<ClientPacket, PacketError> = ep.decrypt(&k2);
        assert_eq!(r.unwrap_err(), PacketError::AuthFailed);
    }
}

#[test]
fn nonces_are_pairwise_distinct() {
    let key = [3u8; 32];
    let mut nonces: Vec<Vec<u8>> = Vec::new();
    for _ in 0..100 {
        let ep = EncryptedPacket::encrypt(&key, &ClientPacket::Ping).unwrap();
        nonces.push(ep.to_bytes()[..12].to_vec());
    }
    for i in 0..nonces.len() {
        for j in (i + 1)..nonces.len() {
            assert_ne!(nonces[i], nonces[j]);
        }
    }
}

#[test]
fn short_datagram_is_malformed() {
    let r = EncryptedPacket::from_bytes(&[0u8; 27]);
    assert_eq!(r.unwrap_err(), PacketError::Malformed);
    assert_eq!(PacketError::Malformed.message(), "Packet too short");
    assert!(EncryptedPacket::from_bytes(&[0u8; 28]).is_ok());
}

#[test]
fn tampered_datagram_fails_authentication() {
    let key = [9u8; 32];
    let ep = EncryptedPacket::encrypt(&key, &ClientPacket::Data(vec![1, 2, 3])).unwrap();
    let mut wire = ep.to_bytes();
    let last = wire.len() - 1;
    wire[last] ^= 0x01;
    let back = EncryptedPacket::from_bytes(&wire).unwrap();
    let r: Result<ClientPacket, PacketError> = back.decrypt(&key);
    assert_eq!(r.unwrap_err(), PacketError::AuthFailed);
}

#[test]
fn junk_plaintext_fails_decoding() {
    // seal bytes that decode to no message: an out-of-range variant tag
    let key = [6u8; 32];
    let nonce = [1u8; 12];
    let cipher = ChaCha20Poly1305::new((&key).into());
    let ct = cipher.encrypt((&nonce).into(), &[0xffu8, 0xff, 0xff, 0xff][..]).unwrap();
    let mut wire = nonce.to_vec();
    wire.extend_from_slice(&ct);
    let back = EncryptedPacket::from_bytes(&wire).unwrap();
    let r: Result<ClientPacket, PacketError> = back.decrypt(&key);
    assert_eq!(r.unwrap_err(), PacketError::DecodeFailed);
}

#[test]
fn random_key_shares_are_fresh() {
    let mut a = [0u8; 32];
    let mut b = [0u8; 32];
    vpn_core::packet::fill_random_bytes(&mut a);
    vpn_core::packet::fill_random_bytes(&mut b);
    assert_ne!(a, [0u8; 32]);
    assert_ne!(a, b);
}

#[test]
fn session_key_combines_shares_symmetrically() {
    let a = [0x0fu8; 32];
    let mut b = [0u8; 32];
    for (i, slot) in b.iter_mut().enumerate() {
        *slot = i as u8;
    }
    let ab = derive_session_key(&a, &b);
    let ba = derive_session_key(&b, &a);
    assert_eq!(ab, ba);
    for i in 0..32 {
        assert_eq!(ab[i], a[i] ^ b[i]);
    }
}
