//! The binary codec: exact bytes, declaration-order tags, round trips, and
//! byte-for-byte agreement with the reference serializer.

use vpn_core::creds::Credentials;
use vpn_core::packet::{ClientPacket, ServerPacket, Wire};

#[test]
fn ping_encodes_to_its_tag() {
    assert_eq!(ClientPacket::Ping.encode(), vec![2, 0, 0, 0]);
}

#[test]
fn client_tags_follow_declaration_order() {
    let auth = ClientPacket::Auth(Credentials::from_str("u:p").unwrap()).encode();
    assert_eq!(&auth[..4], &[0, 0, 0, 0]);
    let data = ClientPacket::Data(vec![1]).encode();
    assert_eq!(&data[..4], &[1, 0, 0, 0]);
    assert_eq!(ClientPacket::Ping.encode()[..4], [2, 0, 0, 0]);
    assert_eq!(ClientPacket::Disconnect.encode()[..4], [3, 0, 0, 0]);
    let kx = ClientPacket::KeyExchange([7u8; 32]).encode();
    assert_eq!(&kx[..4], &[4, 0, 0, 0]);
    assert_eq!(kx.len(), 36);
}

#[test]
fn server_tags_follow_declaration_order() {
    assert_eq!(ServerPacket::AuthOk.encode(), vec![0, 0, 0, 0]);
    assert_eq!(&ServerPacket::AuthError("x".to_string()).encode()[..4], &[1, 0, 0, 0]);
    assert_eq!(&ServerPacket::Data(vec![1]).encode()[..4], &[2, 0, 0, 0]);
    assert_eq!(ServerPacket::Pong.encode(), vec![3, 0, 0, 0]);
    assert_eq!(&ServerPacket::Error("x".to_string()).encode()[..4], &[4, 0, 0, 0]);
    assert_eq!(
        &ServerPacket::Disconnect { reason: "x".to_string() }.encode()[..4],
        &[5, 0, 0, 0]
    );
    assert_eq!(&ServerPacket::KeyExchange([0u8; 32]).encode()[..4], &[6, 0, 0, 0]);
}

#[test]
fn data_encoding_is_length_prefixed() {
    let bytes = ClientPacket::Data(vec![9, 8, 7]).encode();
    assert_eq!(bytes, vec![1, 0, 0, 0, 3, 0, 0, 0, 0, 0, 0, 0, 9, 8, 7]);
}

#[test]
fn auth_encoding_carries_the_credential() {
    let c = Credentials::from_str("user:pass").unwrap();
    let bytes = ClientPacket::Auth(c).encode();
    let mut expected: Vec<u8> = Vec::new();
    expected.extend_from_slice(&[0, 0, 0, 0]); // message tag
    expected.extend_from_slice(&[0, 0, 0, 0]); // credential tag
    expected.extend_from_slice(&4u64.to_le_bytes());
    expected.extend_from_slice(b"user");
    expected.extend_from_slice(&4u64.to_le_bytes());
    expected.extend_from_slice(b"pass");
    assert_eq!(bytes, expected);
}

#[test]
fn encoding_matches_the_reference_serializer() {
    assert_eq!(ClientPacket::Ping.encode(), bincode::serialize(&2u32).unwrap());
    assert_eq!(ClientPacket::Disconnect.encode(), bincode::serialize(&3u32).unwrap());
    assert_eq!(
        ClientPacket::Data(vec![1, 2, 3]).encode(),
        bincode::serialize(&(1u32, vec![1u8, 2, 3])).unwrap()
    );
    assert_eq!(
        ClientPacket::KeyExchange([7u8; 32]).encode(),
        bincode::serialize(&(4u32, [7u8; 32])).unwrap()
    );
    assert_eq!(
        ClientPacket::Auth(Credentials::from_str("user:pass").unwrap()).encode(),
        bincode::serialize(&(0u32, 0u32, "user", "pass")).unwrap()
    );
    assert_eq!(ServerPacket::AuthOk.encode(), bincode::serialize(&0u32).unwrap());
    assert_eq!(
        ServerPacket::AuthError("Invalid credentials".to_string()).encode(),
        bincode::serialize(&(1u32, "Invalid credentials")).unwrap()
    );
    assert_eq!(
        ServerPacket::Disconnect { reason: "Stale connection".to_string() }.encode(),
        bincode::serialize(&(5u32, "Stale connection")).unwrap()
    );
    assert_eq!(
        ServerPacket::Error("boom".to_string()).encode(),
        bincode::serialize(&(4u32, "boom")).unwrap()
    );
}

#[test]
fn decode_inverts_encode_for_client_messages() {
    let p = ClientPacket::decode(&ClientPacket::Ping.encode()).unwrap();
    assert!(matches!(p, ClientPacket::Ping));
    let p = ClientPacket::decode(&ClientPacket::Disconnect.encode()).unwrap();
    assert!(matches!(p, ClientPacket::Disconnect));
    let p = ClientPacket::decode(&ClientPacket::Data(vec![5, 6]).encode()).unwrap();
    match p {
        ClientPacket::Data(d) => assert_eq!(d, vec![5, 6]),
        _ => panic!("wrong variant"),
    }
    let p = ClientPacket::decode(&ClientPacket::KeyExchange([9u8; 32]).encode()).unwrap();
    match p {
        ClientPacket::KeyExchange(k) => assert_eq!(k, [9u8; 32]),
        _ => panic!("wrong variant"),
    }
    let original = Credentials::from_str("täst_user:geheim").unwrap();
    let p = ClientPacket::decode(&ClientPacket::Auth(original.clone()).encode()).unwrap();
    match p {
        ClientPacket::Auth(c) => assert!(c.matches(&original)),
        _ => panic!("wrong variant"),
    }
}

#[test]
fn decode_inverts_encode_for_server_messages() {
    let p = ServerPacket::decode(&ServerPacket::Pong.encode()).unwrap();
    assert!(matches!(p, ServerPacket::Pong));
    let p = ServerPacket::decode(&ServerPacket::AuthOk.encode()).unwrap();
    assert!(matches!(p, ServerPacket::AuthOk));
    let p =
        ServerPacket::decode(&ServerPacket::AuthError("nope".to_string()).encode()).unwrap();
    match p {
        ServerPacket::AuthError(m) => assert_eq!(m, "nope"),
        _ => panic!("wrong variant"),
    }
    let p = ServerPacket::decode(
        &ServerPacket::Disconnect { reason: "Stale connection".to_string() }.encode(),
    )
    .unwrap();
    match p {
        ServerPacket::Disconnect { reason } => assert_eq!(reason, "Stale connection"),
        _ => panic!("wrong variant"),
    }
    let p = ServerPacket::decode(&ServerPacket::KeyExchange([3u8; 32]).encode()).unwrap();
    match p {
        ServerPacket::KeyExchange(k) => assert_eq!(k, [3u8; 32]),
        _ => panic!("wrong variant"),
    }
}

#[test]
fn empty_payloads_survive_the_codec() {
    let bytes = ClientPacket::Data(vec![]).encode();
    assert_eq!(bytes, vec![1, 0, 0, 0, 0, 0, 0, 0, 0, 0, 0, 0]);
    match ClientPacket::decode(&bytes).unwrap() {
        ClientPacket::Data(d) => assert!(d.is_empty()),
        _ => panic!("wrong variant"),
    }
    let bytes = ServerPacket::AuthError(String::new()).encode();
    assert_eq!(bytes, vec![1, 0, 0, 0, 0, 0, 0, 0, 0, 0, 0, 0]);
    match ServerPacket::decode(&bytes).unwrap() {
        ServerPacket::AuthError(m) => assert_eq!(m, ""),
        _ => panic!("wrong variant"),
    }
}

#[test]
fn multi_byte_text_survives_the_codec() {
    let reason = "verbindung beendet — zu lange müßig";
    let bytes = ServerPacket::Disconnect { reason: reason.to_string() }.encode();
    assert_eq!(bytes, bincode::serialize(&(5u32, reason)).unwrap());
    match ServerPacket::decode(&bytes).unwrap() {
        ServerPacket::Disconnect { reason: r } => assert_eq!(r, reason),
        _ => panic!("wrong variant"),
    }
}

#[test]
fn decode_tolerates_trailing_bytes() {
    let mut bytes = ClientPacket::Data(vec![1, 2]).encode();
    bytes.extend_from_slice(&[0xaa, 0xbb]);
    let p = ClientPacket::decode(&bytes).unwrap();
    match p {
        ClientPacket::Data(d) => assert_eq!(d, vec![1, 2]),
        _ => panic!("wrong variant"),
    }
}

#[test]
fn decode_rejects_short_or_unknown_input() {
    assert!(ClientPacket::decode(&[]).is_none());
    assert!(ClientPacket::decode(&[2, 0, 0]).is_none());
    assert!(ClientPacket::decode(&[9, 0, 0, 0]).is_none());
    assert!(ServerPacket::decode(&[7, 0, 0, 0]).is_none());
    // a truncated length-prefixed payload
    assert!(ClientPacket::decode(&[1, 0, 0, 0, 5, 0, 0, 0, 0, 0, 0, 0, 1]).is_none());
    // a truncated key share
    assert!(ClientPacket::decode(&[4, 0, 0, 0, 1, 2, 3]).is_none());
    // a credential whose username is not UTF-8
    let mut auth = vec![0u8, 0, 0, 0, 0, 0, 0, 0];
    auth.extend_from_slice(&1u64.to_le_bytes());
    auth.push(0xff);
    auth.extend_from_slice(&0u64.to_le_bytes());
    assert!(ClientPacket::decode(&auth).is_none());
}
