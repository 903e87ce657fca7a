//! End-to-end protocol scenarios driven at the engine level: the client and
//! server state machines exchange real sealed datagrams, with the tests
//! standing in for the sockets and the clock.

use vpn_core::client::{Client, ClientError, ClientStep};
use vpn_core::creds::Credentials;
use vpn_core::packet::{seal_datagram, ClientPacket, Key};
use vpn_core::server::{Server, ServerAction};

fn seal_action(action: &ServerAction) -> (u64, Vec<u8>) {
    match action {
        ServerAction::Send { addr, key, packet } => {
            (*addr, seal_datagram(key, packet).unwrap())
        },
        _ => panic!("expected a send"),
    }
}

fn new_server(creds: &str, max_clients: usize, timeout_millis: u64) -> Server {
    Server::builder([127, 0, 0, 1], 8000)
        .with_max_clients(max_clients)
        .with_client_timeout(timeout_millis)
        .with_client_credentials(vec![Credentials::from_str(creds).unwrap()])
        .build()
}

fn new_client(creds: &str) -> Client {
    Client::builder([127, 0, 0, 1], 8000)
        .with_listen_address([127, 0, 0, 1], 0)
        .with_connect_timeout(5_000)
        .with_creds(Credentials::from_str(creds).unwrap())
        .build()
}

fn handshake(
    server: &mut Server,
    client: &mut Client,
    addr: u64,
    now: u64,
) -> Result<(), ClientError> {
    let hello = client.connect_start()?;
    let action = server.process_datagram(&hello, addr, now).unwrap().unwrap();
    let (to, reply) = seal_action(&action);
    assert_eq!(to, addr);
    let auth = client.connect_key_response(&reply)?;
    let action = server.process_datagram(&auth, addr, now).unwrap().unwrap();
    let (to, verdict) = seal_action(&action);
    assert_eq!(to, addr);
    client.connect_auth_response(&verdict)
}

#[test]
fn successful_session() {
    let mut server = new_server("test_user:test_pass", 10, 30_000);
    let mut client = new_client("test_user:test_pass");
    let addr: u64 = 0x7f000001_c000;

    handshake(&mut server, &mut client, addr, 0).unwrap();

    assert_eq!(server.clients.len(), 1);
    let session = server.clients.get(addr).unwrap();
    assert!(session.authenticated);
    assert_eq!(session.addr, addr);
    // both endpoints hold the same session key
    assert_eq!(client.session_key(), server.get_client_key(addr));
}

#[test]
fn bad_credential_fails_the_run_and_leaves_no_session() {
    let mut server = new_server("test_user:correct_pass", 10, 30_000);
    let mut client = new_client("test_user:wrong_pass");
    let addr: u64 = 0x7f000001_c001;

    let err = handshake(&mut server, &mut client, addr, 0).unwrap_err();
    assert!(err.message().contains("Authentication failed"));
    assert_eq!(server.clients.len(), 0);
}

#[test]
fn timeout_eviction_sends_a_disconnect() {
    let mut server = new_server("test_user:test_pass", 10, 1_000);
    let mut client = new_client("test_user:test_pass");
    let addr: u64 = 0x7f000001_c002;

    handshake(&mut server, &mut client, addr, 0).unwrap();
    assert_eq!(server.clients.len(), 1);

    // within the budget nothing happens
    let actions = server.cleanup_inactive_clients(1_000);
    assert_eq!(actions.len(), 0);
    assert_eq!(server.clients.len(), 1);

    // idle beyond the budget: evicted, and told so under the session key
    let session_key = server.get_client_key(addr);
    let actions = server.cleanup_inactive_clients(2_000);
    assert_eq!(actions.len(), 1);
    assert_eq!(server.clients.len(), 0);
    match &actions[0] {
        ServerAction::Send { addr: to, key, packet: _ } => {
            assert_eq!(*to, addr);
            assert_eq!(*key, session_key);
        },
        _ => panic!("expected a send"),
    }
    let (_, bytes) = seal_action(&actions[0]);
    match client.handle_server_datagram(&bytes) {
        ClientStep::Terminate(reason) => assert_eq!(reason, "Stale connection"),
        _ => panic!("expected termination"),
    }
}

#[test]
fn every_ping_draws_a_pong() {
    let mut server = new_server("test_user:test_pass", 10, 30_000);
    let mut client = new_client("test_user:test_pass");
    let addr: u64 = 0x7f000001_c003;
    handshake(&mut server, &mut client, addr, 0).unwrap();

    for tick in 1..=5u64 {
        let ping = client.seal_ping().unwrap();
        let action = server.process_datagram(&ping, addr, tick).unwrap().unwrap();
        let (_, pong) = seal_action(&action);
        assert!(matches!(client.handle_server_datagram(&pong), ClientStep::PongReceived));
    }
    // the pings refreshed the session: it survives a later sweep
    let actions = server.cleanup_inactive_clients(6);
    assert_eq!(actions.len(), 0);
    assert_eq!(server.clients.len(), 1);
}

#[test]
fn stray_datagrams_create_no_session_and_draw_no_reply() {
    let mut server = new_server("test_user:test_pass", 10, 30_000);
    let addr: u64 = 0x7f000001_c004;

    // random bytes: not even an envelope
    assert!(server.process_datagram(&[0xabu8; 20], addr, 0).is_err());
    // a well-formed envelope under the wrong key
    let other_key: Key = [0x55u8; 32];
    let forged = seal_datagram(&other_key, &ClientPacket::Ping).unwrap();
    assert!(server.process_datagram(&forged, addr, 0).is_err());
    assert_eq!(server.clients.len(), 0);
}

#[test]
fn handshake_waits_time_out_with_their_own_errors() {
    let mut client = new_client("test_user:test_pass");
    let _hello = client.connect_start().unwrap();
    let e = client.handshake_timeout_error();
    assert!(matches!(e, ClientError::HandshakeTimeout));
    assert_eq!(e.message(), "Connection handshake timeout");

    // drive into the second wait against a real server
    let mut server = new_server("test_user:test_pass", 10, 30_000);
    let mut client = new_client("test_user:test_pass");
    let addr: u64 = 0x7f000001_c005;
    let hello = client.connect_start().unwrap();
    let action = server.process_datagram(&hello, addr, 0).unwrap().unwrap();
    let (_, reply) = seal_action(&action);
    let _auth = client.connect_key_response(&reply).unwrap();
    let e = client.handshake_timeout_error();
    assert!(matches!(e, ClientError::ConnectionTimeout));
    assert_eq!(e.message(), "Connection timeout");
}

#[test]
fn a_client_without_credentials_cannot_start() {
    let mut client = Client::builder([127, 0, 0, 1], 8000).build();
    let e = client.connect_start().unwrap_err();
    assert!(matches!(e, ClientError::NoCredentials));
    assert_eq!(e.message(), "No credentials provided");
}

#[test]
fn a_wrong_handshake_reply_fails_the_handshake() {
    let bootstrap = [0u8; 32];

    // the right key but the wrong variant
    let mut client = new_client("test_user:test_pass");
    let _hello = client.connect_start().unwrap();
    let stray = seal_datagram(&bootstrap, &vpn_core::packet::ServerPacket::AuthOk).unwrap();
    let e = client.connect_key_response(&stray).unwrap_err();
    assert!(matches!(e, ClientError::HandshakeFailed));
    assert_eq!(e.message(), "Failed to establish secure connection");

    // bytes that are no envelope at all
    let mut client = new_client("test_user:test_pass");
    let _hello = client.connect_start().unwrap();
    let e = client.connect_key_response(&[0xee; 40]).unwrap_err();
    assert!(matches!(e, ClientError::Packet(_)));
}

#[test]
fn a_wrong_verdict_is_unexpected() {
    let mut server = new_server("test_user:test_pass", 10, 30_000);
    let mut client = new_client("test_user:test_pass");
    let addr: u64 = 0x7f000001_c00b;
    let hello = client.connect_start().unwrap();
    let action = server.process_datagram(&hello, addr, 0).unwrap().unwrap();
    let (_, reply) = seal_action(&action);
    let _auth = client.connect_key_response(&reply).unwrap();

    // the session key both sides now hold
    let key = server.get_client_key(addr);
    let stray = seal_datagram(&key, &vpn_core::packet::ServerPacket::Pong).unwrap();
    let e = client.connect_auth_response(&stray).unwrap_err();
    assert!(matches!(e, ClientError::UnexpectedResponse));
    assert_eq!(e.message(), "Unexpected response from server");
}

#[test]
fn only_a_rejected_credential_reports_an_authentication_failure() {
    assert!(ClientError::AuthenticationFailed("Invalid credentials".to_string())
        .message()
        .contains("Authentication failed"));
    for e in [
        ClientError::NoCredentials,
        ClientError::HandshakeFailed,
        ClientError::HandshakeTimeout,
        ClientError::ConnectionTimeout,
        ClientError::UnexpectedResponse,
    ] {
        assert!(!e.message().contains("Authentication failed"));
    }
}

#[test]
fn at_most_one_session_per_address() {
    let mut server = new_server("test_user:test_pass", 10, 30_000);
    let addr: u64 = 0x7f000001_c006;

    let mut client = new_client("test_user:test_pass");
    let hello = client.connect_start().unwrap();
    server.process_datagram(&hello, addr, 0).unwrap().unwrap();
    assert_eq!(server.clients.len(), 1);
    let first_key = server.get_client_key(addr);

    // a second key exchange from the same address — sealed under the session
    // key the first one installed — replaces the session, never adds one
    let again = seal_datagram(&first_key, &ClientPacket::KeyExchange([0x11u8; 32])).unwrap();
    server.process_datagram(&again, addr, 1).unwrap().unwrap();
    assert_eq!(server.clients.len(), 1);
    assert_ne!(server.get_client_key(addr), first_key);
}

#[test]
fn a_full_table_turns_authentication_away() {
    let mut server = new_server("test_user:test_pass", 2, 30_000);
    let mut first = new_client("test_user:test_pass");
    handshake(&mut server, &mut first, 1, 0).unwrap();
    assert_eq!(server.clients.len(), 1);

    let mut second = new_client("test_user:test_pass");
    let err = handshake(&mut server, &mut second, 2, 0).unwrap_err();
    assert!(err.message().contains("Authentication failed: Server is full"));
    // the provisional session was evicted; capacity holds again
    assert_eq!(server.clients.len(), 1);
    assert!(server.clients.get(1).is_some());
    assert!(server.clients.get(2).is_none());
}

#[test]
fn unauthenticated_traffic_is_turned_away() {
    let mut server = new_server("test_user:test_pass", 10, 30_000);
    let mut client = new_client("test_user:test_pass");
    let addr: u64 = 0x7f000001_c007;
    // key exchange only: the session exists but never authenticated
    let hello = client.connect_start().unwrap();
    let action = server.process_datagram(&hello, addr, 0).unwrap().unwrap();
    let (_, _reply) = seal_action(&action);
    let session_key = server.get_client_key(addr);

    let data = seal_datagram(&session_key, &ClientPacket::Data(vec![1, 2, 3])).unwrap();
    let action = server.process_datagram(&data, addr, 1).unwrap().unwrap();
    match action {
        ServerAction::Send { addr: to, key, packet } => {
            assert_eq!(to, addr);
            assert_eq!(key, session_key);
            let bytes = vpn_core::packet::Wire::encode(&packet);
            assert_eq!(&bytes[..4], &[1, 0, 0, 0]);
        },
        _ => panic!("expected an authentication error"),
    }
    assert_eq!(server.clients.len(), 1);
}

#[test]
fn disconnect_is_idempotent() {
    let mut server = new_server("test_user:test_pass", 10, 30_000);
    let mut client = new_client("test_user:test_pass");
    let addr: u64 = 0x7f000001_c008;
    handshake(&mut server, &mut client, addr, 0).unwrap();
    let session_key = server.get_client_key(addr);

    let bye = seal_datagram(&session_key, &ClientPacket::Disconnect).unwrap();
    let r = server.process_datagram(&bye, addr, 1).unwrap();
    assert!(r.is_none());
    assert_eq!(server.clients.len(), 0);

    // a second disconnect through the handler changes nothing
    server.handle(ClientPacket::Disconnect, addr, 2);
    assert_eq!(server.clients.len(), 0);
    // and on the wire it cannot even decrypt any more: the key is gone
    let bye_again = seal_datagram(&session_key, &ClientPacket::Disconnect).unwrap();
    assert!(server.process_datagram(&bye_again, addr, 3).is_err());
    assert_eq!(server.clients.len(), 0);
}

#[test]
fn tunnelled_frames_flow_both_ways() {
    let mut server = new_server("test_user:test_pass", 10, 30_000);
    let mut client = new_client("test_user:test_pass");
    let addr: u64 = 0x7f000001_c009;
    handshake(&mut server, &mut client, addr, 0).unwrap();

    // client to server: the frame reaches the TUN side
    let frame = vec![0x45, 0x00, 0x00, 0x54];
    let data = client.seal_data(&frame).unwrap();
    let action = server.process_datagram(&data, addr, 1).unwrap().unwrap();
    match action {
        ServerAction::ForwardToTun { payload } => assert_eq!(payload, frame),
        _ => panic!("expected a forward"),
    }

    // server to client: a sealed frame is written to the TUN
    let key = server.get_client_key(addr);
    let down = seal_datagram(
        &key,
        &vpn_core::packet::ServerPacket::Data(vec![9, 9, 9]),
    )
    .unwrap();
    match client.handle_server_datagram(&down) {
        ClientStep::WriteTun(p) => assert_eq!(p, vec![9, 9, 9]),
        _ => panic!("expected a TUN write"),
    }
}

#[test]
fn the_supervisor_classifies_every_reply() {
    let mut server = new_server("test_user:test_pass", 10, 30_000);
    let mut client = new_client("test_user:test_pass");
    let addr: u64 = 0x7f000001_c00a;
    handshake(&mut server, &mut client, addr, 0).unwrap();
    let key = server.get_client_key(addr);

    let fault = seal_datagram(&key, &vpn_core::packet::ServerPacket::Error("boom".to_string()))
        .unwrap();
    match client.handle_server_datagram(&fault) {
        ClientStep::LogError(m) => assert_eq!(m, "boom"),
        _ => panic!("expected a surfaced fault"),
    }

    // a handshake variant after the handshake is unexpected
    let stray = seal_datagram(&key, &vpn_core::packet::ServerPacket::AuthOk).unwrap();
    assert!(matches!(client.handle_server_datagram(&stray), ClientStep::UnexpectedPacket));

    // bytes under the wrong key are dropped in silence
    let junk = seal_datagram(&[0x77u8; 32], &vpn_core::packet::ServerPacket::Pong).unwrap();
    assert!(matches!(client.handle_server_datagram(&junk), ClientStep::Ignore));
}

#[test]
fn builders_fill_in_the_documented_defaults() {
    let server = Server::builder([0, 0, 0, 0], 51820).build();
    assert_eq!(server.max_clients, 10);
    assert_eq!(server.client_timeout_millis, 30_000);
    assert_eq!(server.client_credentials.len(), 0);
    assert_eq!(server.clients.len(), 0);

    let client = Client::builder([127, 0, 0, 1], 8000).build();
    assert_eq!(client.connect_timeout_millis(), 10_000);
    assert_eq!(client.server_address(), [127, 0, 0, 1]);
    assert_eq!(client.server_port(), 8000);
    assert_eq!(vpn_core::client::ping_interval_millis(), 5_000);
}
