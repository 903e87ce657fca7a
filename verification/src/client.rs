//! The client protocol engine: the handshake state machine and the
//! classification of everything the server sends afterwards.
//!
//! The socket layer owns the UDP socket, the TUN device and the timers.  It
//! drives the handshake with [`Client::connect_start`],
//! [`Client::connect_key_response`] and [`Client::connect_auth_response`],
//! handing each function the raw datagram and sending the bytes it returns;
//! a wait that expires is turned into the right error by
//! [`Client::handshake_timeout_error`].  Once established, TUN frames are
//! sealed with [`Client::seal_data`], the heartbeat with
//! [`Client::seal_ping`], and every received datagram is classified by
//! [`Client::handle_server_datagram`].

use vstd::prelude::*;
use vstd::string::StringExecFns;
use crate::creds::Credentials;
use crate::packet::{bootstrap_key, client_wire, derive_session_key, envelope_denotes,
    is_envelope_of, open_datagram, seal_datagram, spec_bootstrap_key, xor_bytes, ClientMsg,
    ClientPacket, Key, PacketError, ServerMsg, ServerPacket, MAX_PLAINTEXT};

verus! {

/// Where the client stands in the two-message handshake.
pub enum HandshakeState {
    /// Nothing sent yet.
    Idle,
    /// Our key share is out; the server's share is awaited.
    AwaitingKeyExchange { local_share: Key },
    /// The credential is out under the session key; the verdict is awaited.
    AwaitingAuthOk { session_key: Key },
    /// The handshake is complete.
    Established { session_key: Key },
}

/// Why the client's run ended or could not start.
#[derive(Debug)]
pub enum ClientError {
    /// No credential was configured.
    NoCredentials,
    /// The handshake reply was not a key exchange.
    HandshakeFailed,
    /// No key exchange arrived within the connect timeout.
    HandshakeTimeout,
    /// No verdict arrived within the connect timeout.
    ConnectionTimeout,
    /// The server rejected the credential, with its reason.
    AuthenticationFailed(String),
    /// The verdict was neither `AuthOk` nor `AuthError`.
    UnexpectedResponse,
    /// An envelope could not be built or opened.
    Packet(PacketError),
}

impl ClientError {
    /// The human-readable description of the error.  It contains the words
    /// "Authentication failed" exactly when the server rejected the
    /// credential.
    pub open spec fn spec_message(&self) -> Seq<char> {
        match self {
            ClientError::NoCredentials => "No credentials provided"@,
            ClientError::HandshakeFailed => "Failed to establish secure connection"@,
            ClientError::HandshakeTimeout => "Connection handshake timeout"@,
            ClientError::ConnectionTimeout => "Connection timeout"@,
            ClientError::AuthenticationFailed(reason) => "Authentication failed: "@ + reason@,
            ClientError::UnexpectedResponse => "Unexpected response from server"@,
            ClientError::Packet(e) => e.spec_message(),
        }
    }

    /// The human-readable description of the error.
    pub fn message(&self) -> (r: String)
        ensures
            r@ == self.spec_message(),
    {
        match self {
            ClientError::NoCredentials => "No credentials provided".to_owned(),
            ClientError::HandshakeFailed => "Failed to establish secure connection".to_owned(),
            ClientError::HandshakeTimeout => "Connection handshake timeout".to_owned(),
            ClientError::ConnectionTimeout => "Connection timeout".to_owned(),
            ClientError::AuthenticationFailed(reason) => {
                let mut s = "Authentication failed: ".to_owned();
                s.append(reason.as_str());
                s
            },
            ClientError::UnexpectedResponse => "Unexpected response from server".to_owned(),
            ClientError::Packet(e) => e.message().to_owned(),
        }
    }
}

/// What the supervisor should do with one datagram received after the
/// handshake.
pub enum ClientStep {
    /// Write this frame to the TUN device.
    WriteTun(Vec<u8>),
    /// Surface a fault the server reported.
    LogError(String),
    /// A `Pong` arrived: record the measured latency.
    PongReceived,
    /// The server ended the session; terminate normally.
    Terminate(String),
    /// A variant that has no business arriving after the handshake.
    UnexpectedPacket,
    /// The datagram did not decrypt or decode; drop it.
    Ignore,
}

/// Collects the configuration before the client is built.
pub struct ClientBuilder {
    /// The server's IPv4 address, as its four octets.
    pub server_address: [u8; 4],
    /// The server's UDP port.
    pub server_port: u16,
    /// The local IPv4 address the socket layer binds.
    pub listen_address: [u8; 4],
    /// The local UDP port the socket layer binds.
    pub listen_port: u16,
    /// How long each handshake wait may take, in milliseconds.
    pub connect_timeout_millis: Option<u64>,
    /// The credential presented during the handshake.
    pub credentials: Option<Credentials>,
    /// The TUN parameters the socket layer should apply.
    pub tun_config: Option<crate::config::client::TunConfig>,
}

/// The client's protocol state.
pub struct Client {
    server_address: [u8; 4],
    server_port: u16,
    connect_timeout_millis: u64,
    credentials: Option<Credentials>,
    state: HandshakeState,
}

impl ClientBuilder {
    /// Start from the server's address and port; everything else defaults.
    pub fn new(server_address: [u8; 4], server_port: u16) -> (r: Self)
        ensures
            r.server_address == server_address,
            r.server_port == server_port,
            r.listen_address == [0u8, 0u8, 0u8, 0u8],
            r.listen_port == 6969u16,
            r.connect_timeout_millis is None,
            r.credentials is None,
            r.tun_config is None,
    {
        ClientBuilder {
            server_address,
            server_port,
            listen_address: [0, 0, 0, 0],
            listen_port: 6969,
            connect_timeout_millis: None,
            credentials: None,
            tun_config: None,
        }
    }

    /// Choose the local address and port to bind.
    pub fn with_listen_address(self, listen_address: [u8; 4], listen_port: u16) -> (r: Self)
        ensures
            r == (ClientBuilder { listen_address, listen_port, ..self }),
    {
        ClientBuilder { listen_address, listen_port, ..self }
    }

    /// Choose the credential to present.
    pub fn with_creds(self, credentials: Credentials) -> (r: Self)
        ensures
            r == (ClientBuilder { credentials: Some(credentials), ..self }),
    {
        ClientBuilder { credentials: Some(credentials), ..self }
    }

    /// Choose the handshake wait budget, in milliseconds.
    pub fn with_connect_timeout(self, connect_timeout_millis: u64) -> (r: Self)
        ensures
            r == (ClientBuilder { connect_timeout_millis: Some(connect_timeout_millis), ..self }),
    {
        ClientBuilder { connect_timeout_millis: Some(connect_timeout_millis), ..self }
    }

    /// Choose the TUN parameters.
    pub fn with_tun_config(self, tun_config: crate::config::client::TunConfig) -> (r: Self)
        ensures
            r == (ClientBuilder { tun_config: Some(tun_config), ..self }),
    {
        ClientBuilder { tun_config: Some(tun_config), ..self }
    }

    /// The client in its initial state, with the handshake not yet begun and
    /// every unchosen setting at its default (ten seconds to connect).
    pub fn build(self) -> (r: Client)
        ensures
            r.spec_server_address() == self.server_address,
            r.spec_server_port() == self.server_port,
            r.spec_connect_timeout_millis() == match self.connect_timeout_millis {
                Some(t) => t,
                None => 10_000u64,
            },
            r.spec_credentials() == self.credentials,
            r.spec_state() is Idle,
    {
        let connect_timeout_millis = match self.connect_timeout_millis {
            Some(t) => t,
            None => 10_000,
        };
        Client {
            server_address: self.server_address,
            server_port: self.server_port,
            connect_timeout_millis,
            credentials: self.credentials,
            state: HandshakeState::Idle,
        }
    }
}

/// The heartbeat period: an established client sends a `Ping` this often.
pub fn ping_interval_millis() -> (r: u64)
    ensures
        r == 5000,
{
    5000
}

/// The two states agree on everything but the handshake state.
pub open spec fn same_client_config(a: &Client, b: &Client) -> bool {
    &&& a.spec_server_address() == b.spec_server_address()
    &&& a.spec_server_port() == b.spec_server_port()
    &&& a.spec_connect_timeout_millis() == b.spec_connect_timeout_millis()
    &&& a.spec_credentials() == b.spec_credentials()
}

impl Client {
    /// Where the client stands in the handshake.
    pub closed spec fn spec_state(&self) -> HandshakeState {
        self.state
    }

    /// The configured credential, if any.
    pub closed spec fn spec_credentials(&self) -> Option<Credentials> {
        self.credentials
    }

    /// The server's IPv4 address, as its four octets.
    pub closed spec fn spec_server_address(&self) -> [u8; 4] {
        self.server_address
    }

    /// The server's UDP port.
    pub closed spec fn spec_server_port(&self) -> u16 {
        self.server_port
    }

    /// How long each handshake wait may take, in milliseconds.
    pub closed spec fn spec_connect_timeout_millis(&self) -> u64 {
        self.connect_timeout_millis
    }

    /// The server's IPv4 address, as its four octets.
    pub fn server_address(&self) -> (r: [u8; 4])
        ensures
            r == self.spec_server_address(),
    {
        self.server_address
    }

    /// The server's UDP port.
    pub fn server_port(&self) -> (r: u16)
        ensures
            r == self.spec_server_port(),
    {
        self.server_port
    }

    /// How long each handshake wait may take, in milliseconds.
    pub fn connect_timeout_millis(&self) -> (r: u64)
        ensures
            r == self.spec_connect_timeout_millis(),
    {
        self.connect_timeout_millis
    }

    /// Start collecting a client's configuration.
    pub fn builder(server_address: [u8; 4], server_port: u16) -> (r: ClientBuilder)
        ensures
            r.server_address == server_address,
            r.server_port == server_port,
            r.listen_address == [0u8, 0u8, 0u8, 0u8],
            r.listen_port == 6969u16,
            r.connect_timeout_millis is None,
            r.credentials is None,
            r.tun_config is None,
    {
        ClientBuilder::new(server_address, server_port)
    }

    /// The session key, once the handshake is complete.
    pub fn session_key(&self) -> (r: Key)
        requires
            self.spec_state() is Established,
        ensures
            self.spec_state() matches HandshakeState::Established { session_key } && r
                == session_key,
    {
        match &self.state {
            HandshakeState::Established { session_key } => *session_key,
            _ => bootstrap_key(),
        }
    }

    /// Begin the handshake: draw a fresh random key share and seal it for
    /// the server under the bootstrap key.  Without a credential nothing is
    /// sent and the run fails at once.
    pub fn connect_start(&mut self) -> (r: Result<Vec<u8>, ClientError>)
        requires
            old(self).spec_state() is Idle,
        ensures
            same_client_config(old(self), final(self)),
            old(self).spec_credentials() is None ==> (r matches Err(e) && e
                == ClientError::NoCredentials && final(self).spec_state() is Idle),
            old(self).spec_credentials() is Some ==> match r {
                Ok(bytes) => final(self).spec_state() matches HandshakeState::AwaitingKeyExchange {
                    local_share,
                } && is_envelope_of(
                    bytes@,
                    spec_bootstrap_key(),
                    client_wire(ClientMsg::KeyExchange(local_share@)),
                ) && envelope_denotes::<ClientPacket>(bytes@, spec_bootstrap_key()) == Some(
                    ClientMsg::KeyExchange(local_share@),
                ),
                Err(_) => false,
            },
    {
        if self.credentials.is_none() {
            return Err(ClientError::NoCredentials);
        }
        let mut local_share: Key = [0u8; 32];
        crate::packet::fill_random_bytes(&mut local_share);
        let packet = ClientPacket::KeyExchange(local_share);
        assert(client_wire(packet@).len() == 36);
        match seal_datagram(&bootstrap_key(), &packet) {
            Ok(bytes) => {
                self.state = HandshakeState::AwaitingKeyExchange { local_share };
                Ok(bytes)
            },
            Err(e) => Err(ClientError::Packet(e)),
        }
    }

    /// Continue the handshake with the server's reply to the key exchange.
    ///
    /// A key exchange under the bootstrap key yields the session key — the
    /// two shares combined — and the credential goes out sealed under it;
    /// this step succeeds whenever the reply is a key exchange (unless the
    /// serialized credential exceeds the cipher's bound).  A reply of any
    /// other variant fails the handshake; a datagram that does not open
    /// propagates its fault.
    pub fn connect_key_response(&mut self, datagram: &[u8]) -> (r: Result<Vec<u8>, ClientError>)
        requires
            old(self).spec_state() is AwaitingKeyExchange,
            old(self).spec_credentials() is Some,
        ensures
            same_client_config(old(self), final(self)),
            r is Err ==> final(self).spec_state() == old(self).spec_state(),
            match old(self).spec_state() {
                HandshakeState::AwaitingKeyExchange { local_share } => {
                    let denoted = envelope_denotes::<ServerPacket>(
                        datagram@,
                        spec_bootstrap_key(),
                    );
                    match r {
                        Ok(bytes) => {
                            &&& denoted matches Some(ServerMsg::KeyExchange(share))
                                && final(self).spec_state()
                                matches HandshakeState::AwaitingAuthOk { session_key }
                                && session_key@ == xor_bytes(local_share@, share)
                                && match old(self).spec_credentials() {
                                Some(c) => {
                                    let auth = ClientMsg::Auth {
                                        username: c.spec_username(),
                                        password: c.spec_password(),
                                    };
                                    is_envelope_of(bytes@, session_key@, client_wire(auth))
                                        && envelope_denotes::<ClientPacket>(bytes@, session_key@)
                                        == Some(auth)
                                },
                                None => false,
                            }
                        },
                        Err(e) => match denoted {
                            Some(ServerMsg::KeyExchange(_)) => e matches ClientError::Packet(pe)
                                && pe == PacketError::EncryptFailed && match old(
                                self,
                            ).spec_credentials() {
                                Some(c) => client_wire(
                                    ClientMsg::Auth {
                                        username: c.spec_username(),
                                        password: c.spec_password(),
                                    },
                                ).len() >= MAX_PLAINTEXT,
                                None => false,
                            },
                            Some(_) => e == ClientError::HandshakeFailed,
                            None => e matches ClientError::Packet(pe) && (pe
                                == PacketError::Malformed || pe == PacketError::AuthFailed || pe
                                == PacketError::DecodeFailed),
                        },
                    }
                },
                _ => true,
            },
    {
        let local_share = match &self.state {
            HandshakeState::AwaitingKeyExchange { local_share } => *local_share,
            _ => {
                return Err(ClientError::HandshakeFailed);
            },
        };
        match open_datagram::<ServerPacket>(&bootstrap_key(), datagram) {
            Err(e) => Err(ClientError::Packet(e)),
            Ok(packet) => match packet {
                ServerPacket::KeyExchange(server_share) => {
                    let session_key = derive_session_key(&local_share, &server_share);
                    let creds = match &self.credentials {
                        Some(c) => c.clone(),
                        None => {
                            return Err(ClientError::NoCredentials);
                        },
                    };
                    match seal_datagram(&session_key, &ClientPacket::Auth(creds)) {
                        Ok(bytes) => {
                            self.state = HandshakeState::AwaitingAuthOk { session_key };
                            Ok(bytes)
                        },
                        Err(e) => Err(ClientError::Packet(e)),
                    }
                },
                _ => Err(ClientError::HandshakeFailed),
            },
        }
    }

    /// Finish the handshake with the server's verdict on the credential.
    ///
    /// `AuthOk` establishes the session.  `AuthError` fails the run with an
    /// error whose text carries the server's reason — this is the one and
    /// only path that reports an authentication failure.  Any other variant
    /// is unexpected; a datagram that does not open propagates its fault.
    pub fn connect_auth_response(&mut self, datagram: &[u8]) -> (r: Result<(), ClientError>)
        requires
            old(self).spec_state() is AwaitingAuthOk,
        ensures
            same_client_config(old(self), final(self)),
            r is Err ==> final(self).spec_state() == old(self).spec_state(),
            match old(self).spec_state() {
                HandshakeState::AwaitingAuthOk { session_key } => {
                    let denoted = envelope_denotes::<ServerPacket>(datagram@, session_key@);
                    match r {
                        Ok(()) => denoted == Some(ServerMsg::AuthOk) && final(self).spec_state()
                            == (HandshakeState::Established { session_key }),
                        Err(e) => match denoted {
                            Some(ServerMsg::AuthOk) => false,
                            Some(ServerMsg::AuthError(reason)) => e
                                matches ClientError::AuthenticationFailed(m) && m@ == reason,
                            Some(_) => e == ClientError::UnexpectedResponse,
                            None => e matches ClientError::Packet(pe) && (pe
                                == PacketError::Malformed || pe == PacketError::AuthFailed || pe
                                == PacketError::DecodeFailed),
                        },
                    }
                },
                _ => true,
            },
    {
        let session_key = match &self.state {
            HandshakeState::AwaitingAuthOk { session_key } => *session_key,
            _ => {
                return Err(ClientError::UnexpectedResponse);
            },
        };
        match open_datagram::<ServerPacket>(&session_key, datagram) {
            Err(e) => Err(ClientError::Packet(e)),
            Ok(packet) => match packet {
                ServerPacket::AuthOk => {
                    self.state = HandshakeState::Established { session_key };
                    Ok(())
                },
                ServerPacket::AuthError(reason) => Err(
                    ClientError::AuthenticationFailed(reason),
                ),
                _ => Err(ClientError::UnexpectedResponse),
            },
        }
    }

    /// The verdict when a handshake wait expires: each of the two waits has
    /// its own timeout error.
    pub fn handshake_timeout_error(&self) -> (r: ClientError)
        requires
            self.spec_state() is AwaitingKeyExchange || self.spec_state() is AwaitingAuthOk,
        ensures
            self.spec_state() is AwaitingKeyExchange ==> r == ClientError::HandshakeTimeout,
            self.spec_state() is AwaitingAuthOk ==> r == ClientError::ConnectionTimeout,
    {
        match &self.state {
            HandshakeState::AwaitingKeyExchange { .. } => ClientError::HandshakeTimeout,
            _ => ClientError::ConnectionTimeout,
        }
    }

    /// Wrap one TUN frame as `Data` and seal it under the session key.
    pub fn seal_data(&self, frame: &[u8]) -> (r: Result<Vec<u8>, ClientError>)
        requires
            self.spec_state() is Established,
        ensures
            match self.spec_state() {
                HandshakeState::Established { session_key } => {
                    &&& (r matches Ok(bytes) ==> is_envelope_of(
                        bytes@,
                        session_key@,
                        client_wire(ClientMsg::Data(frame@)),
                    ) && envelope_denotes::<ClientPacket>(bytes@, session_key@) == Some(
                        ClientMsg::Data(frame@),
                    ))
                    &&& (frame@.len() + 12 < MAX_PLAINTEXT ==> r is Ok)
                },
                _ => true,
            },
    {
        let session_key = self.session_key();
        let payload = vstd::slice::slice_to_vec(frame);
        match seal_datagram(&session_key, &ClientPacket::Data(payload)) {
            Ok(bytes) => Ok(bytes),
            Err(e) => Err(ClientError::Packet(e)),
        }
    }

    /// Seal one `Ping` under the session key.
    pub fn seal_ping(&self) -> (r: Result<Vec<u8>, ClientError>)
        requires
            self.spec_state() is Established,
        ensures
            match self.spec_state() {
                HandshakeState::Established { session_key } => match r {
                    Ok(bytes) => is_envelope_of(bytes@, session_key@, client_wire(ClientMsg::Ping))
                        && envelope_denotes::<ClientPacket>(bytes@, session_key@) == Some(
                        ClientMsg::Ping,
                    ),
                    Err(_) => false,
                },
                _ => true,
            },
    {
        let session_key = self.session_key();
        assert(client_wire(ClientMsg::Ping).len() == 4);
        match seal_datagram(&session_key, &ClientPacket::Ping) {
            Ok(bytes) => Ok(bytes),
            Err(e) => Err(ClientError::Packet(e)),
        }
    }

    /// Classify one datagram received after the handshake: tunnelled data
    /// goes to the TUN device, a `Pong` marks the heartbeat, a `Disconnect`
    /// ends the run, a fault is surfaced, and anything that does not open
    /// is dropped in silence.
    pub fn handle_server_datagram(&self, datagram: &[u8]) -> (r: ClientStep)
        requires
            self.spec_state() is Established,
        ensures
            match self.spec_state() {
                HandshakeState::Established { session_key } => match envelope_denotes::<
                    ServerPacket,
                >(datagram@, session_key@) {
                    Some(ServerMsg::Data(d)) => r matches ClientStep::WriteTun(p) && p@ == d,
                    Some(ServerMsg::Error(m)) => r matches ClientStep::LogError(s) && s@ == m,
                    Some(ServerMsg::Pong) => r == ClientStep::PongReceived,
                    Some(ServerMsg::Disconnect { reason }) => r matches ClientStep::Terminate(s)
                        && s@ == reason,
                    Some(_) => r == ClientStep::UnexpectedPacket,
                    None => r == ClientStep::Ignore,
                },
                _ => true,
            },
    {
        let session_key = self.session_key();
        match open_datagram::<ServerPacket>(&session_key, datagram) {
            Err(_) => ClientStep::Ignore,
            Ok(packet) => match packet {
                ServerPacket::Data(d) => ClientStep::WriteTun(d),
                ServerPacket::Error(m) => ClientStep::LogError(m),
                ServerPacket::Pong => ClientStep::PongReceived,
                ServerPacket::Disconnect { reason } => ClientStep::Terminate(reason),
                _ => ClientStep::UnexpectedPacket,
            },
        }
    }
}

} // verus!
