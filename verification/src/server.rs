//! The server protocol engine: one step per received datagram.
//!
//! The socket layer owns the UDP socket and the clock.  For every datagram
//! it calls [`Server::process_datagram`] with the bytes, the packed source
//! address and the current time, and performs the action handed back:
//! sealing and sending a reply, or forwarding a frame to the TUN device.  A
//! sweeper task calls [`Server::cleanup_inactive_clients`] every half
//! timeout.

use vstd::prelude::*;
use crate::creds::Credentials;
use crate::packet::{bootstrap_key, derive_session_key, envelope_denotes, open_datagram,
    spec_bootstrap_key, xor_bytes, ClientPacket, ClientMsg, Key, PacketError, ServerMsg,
    ServerPacket, fill_random_bytes};
use crate::session::{authenticated_in, refresh_spec, without_first, with_auth, ConnectedClient,
    SessionTable};

verus! {

/// What the engine asks the socket layer to do after a step.
pub enum ServerAction {
    /// Seal `packet` under `key` and send the envelope to `addr`.
    Send { addr: u64, key: Key, packet: ServerPacket },
    /// Hand a tunnelled frame to the TUN device.
    ForwardToTun { payload: Vec<u8> },
}

/// `r` is a request to send `msg` to `addr` sealed under `key`.
pub open spec fn is_send(r: Option<ServerAction>, addr: u64, key: Seq<u8>, msg: ServerMsg) -> bool {
    match r {
        Some(ServerAction::Send { addr: a, key: k, packet }) => a == addr && k@ == key && packet@
            == msg,
        _ => false,
    }
}

/// The server's protocol state: its configuration and the session table.
pub struct Server {
    /// The IPv4 address the socket layer binds, as its four octets.
    pub listen_address: [u8; 4],
    /// The UDP port the socket layer binds.
    pub listen_port: u16,
    /// The most sessions the table may hold through authentication.
    pub max_clients: usize,
    /// The idle budget of a session, in milliseconds.
    pub client_timeout_millis: u64,
    /// The credentials the server accepts.
    pub client_credentials: Vec<Credentials>,
    /// The live sessions, keyed by packed source address.
    pub clients: SessionTable,
}

/// The two states agree on everything but the session table.
pub open spec fn same_config(a: &Server, b: &Server) -> bool {
    &&& a.listen_address == b.listen_address
    &&& a.listen_port == b.listen_port
    &&& a.max_clients == b.max_clients
    &&& a.client_timeout_millis == b.client_timeout_millis
    &&& a.client_credentials@ == b.client_credentials@
}

/// A session exists for `addr` and has completed authentication.
pub open spec fn spec_authenticated(s: &Server, addr: u64) -> bool {
    authenticated_in(s.clients.sessions(), addr)
}

/// The pair is among the accepted credentials.
pub open spec fn cred_accepted(creds: Seq<Credentials>, username: Seq<char>, password: Seq<char>) -> bool {
    exists|i: int|
        0 <= i < creds.len() && (#[trigger] creds[i]).spec_username() == username
            && creds[i].spec_password() == password
}

/// The engine's transition relation: how one decrypted message from
/// `src_addr` moves the state from `pre` to `post` and what action `r` it
/// draws.  The message first refreshes its session's `last_seen`; the rest
/// follows the per-variant handler table.
pub open spec fn server_step(
    pre: &Server,
    post: &Server,
    packet: ClientMsg,
    src_addr: u64,
    now: u64,
    r: Option<ServerAction>,
) -> bool {
    let mid = refresh_spec(pre.clients.sessions(), src_addr, now);
    let order = pre.clients.spec_order();
    &&& same_config(pre, post)
    &&& match packet {
        ClientMsg::Auth { username, password } => {
            let accepted = cred_accepted(pre.client_credentials@, username, password);
            if !mid.contains_key(src_addr) {
                &&& post.clients.sessions() == mid
                &&& post.clients.spec_order() == order
                &&& is_send(
                    r,
                    src_addr,
                    spec_bootstrap_key(),
                    ServerMsg::AuthError("Invalid credentials"@),
                )
            } else if !accepted {
                &&& post.clients.sessions() == mid.remove(src_addr)
                &&& post.clients.spec_order() == without_first(order, src_addr)
                &&& is_send(
                    r,
                    src_addr,
                    mid[src_addr].key@,
                    ServerMsg::AuthError("Invalid credentials"@),
                )
            } else if mid.len() >= pre.max_clients {
                &&& post.clients.sessions() == mid.remove(src_addr)
                &&& post.clients.spec_order() == without_first(order, src_addr)
                &&& is_send(
                    r,
                    src_addr,
                    mid[src_addr].key@,
                    ServerMsg::AuthError("Server is full"@),
                )
            } else {
                &&& post.clients.sessions() == mid.insert(src_addr, with_auth(mid[src_addr]))
                &&& post.clients.spec_order() == order
                &&& is_send(r, src_addr, mid[src_addr].key@, ServerMsg::AuthOk)
            }
        },
        ClientMsg::Data(d) => {
            &&& post.clients.sessions() == mid
            &&& post.clients.spec_order() == order
            &&& if authenticated_in(mid, src_addr) {
                match r {
                    Some(ServerAction::ForwardToTun { payload }) => payload@ == d,
                    _ => false,
                }
            } else if mid.contains_key(src_addr) {
                is_send(
                    r,
                    src_addr,
                    mid[src_addr].key@,
                    ServerMsg::AuthError("Invalid credentials"@),
                )
            } else {
                r is None
            }
        },
        ClientMsg::Ping => {
            &&& post.clients.sessions() == mid
            &&& post.clients.spec_order() == order
            &&& if authenticated_in(mid, src_addr) {
                is_send(r, src_addr, mid[src_addr].key@, ServerMsg::Pong)
            } else if mid.contains_key(src_addr) {
                is_send(
                    r,
                    src_addr,
                    mid[src_addr].key@,
                    ServerMsg::AuthError("Invalid credentials"@),
                )
            } else {
                r is None
            }
        },
        ClientMsg::Disconnect => {
            &&& post.clients.sessions() == mid.remove(src_addr)
            &&& post.clients.spec_order() == without_first(order, src_addr)
            &&& r is None
        },
        ClientMsg::KeyExchange(share_in) => match r {
            Some(ServerAction::Send { addr, key, packet: reply }) => {
                &&& addr == src_addr
                &&& key@ == spec_bootstrap_key()
                &&& match reply@ {
                    ServerMsg::KeyExchange(share_out) => {
                        &&& post.clients.sessions().contains_key(src_addr)
                        &&& ({
                            let c = post.clients.sessions()[src_addr];
                            &&& c.addr == src_addr
                            &&& c.key@ == xor_bytes(share_in, share_out)
                            &&& c.last_seen == now
                            &&& c.timeout_millis == pre.client_timeout_millis
                            &&& !c.authenticated
                        })
                        &&& post.clients.sessions() == mid.insert(
                            src_addr,
                            post.clients.sessions()[src_addr],
                        )
                        &&& post.clients.spec_order() == if mid.contains_key(src_addr) {
                            order
                        } else {
                            order.push(src_addr)
                        }
                    },
                    _ => false,
                }
            },
            _ => false,
        },
    }
}

/// A session's key is set exactly once, at its creation by a key exchange:
/// no other step ever changes the key of a surviving session.
pub proof fn lemma_session_key_never_rotated(
    pre: &Server,
    post: &Server,
    packet: ClientMsg,
    src_addr: u64,
    now: u64,
    r: Option<ServerAction>,
    a: u64,
)
    requires
        server_step(pre, post, packet, src_addr, now, r),
        !(packet is KeyExchange),
        pre.clients.sessions().contains_key(a),
        post.clients.sessions().contains_key(a),
    ensures
        post.clients.sessions()[a].key == pre.clients.sessions()[a].key,
{
}

/// Collects the configuration before the server is built.
pub struct ServerBuilder {
    listen_address: [u8; 4],
    listen_port: u16,
    max_clients: Option<usize>,
    client_timeout_millis: Option<u64>,
    client_credentials: Option<Vec<Credentials>>,
}

impl ServerBuilder {
    /// The listen address chosen at construction.
    pub closed spec fn spec_listen_address(&self) -> [u8; 4] {
        self.listen_address
    }

    /// The listen port chosen at construction.
    pub closed spec fn spec_listen_port(&self) -> u16 {
        self.listen_port
    }

    /// The session limit, if one was chosen.
    pub closed spec fn spec_max_clients(&self) -> Option<usize> {
        self.max_clients
    }

    /// The idle budget, if one was chosen.
    pub closed spec fn spec_client_timeout_millis(&self) -> Option<u64> {
        self.client_timeout_millis
    }

    /// The accepted credentials, if they were chosen.
    pub closed spec fn spec_client_credentials(&self) -> Option<Seq<Credentials>> {
        match self.client_credentials {
            Some(ref v) => Some(v@),
            None => None,
        }
    }

    /// Start from the listen address and port; everything else defaults.
    pub fn new(listen_address: [u8; 4], listen_port: u16) -> (r: Self)
        ensures
            r.spec_listen_address() == listen_address,
            r.spec_listen_port() == listen_port,
            r.spec_max_clients() is None,
            r.spec_client_timeout_millis() is None,
            r.spec_client_credentials() is None,
    {
        ServerBuilder {
            listen_address,
            listen_port,
            max_clients: None,
            client_timeout_millis: None,
            client_credentials: None,
        }
    }

    /// Choose the session limit.
    pub fn with_max_clients(self, max_clients: usize) -> (r: Self)
        ensures
            r.spec_max_clients() == Some(max_clients),
            r.spec_listen_address() == self.spec_listen_address(),
            r.spec_listen_port() == self.spec_listen_port(),
            r.spec_client_timeout_millis() == self.spec_client_timeout_millis(),
            r.spec_client_credentials() == self.spec_client_credentials(),
    {
        ServerBuilder { max_clients: Some(max_clients), ..self }
    }

    /// Choose the idle budget, in milliseconds.
    pub fn with_client_timeout(self, timeout_millis: u64) -> (r: Self)
        ensures
            r.spec_client_timeout_millis() == Some(timeout_millis),
            r.spec_listen_address() == self.spec_listen_address(),
            r.spec_listen_port() == self.spec_listen_port(),
            r.spec_max_clients() == self.spec_max_clients(),
            r.spec_client_credentials() == self.spec_client_credentials(),
    {
        ServerBuilder { client_timeout_millis: Some(timeout_millis), ..self }
    }

    /// Choose the accepted credentials.
    pub fn with_client_credentials(self, credentials: Vec<Credentials>) -> (r: Self)
        ensures
            r.spec_client_credentials() == Some(credentials@),
            r.spec_listen_address() == self.spec_listen_address(),
            r.spec_listen_port() == self.spec_listen_port(),
            r.spec_max_clients() == self.spec_max_clients(),
            r.spec_client_timeout_millis() == self.spec_client_timeout_millis(),
    {
        ServerBuilder { client_credentials: Some(credentials), ..self }
    }

    /// The server in its initial state: an empty session table, with every
    /// unchosen setting at its default (ten clients, thirty seconds, no
    /// accepted credentials).
    pub fn build(self) -> (r: Server)
        ensures
            r.wf(),
            r.listen_address == self.spec_listen_address(),
            r.listen_port == self.spec_listen_port(),
            r.max_clients == match self.spec_max_clients() {
                Some(m) => m,
                None => 10usize,
            },
            r.client_timeout_millis == match self.spec_client_timeout_millis() {
                Some(t) => t,
                None => 30_000u64,
            },
            r.client_credentials@ == match self.spec_client_credentials() {
                Some(c) => c,
                None => Seq::<Credentials>::empty(),
            },
            r.clients.sessions() == Map::<u64, ConnectedClient>::empty(),
            r.clients.spec_order() == Seq::<u64>::empty(),
    {
        let max_clients = match self.max_clients {
            Some(m) => m,
            None => 10,
        };
        let client_timeout_millis = match self.client_timeout_millis {
            Some(t) => t,
            None => 30_000,
        };
        let client_credentials = match self.client_credentials {
            Some(c) => c,
            None => Vec::new(),
        };
        Server {
            listen_address: self.listen_address,
            listen_port: self.listen_port,
            max_clients,
            client_timeout_millis,
            client_credentials,
            clients: SessionTable::new(),
        }
    }
}

impl Server {
    /// The engine's invariant: the session table is well formed.
    pub open spec fn wf(&self) -> bool {
        self.clients.wf()
    }

    /// Start collecting a server's configuration.
    pub fn builder(listen_address: [u8; 4], listen_port: u16) -> (r: ServerBuilder)
        ensures
            r.spec_listen_address() == listen_address,
            r.spec_listen_port() == listen_port,
            r.spec_max_clients() is None,
            r.spec_client_timeout_millis() is None,
            r.spec_client_credentials() is None,
    {
        ServerBuilder::new(listen_address, listen_port)
    }

    /// The key a reply to `src_addr` is sealed under: the session key, or
    /// the bootstrap key when no session exists.
    pub fn get_client_key(&self, src_addr: u64) -> (r: Key)
        ensures
            self.clients.sessions().contains_key(src_addr) ==> r
                == self.clients.sessions()[src_addr].key,
            !self.clients.sessions().contains_key(src_addr) ==> r@ == spec_bootstrap_key(),
    {
        match self.clients.get(src_addr) {
            Some(c) => c.key,
            None => bootstrap_key(),
        }
    }

    /// Whether the pair is among the accepted credentials.
    pub fn credential_accepted(&self, credentials: &Credentials) -> (r: bool)
        ensures
            r == cred_accepted(
                self.client_credentials@,
                credentials.spec_username(),
                credentials.spec_password(),
            ),
    {
        let n = self.client_credentials.len();
        let mut i: usize = 0;
        while i < n
            invariant
                i <= n,
                n == self.client_credentials@.len(),
                forall|j: int|
                    0 <= j < i ==> !((#[trigger] self.client_credentials@[j]).spec_username()
                        == credentials.spec_username()
                        && self.client_credentials@[j].spec_password()
                        == credentials.spec_password()),
            decreases n - i,
        {
            if self.client_credentials[i].matches(credentials) {
                return true;
            }
            i += 1;
        }
        false
    }

    /// The liveness precondition of `Data` and `Ping`: the session exists
    /// and has completed authentication.  On failure, the reply owed: an
    /// `AuthError` under the session key when a session exists, silence
    /// otherwise.
    pub fn assert_auth(&self, src_addr: u64) -> (r: Result<(), Option<ServerAction>>)
        ensures
            match r {
                Ok(()) => spec_authenticated(self, src_addr),
                Err(reply) => !spec_authenticated(self, src_addr) && match reply {
                    Some(_) => self.clients.sessions().contains_key(src_addr) && is_send(
                        reply,
                        src_addr,
                        self.clients.sessions()[src_addr].key@,
                        ServerMsg::AuthError("Invalid credentials"@),
                    ),
                    None => !self.clients.sessions().contains_key(src_addr),
                },
            },
    {
        match self.clients.get(src_addr) {
            None => Err(None),
            Some(c) => {
                if c.authenticated {
                    Ok(())
                } else {
                    Err(
                        Some(
                            ServerAction::Send {
                                addr: src_addr,
                                key: c.key,
                                packet: ServerPacket::AuthError("Invalid credentials".to_owned()),
                            },
                        ),
                    )
                }
            },
        }
    }

    /// Check a credential for `src_addr`'s session.
    ///
    /// An `Auth` from an address with no session is rejected without
    /// creating one.  A wrong credential evicts the provisional session.  A
    /// right credential with the table already at `max_clients` evicts it
    /// too, answering that the server is full.  Otherwise the session is
    /// marked authenticated and the client hears `AuthOk`.  Every reply but
    /// the first goes under the session key the handshake installed.
    pub fn handle_auth(&mut self, credentials: Credentials, src_addr: u64) -> (r: Option<
        ServerAction,
    >)
        requires
            old(self).wf(),
        ensures
            final(self).wf(),
            same_config(old(self), final(self)),
            final(self).clients.sessions().len() <= old(self).clients.sessions().len(),
            ({
                let t = old(self).clients.sessions();
                let accepted = cred_accepted(
                    old(self).client_credentials@,
                    credentials.spec_username(),
                    credentials.spec_password(),
                );
                if !t.contains_key(src_addr) {
                    &&& final(self).clients.sessions() == t
                    &&& final(self).clients.spec_order() == old(self).clients.spec_order()
                    &&& is_send(
                        r,
                        src_addr,
                        spec_bootstrap_key(),
                        ServerMsg::AuthError("Invalid credentials"@),
                    )
                } else if !accepted {
                    &&& final(self).clients.sessions() == t.remove(src_addr)
                    &&& final(self).clients.spec_order() == without_first(
                        old(self).clients.spec_order(),
                        src_addr,
                    )
                    &&& is_send(
                        r,
                        src_addr,
                        t[src_addr].key@,
                        ServerMsg::AuthError("Invalid credentials"@),
                    )
                } else if t.len() >= old(self).max_clients {
                    &&& final(self).clients.sessions() == t.remove(src_addr)
                    &&& final(self).clients.spec_order() == without_first(
                        old(self).clients.spec_order(),
                        src_addr,
                    )
                    &&& is_send(
                        r,
                        src_addr,
                        t[src_addr].key@,
                        ServerMsg::AuthError("Server is full"@),
                    )
                } else {
                    &&& final(self).clients.sessions() == t.insert(
                        src_addr,
                        with_auth(t[src_addr]),
                    )
                    &&& final(self).clients.spec_order() == old(self).clients.spec_order()
                    &&& is_send(r, src_addr, t[src_addr].key@, ServerMsg::AuthOk)
                }
            }),
    {
        match self.clients.get(src_addr) {
            None => Some(
                ServerAction::Send {
                    addr: src_addr,
                    key: bootstrap_key(),
                    packet: ServerPacket::AuthError("Invalid credentials".to_owned()),
                },
            ),
            Some(c) => {
                if !self.credential_accepted(&credentials) {
                    self.clients.remove(src_addr);
                    Some(
                        ServerAction::Send {
                            addr: src_addr,
                            key: c.key,
                            packet: ServerPacket::AuthError("Invalid credentials".to_owned()),
                        },
                    )
                } else if self.clients.len() >= self.max_clients {
                    self.clients.remove(src_addr);
                    Some(
                        ServerAction::Send {
                            addr: src_addr,
                            key: c.key,
                            packet: ServerPacket::AuthError("Server is full".to_owned()),
                        },
                    )
                } else {
                    self.clients.set_authenticated(src_addr);
                    proof {
                        assert(final(self).clients.sessions().dom() =~= old(self).clients.sessions().dom());
                    }
                    Some(
                        ServerAction::Send {
                            addr: src_addr,
                            key: c.key,
                            packet: ServerPacket::AuthOk,
                        },
                    )
                }
            },
        }
    }

    /// Forward one tunnelled frame from an authenticated client to the TUN
    /// device; anyone else hears the authentication error, or silence when
    /// no session exists.
    pub fn handle_data(&self, payload: Vec<u8>, src_addr: u64) -> (r: Option<ServerAction>)
        ensures
            spec_authenticated(self, src_addr) ==> match r {
                Some(ServerAction::ForwardToTun { payload: p }) => p@ == payload@,
                _ => false,
            },
            !spec_authenticated(self, src_addr) && self.clients.sessions().contains_key(src_addr)
                ==> is_send(
                r,
                src_addr,
                self.clients.sessions()[src_addr].key@,
                ServerMsg::AuthError("Invalid credentials"@),
            ),
            !self.clients.sessions().contains_key(src_addr) ==> r is None,
    {
        match self.assert_auth(src_addr) {
            Ok(()) => Some(ServerAction::ForwardToTun { payload }),
            Err(reply) => reply,
        }
    }

    /// Answer an authenticated client's `Ping` with a `Pong`; anyone else
    /// hears the authentication error, or silence when no session exists.
    pub fn handle_ping(&self, src_addr: u64) -> (r: Option<ServerAction>)
        ensures
            spec_authenticated(self, src_addr) ==> is_send(
                r,
                src_addr,
                self.clients.sessions()[src_addr].key@,
                ServerMsg::Pong,
            ),
            !spec_authenticated(self, src_addr) && self.clients.sessions().contains_key(src_addr)
                ==> is_send(
                r,
                src_addr,
                self.clients.sessions()[src_addr].key@,
                ServerMsg::AuthError("Invalid credentials"@),
            ),
            !self.clients.sessions().contains_key(src_addr) ==> r is None,
    {
        match self.assert_auth(src_addr) {
            Ok(()) => {
                let key = self.get_client_key(src_addr);
                Some(ServerAction::Send { addr: src_addr, key, packet: ServerPacket::Pong })
            },
            Err(reply) => reply,
        }
    }

    /// Remove `src_addr`'s session.  A disconnect from an address with no
    /// session changes nothing; no reply is ever sent.
    pub fn handle_disconnect(&mut self, src_addr: u64)
        requires
            old(self).wf(),
        ensures
            final(self).wf(),
            same_config(old(self), final(self)),
            final(self).clients.sessions() == old(self).clients.sessions().remove(src_addr),
            final(self).clients.spec_order() == without_first(
                old(self).clients.spec_order(),
                src_addr,
            ),
    {
        self.clients.remove(src_addr);
    }

    /// Install a session for `src_addr`: draw a fresh random key share,
    /// combine it with the client's share into the session key, and answer
    /// with the server's share under the bootstrap key.  A second exchange
    /// from the same address replaces the session key.
    pub fn handle_key_exchange(&mut self, client_key: Key, src_addr: u64, now: u64) -> (r:
        ServerAction)
        requires
            old(self).wf(),
        ensures
            final(self).wf(),
            same_config(old(self), final(self)),
            final(self).clients.sessions().len() <= old(self).clients.sessions().len() + 1,
            old(self).clients.sessions().contains_key(src_addr) ==> final(self).clients.sessions().len() == old(self).clients.sessions().len(),
            match r {
                ServerAction::Send { addr, key, packet } => {
                    &&& addr == src_addr
                    &&& key@ == spec_bootstrap_key()
                    &&& match packet@ {
                        ServerMsg::KeyExchange(share) => {
                            &&& final(self).clients.sessions().contains_key(src_addr)
                            &&& ({
                                let c = final(self).clients.sessions()[src_addr];
                                &&& c.addr == src_addr
                                &&& c.key@ == xor_bytes(client_key@, share)
                                &&& c.last_seen == now
                                &&& c.timeout_millis == old(self).client_timeout_millis
                                &&& !c.authenticated
                            })
                            &&& final(self).clients.sessions() == old(self).clients.sessions().insert(
                                src_addr,
                                final(self).clients.sessions()[src_addr],
                            )
                            &&& final(self).clients.spec_order() == if old(self).clients.sessions().contains_key(src_addr) {
                                old(self).clients.spec_order()
                            } else {
                                old(self).clients.spec_order().push(src_addr)
                            }
                        },
                        _ => false,
                    }
                },
                _ => false,
            },
    {
        let mut server_key: Key = [0u8; 32];
        fill_random_bytes(&mut server_key);
        let session_key = derive_session_key(&client_key, &server_key);
        let client = ConnectedClient::new(session_key, src_addr, self.client_timeout_millis, now);
        self.clients.insert(client);
        proof {
            if old(self).clients.sessions().contains_key(src_addr) {
                assert(final(self).clients.sessions().dom() =~= old(self).clients.sessions().dom());
            } else {
                assert(final(self).clients.sessions().dom() =~= old(self).clients.sessions().dom().insert(src_addr));
            }
        }
        ServerAction::Send {
            addr: src_addr,
            key: bootstrap_key(),
            packet: ServerPacket::KeyExchange(server_key),
        }
    }

    /// One engine step for a decrypted message.
    ///
    /// Any successfully decrypted message from a live session refreshes its
    /// `last_seen` first; the message is then dispatched to its handler, and
    /// the whole step satisfies [`server_step`].
    /// Capacity: only a key exchange can grow the table, and by at most one
    /// record, so `|sessions| <= max_clients` is preserved by every step but
    /// a key exchange from a fresh address when the table already holds
    /// `max_clients` sessions.
    pub fn handle(&mut self, packet: ClientPacket, src_addr: u64, now: u64) -> (r: Option<
        ServerAction,
    >)
        requires
            old(self).wf(),
        ensures
            final(self).wf(),
            same_config(old(self), final(self)),
            final(self).clients.sessions().len() <= old(self).clients.sessions().len() + 1,
            !(packet@ is KeyExchange) ==> final(self).clients.sessions().len() <= old(self).clients.sessions().len(),
            old(self).clients.sessions().contains_key(src_addr) ==> final(self).clients.sessions().len() <= old(self).clients.sessions().len(),
            old(self).clients.sessions().len() <= old(self).max_clients && !(packet@
                is KeyExchange && !old(self).clients.sessions().contains_key(src_addr) && old(self).clients.sessions().len() == old(self).max_clients) ==> final(self).clients.sessions().len() <= final(self).max_clients,
            server_step(old(self), final(self), packet@, src_addr, now, r),
    {
        self.clients.refresh(src_addr, now);
        proof {
            assert(self.clients.sessions().dom() =~= old(self).clients.sessions().dom());
        }
        match packet {
            ClientPacket::Auth(credentials) => self.handle_auth(credentials, src_addr),
            ClientPacket::Data(payload) => self.handle_data(payload, src_addr),
            ClientPacket::Ping => self.handle_ping(src_addr),
            ClientPacket::Disconnect => {
                self.handle_disconnect(src_addr);
                proof {
                    vstd::set_lib::lemma_len_subset(
                        final(self).clients.sessions().dom(),
                        old(self).clients.sessions().dom(),
                    );
                }
                None
            },
            ClientPacket::KeyExchange(client_key) => Some(
                self.handle_key_exchange(client_key, src_addr, now),
            ),
        }
    }

    /// One engine step for a raw datagram: split the envelope, look up the
    /// session key (the bootstrap key when no session exists), decrypt, and
    /// dispatch.  A datagram that is malformed, fails authentication or does
    /// not decode changes nothing and draws no reply.
    pub fn process_datagram(&mut self, datagram: &[u8], src_addr: u64, now: u64) -> (r: Result<
        Option<ServerAction>,
        PacketError,
    >)
        requires
            old(self).wf(),
        ensures
            final(self).wf(),
            same_config(old(self), final(self)),
            final(self).clients.sessions().len() <= old(self).clients.sessions().len() + 1,
            r matches Err(e) ==> {
                &&& final(self).clients.sessions() == old(self).clients.sessions()
                &&& final(self).clients.spec_order() == old(self).clients.spec_order()
                &&& (e == PacketError::Malformed || e == PacketError::AuthFailed || e
                    == PacketError::DecodeFailed)
            },
            ({
                let k = if old(self).clients.sessions().contains_key(src_addr) {
                    old(self).clients.sessions()[src_addr].key@
                } else {
                    spec_bootstrap_key()
                };
                match r {
                    Ok(act) => exists|m: ClientMsg|
                        envelope_denotes::<ClientPacket>(datagram@, k) == Some(m)
                            && #[trigger] server_step(old(self), final(self), m, src_addr, now, act),
                    Err(_) => envelope_denotes::<ClientPacket>(datagram@, k) is None,
                }
            }),
    {
        let key = self.get_client_key(src_addr);
        let packet = match open_datagram::<ClientPacket>(&key, datagram) {
            Ok(p) => p,
            Err(e) => {
                return Err(e);
            },
        };
        Ok(self.handle(packet, src_addr, now))
    }

    /// The liveness sweeper's step: evict every session that has been idle
    /// beyond its budget, and for each, a best-effort `Disconnect` under the
    /// evicted session's key.
    ///
    /// Exactly the expired sessions are removed: a session survives if and
    /// only if it was live and within its idle budget, and it survives
    /// unchanged.
    pub fn cleanup_inactive_clients(&mut self, now: u64) -> (actions: Vec<ServerAction>)
        requires
            old(self).wf(),
        ensures
            final(self).wf(),
            same_config(old(self), final(self)),
            forall|a: u64| #[trigger]
                final(self).clients.sessions().contains_key(a) <==> (old(self).clients.sessions().contains_key(a) && !old(self).clients.sessions()[a].spec_expired(now)),
            forall|a: u64| #[trigger]
                final(self).clients.sessions().contains_key(a) ==> final(self).clients.sessions()[a] == old(self).clients.sessions()[a],
            forall|idx: int|
                0 <= idx < actions@.len() ==> match #[trigger] actions@[idx] {
                    ServerAction::Send { addr, key, packet } => {
                        &&& old(self).clients.sessions().contains_key(addr)
                        &&& old(self).clients.sessions()[addr].spec_expired(now)
                        &&& key == old(self).clients.sessions()[addr].key
                        &&& packet@ == ServerMsg::Disconnect { reason: "Stale connection"@ }
                    },
                    _ => false,
                },
            forall|a: u64| #[trigger]
                old(self).clients.sessions().contains_key(a) && old(self).clients.sessions()[a].spec_expired(now) ==> exists|idx: int|
                    0 <= idx < actions@.len() && match #[trigger] actions@[idx] {
                        ServerAction::Send { addr, .. } => addr == a,
                        _ => false,
                    },
    {
        let evicted = self.clients.sweep(now);
        let n = evicted.len();
        let mut actions: Vec<ServerAction> = Vec::new();
        let mut i: usize = 0;
        while i < n
            invariant
                old(self).wf(),
                n == evicted@.len(),
                i <= n,
                actions@.len() == i,
                forall|idx: int|
                    0 <= idx < evicted@.len() ==> {
                        let (a, k) = #[trigger] evicted@[idx];
                        &&& old(self).clients.sessions().contains_key(a)
                        &&& old(self).clients.sessions()[a].spec_expired(now)
                        &&& k == old(self).clients.sessions()[a].key
                    },
                forall|idx: int|
                    0 <= idx < i ==> match #[trigger] actions@[idx] {
                        ServerAction::Send { addr, key, packet } => addr == evicted@[idx].0 && key
                            == evicted@[idx].1 && packet@ == (ServerMsg::Disconnect {
                            reason: "Stale connection"@,
                        }),
                        _ => false,
                    },
            decreases n - i,
        {
            let (addr, key) = evicted[i];
            actions.push(
                ServerAction::Send {
                    addr,
                    key,
                    packet: ServerPacket::Disconnect { reason: "Stale connection".to_owned() },
                },
            );
            i += 1;
        }
        proof {
            assert forall|a: u64|
                old(self).clients.sessions().contains_key(a) && old(self).clients.sessions()[a].spec_expired(now) implies exists|idx: int|
                0 <= idx < actions@.len() && match #[trigger] actions@[idx] {
                    ServerAction::Send { addr, .. } => addr == a,
                    _ => false,
                } by {
                let idx = choose|idx: int|
                    0 <= idx < evicted@.len() && (#[trigger] evicted@[idx]).0 == a;
                assert(match actions@[idx] {
                    ServerAction::Send { addr, .. } => addr == a,
                    _ => false,
                });
            }
        }
        actions
    }
}

} // verus!
