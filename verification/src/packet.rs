//! Typed client/server messages, their compact binary codec, and the AEAD
//! envelope that wraps every datagram on the wire.
//!
//! The binary form of a message is a tagged union: a little-endian `u32`
//! variant tag in declaration order starting at zero, then the fields in
//! order.  A byte string is a little-endian `u64` length followed by the
//! bytes; a text string is the same over its UTF-8 encoding; a key is its 32
//! raw bytes.  A decoder tolerates trailing bytes after a complete message.
//!
//! The envelope is `nonce(12) ‖ ciphertext(N) ‖ tag(16)`: ChaCha20-Poly1305
//! with a fresh random 96-bit nonce and no associated data.

use vstd::prelude::*;
use vstd::slice::{slice_subrange, slice_to_vec};
use vstd::utf8::{decode_utf8, decode_utf8_encode_utf8, encode_utf8, encode_utf8_decode_utf8,
    encode_utf8_valid_utf8, valid_utf8};
use chacha20poly1305::KeyInit;
use chacha20poly1305::aead::Aead;
use crate::creds::{Credentials, Password};
use crate::wire::{dec_u32, dec_u64, enc_u32, enc_u64, lemma_u32_round_trip, lemma_u64_round_trip,
    push_u32, push_u64, read_u32, read_u64};

verus! {

/// Bytes in a nonce.
pub const NONCE_SIZE: usize = 12;

/// Bytes in a key.
pub const KEY_SIZE: usize = 32;

/// Bytes in an authentication tag.
pub const TAG_SIZE: usize = 16;

/// A 256-bit AEAD key.  The all-zero value is the bootstrap key, used only
/// to frame the two handshake messages.
pub type Key = [u8; 32];

/// Any wire length must be denotable as a `u64`.
pub const MAX_WIRE_LEN: u64 = 0xffff_ffff_ffff_ffff;

/// The all-zero bootstrap key.
pub open spec fn spec_bootstrap_key() -> Seq<u8> {
    Seq::new(32, |i: int| 0u8)
}

/// The all-zero bootstrap key, used only to frame the two handshake messages.
/// It is public by definition: it provides integrity framing, not secrecy.
pub fn bootstrap_key() -> (r: Key)
    ensures
        r@ == spec_bootstrap_key(),
{
    let k: Key = [0u8; 32];
    assert(k@ =~= spec_bootstrap_key());
    k
}

/// Bytewise exclusive-or of two equal-length byte sequences.
pub open spec fn xor_bytes(a: Seq<u8>, b: Seq<u8>) -> Seq<u8>
    recommends
        a.len() == b.len(),
{
    Seq::new(a.len(), |i: int| a[i] ^ b[i])
}

/// Combine the two random key shares into the session key.
pub fn derive_session_key(a: &Key, b: &Key) -> (r: Key)
    ensures
        r@ == xor_bytes(a@, b@),
{
    let mut k: Key = [0u8; 32];
    let mut i: usize = 0;
    while i < 32
        invariant
            i <= 32,
            forall|j: int| 0 <= j < i ==> k@[j] == (a@[j] ^ b@[j]),
        decreases 32 - i,
    {
        k[i] = a[i] ^ b[i];
        i += 1;
    }
    assert(k@ =~= xor_bytes(a@, b@));
    k
}

/// Session symmetry: after a handshake with client share `c` and server
/// share `s`, both endpoints derive the same session key, whichever side
/// combines the shares — exclusive-or is commutative.
pub proof fn lemma_session_key_symmetry(c: Seq<u8>, s: Seq<u8>)
    requires
        c.len() == s.len(),
    ensures
        xor_bytes(c, s) == xor_bytes(s, c),
{
    assert(forall|x: u8, y: u8| #[trigger] (x ^ y) == (y ^ x)) by (bit_vector);
    assert(xor_bytes(c, s) =~= xor_bytes(s, c));
}

/// What a client sends to the server.
#[derive(Debug)]
pub enum ClientPacket {
    /// Prove the client's identity.
    Auth(Credentials),
    /// One tunnelled frame.
    Data(Vec<u8>),
    /// Liveness probe; the server answers with `Pong`.
    Ping,
    /// Leave the session.
    Disconnect,
    /// First handshake message: the client's random key share.
    KeyExchange(Key),
}

/// What the server sends to a client.
#[derive(Debug)]
pub enum ServerPacket {
    /// The credential was accepted.
    AuthOk,
    /// The credential was rejected, or the table is full.
    AuthError(String),
    /// One tunnelled frame.
    Data(Vec<u8>),
    /// Answer to a `Ping`.
    Pong,
    /// A fault the client should surface.
    Error(String),
    /// The server ended the session.
    Disconnect { reason: String },
    /// Second handshake message: the server's random key share.
    KeyExchange(Key),
}

/// The mathematical form of a client message.
pub enum ClientMsg {
    Auth { username: Seq<char>, password: Seq<char> },
    Data(Seq<u8>),
    Ping,
    Disconnect,
    KeyExchange(Seq<u8>),
}

/// The mathematical form of a server message.
pub enum ServerMsg {
    AuthOk,
    AuthError(Seq<char>),
    Data(Seq<u8>),
    Pong,
    Error(Seq<char>),
    Disconnect { reason: Seq<char> },
    KeyExchange(Seq<u8>),
}

impl View for ClientPacket {
    type V = ClientMsg;

    open spec fn view(&self) -> ClientMsg {
        match self {
            ClientPacket::Auth(c) => ClientMsg::Auth {
                username: c.spec_username(),
                password: c.spec_password(),
            },
            ClientPacket::Data(d) => ClientMsg::Data(d@),
            ClientPacket::Ping => ClientMsg::Ping,
            ClientPacket::Disconnect => ClientMsg::Disconnect,
            ClientPacket::KeyExchange(k) => ClientMsg::KeyExchange(k@),
        }
    }
}

impl View for ServerPacket {
    type V = ServerMsg;

    open spec fn view(&self) -> ServerMsg {
        match self {
            ServerPacket::AuthOk => ServerMsg::AuthOk,
            ServerPacket::AuthError(m) => ServerMsg::AuthError(m@),
            ServerPacket::Data(d) => ServerMsg::Data(d@),
            ServerPacket::Pong => ServerMsg::Pong,
            ServerPacket::Error(m) => ServerMsg::Error(m@),
            ServerPacket::Disconnect { reason } => ServerMsg::Disconnect { reason: reason@ },
            ServerPacket::KeyExchange(k) => ServerMsg::KeyExchange(k@),
        }
    }
}

/// A length-prefixed byte string on the wire.
pub open spec fn enc_bytes(b: Seq<u8>) -> Seq<u8> {
    enc_u64(b.len() as u64) + b
}

/// A length-prefixed text string on the wire: its UTF-8 bytes.
pub open spec fn enc_str(s: Seq<char>) -> Seq<u8> {
    enc_bytes(encode_utf8(s))
}

/// A credential on the wire: its variant tag, then the two strings.
pub open spec fn cred_wire(username: Seq<char>, password: Seq<char>) -> Seq<u8> {
    enc_u32(0) + enc_str(username) + enc_str(password)
}

/// The wire form of a client message.
pub open spec fn client_wire(m: ClientMsg) -> Seq<u8> {
    match m {
        ClientMsg::Auth { username, password } => enc_u32(0) + cred_wire(username, password),
        ClientMsg::Data(d) => enc_u32(1) + enc_bytes(d),
        ClientMsg::Ping => enc_u32(2),
        ClientMsg::Disconnect => enc_u32(3),
        ClientMsg::KeyExchange(k) => enc_u32(4) + k,
    }
}

/// The wire form of a server message.
pub open spec fn server_wire(m: ServerMsg) -> Seq<u8> {
    match m {
        ServerMsg::AuthOk => enc_u32(0),
        ServerMsg::AuthError(t) => enc_u32(1) + enc_str(t),
        ServerMsg::Data(d) => enc_u32(2) + enc_bytes(d),
        ServerMsg::Pong => enc_u32(3),
        ServerMsg::Error(t) => enc_u32(4) + enc_str(t),
        ServerMsg::Disconnect { reason } => enc_u32(5) + enc_str(reason),
        ServerMsg::KeyExchange(k) => enc_u32(6) + k,
    }
}

/// Read a length-prefixed byte string; what follows it is handed back.
pub open spec fn take_bytes(b: Seq<u8>) -> Option<(Seq<u8>, Seq<u8>)> {
    if b.len() < 8 {
        None
    } else {
        let n = dec_u64(b.take(8)) as int;
        let rest = b.skip(8);
        if n <= rest.len() {
            Some((rest.take(n), rest.skip(n)))
        } else {
            None
        }
    }
}

/// Read a length-prefixed text string; its bytes must be valid UTF-8.
pub open spec fn take_str(b: Seq<u8>) -> Option<(Seq<char>, Seq<u8>)> {
    match take_bytes(b) {
        Some(pair) => if valid_utf8(pair.0) {
            Some((decode_utf8(pair.0), pair.1))
        } else {
            None
        },
        None => None,
    }
}

/// Read a credential: variant tag zero, then username and password.
pub open spec fn take_cred(b: Seq<u8>) -> Option<((Seq<char>, Seq<char>), Seq<u8>)> {
    if b.len() < 4 {
        None
    } else if dec_u32(b.take(4)) != 0 {
        None
    } else {
        match take_str(b.skip(4)) {
            Some((username, r1)) => match take_str(r1) {
                Some((password, r2)) => Some(((username, password), r2)),
                None => None,
            },
            None => None,
        }
    }
}

/// The client message denoted by `b`, if any; trailing bytes are tolerated.
pub open spec fn client_unwire(b: Seq<u8>) -> Option<ClientMsg> {
    if b.len() < 4 {
        None
    } else {
        let tag = dec_u32(b.take(4));
        let r = b.skip(4);
        if tag == 0 {
            match take_cred(r) {
                Some(((username, password), _)) => Some(ClientMsg::Auth { username, password }),
                None => None,
            }
        } else if tag == 1 {
            match take_bytes(r) {
                Some((d, _)) => Some(ClientMsg::Data(d)),
                None => None,
            }
        } else if tag == 2 {
            Some(ClientMsg::Ping)
        } else if tag == 3 {
            Some(ClientMsg::Disconnect)
        } else if tag == 4 {
            if r.len() >= 32 {
                Some(ClientMsg::KeyExchange(r.take(32)))
            } else {
                None
            }
        } else {
            None
        }
    }
}

/// The server message denoted by `b`, if any; trailing bytes are tolerated.
pub open spec fn server_unwire(b: Seq<u8>) -> Option<ServerMsg> {
    if b.len() < 4 {
        None
    } else {
        let tag = dec_u32(b.take(4));
        let r = b.skip(4);
        if tag == 0 {
            Some(ServerMsg::AuthOk)
        } else if tag == 1 {
            match take_str(r) {
                Some((t, _)) => Some(ServerMsg::AuthError(t)),
                None => None,
            }
        } else if tag == 2 {
            match take_bytes(r) {
                Some((d, _)) => Some(ServerMsg::Data(d)),
                None => None,
            }
        } else if tag == 3 {
            Some(ServerMsg::Pong)
        } else if tag == 4 {
            match take_str(r) {
                Some((t, _)) => Some(ServerMsg::Error(t)),
                None => None,
            }
        } else if tag == 5 {
            match take_str(r) {
                Some((t, _)) => Some(ServerMsg::Disconnect { reason: t }),
                None => None,
            }
        } else if tag == 6 {
            if r.len() >= 32 {
                Some(ServerMsg::KeyExchange(r.take(32)))
            } else {
                None
            }
        } else {
            None
        }
    }
}

/// A message whose parts fit on the wire: every length is denotable as a
/// `u64`, and a key share is exactly 32 bytes.  Every message held in an
/// executable packet satisfies this.
pub open spec fn client_msg_wf(m: ClientMsg) -> bool {
    match m {
        ClientMsg::Auth { username, password } => encode_utf8(username).len() <= MAX_WIRE_LEN
            && encode_utf8(password).len() <= MAX_WIRE_LEN,
        ClientMsg::Data(d) => d.len() <= MAX_WIRE_LEN,
        ClientMsg::Ping => true,
        ClientMsg::Disconnect => true,
        ClientMsg::KeyExchange(k) => k.len() == 32,
    }
}

/// As `client_msg_wf`, for server messages.
pub open spec fn server_msg_wf(m: ServerMsg) -> bool {
    match m {
        ServerMsg::AuthOk => true,
        ServerMsg::AuthError(t) => encode_utf8(t).len() <= MAX_WIRE_LEN,
        ServerMsg::Data(d) => d.len() <= MAX_WIRE_LEN,
        ServerMsg::Pong => true,
        ServerMsg::Error(t) => encode_utf8(t).len() <= MAX_WIRE_LEN,
        ServerMsg::Disconnect { reason } => encode_utf8(reason).len() <= MAX_WIRE_LEN,
        ServerMsg::KeyExchange(k) => k.len() == 32,
    }
}

/// A type of message with a binary wire form.  Decoding inverts encoding,
/// also when unrelated bytes trail the message.
pub trait Wire: View + Sized {
    /// Well-formed mathematical messages: those whose parts fit on the wire.
    spec fn msg_wf(v: Self::V) -> bool;

    /// The wire form of a message.
    spec fn wire_of(v: Self::V) -> Seq<u8>;

    /// The message a byte sequence denotes, if any.
    spec fn unwire(b: Seq<u8>) -> Option<Self::V>;

    /// Serialize the message.
    fn encode(&self) -> (r: Vec<u8>)
        ensures
            r@ == Self::wire_of(self@),
            Self::msg_wf(self@),
    ;

    /// Parse a message from the front of `b`.
    fn decode(b: &[u8]) -> (r: Option<Self>)
        ensures
            match r {
                Some(p) => Self::unwire(b@) == Some(p@) && Self::msg_wf(p@),
                None => Self::unwire(b@) is None,
            },
    ;

    /// The codec round-trip: a well-formed message survives encoding,
    /// whatever trails it.
    proof fn lemma_wire_round_trip(v: Self::V, rest: Seq<u8>)
        requires
            Self::msg_wf(v),
        ensures
            Self::unwire(Self::wire_of(v) + rest) == Some(v),
    ;
}

/// Append a length-prefixed byte string.
fn push_bytes(out: &mut Vec<u8>, data: &[u8])
    ensures
        final(out)@ == old(out)@ + enc_bytes(data@),
        data@.len() <= MAX_WIRE_LEN,
{
    let n = data.len();
    push_u64(out, n as u64);
    out.extend_from_slice(data);
    assert(out@ =~= old(out)@ + enc_bytes(data@));
}

/// Append a length-prefixed text string as UTF-8.
fn push_str(out: &mut Vec<u8>, s: &str)
    ensures
        final(out)@ == old(out)@ + enc_str(s@),
        encode_utf8(s@).len() <= MAX_WIRE_LEN,
{
    push_bytes(out, s.as_bytes());
}

/// Relies on `String::from_utf8`: it succeeds exactly on valid UTF-8 and
/// yields the characters that the bytes encode.
#[verifier::external_body]
fn string_from_utf8(v: Vec<u8>) -> (r: Option<String>)
    ensures
        r matches Some(s) ==> valid_utf8(v@) && s@ == decode_utf8(v@),
        valid_utf8(v@) ==> r is Some,
{
    String::from_utf8(v).ok()
}

/// Read a length-prefixed byte string at `pos`; also return where it ends.
fn read_vec(b: &[u8], pos: usize) -> (r: Option<(Vec<u8>, usize)>)
    requires
        pos <= b@.len(),
    ensures
        match r {
            Some(p) => take_bytes(b@.skip(pos as int)) == Some((p.0@, b@.skip(p.1 as int)))
                && pos <= p.1 <= b@.len() && p.0@.len() <= MAX_WIRE_LEN,
            None => take_bytes(b@.skip(pos as int)) is None,
        },
{
    let len = b.len();
    if len - pos < 8 {
        return None;
    }
    let n = read_u64(b, pos);
    proof {
        assert(b@.skip(pos as int).take(8) =~= b@.subrange(pos as int, pos as int + 8));
    }
    let rem = (len - pos - 8) as u64;
    if n > rem {
        proof {
            assert(b@.skip(pos as int).skip(8).len() == len - pos - 8);
        }
        return None;
    }
    let nn = n as usize;
    let v = slice_to_vec(slice_subrange(b, pos + 8, pos + 8 + nn));
    proof {
        let s = b@.skip(pos as int);
        assert(s.skip(8) =~= b@.skip(pos as int + 8));
        assert(s.skip(8).take(n as int) =~= b@.subrange(pos as int + 8, pos as int + 8 + n as int));
        assert(s.skip(8).skip(n as int) =~= b@.skip(pos as int + 8 + n as int));
    }
    Some((v, pos + 8 + nn))
}

/// Read a length-prefixed UTF-8 string at `pos`; also return where it ends.
fn read_string(b: &[u8], pos: usize) -> (r: Option<(String, usize)>)
    requires
        pos <= b@.len(),
    ensures
        match r {
            Some(p) => take_str(b@.skip(pos as int)) == Some((p.0@, b@.skip(p.1 as int))) && pos
                <= p.1 <= b@.len() && encode_utf8(p.0@).len() <= MAX_WIRE_LEN,
            None => take_str(b@.skip(pos as int)) is None,
        },
{
    match read_vec(b, pos) {
        Some((raw, end)) => {
            let ghost raw_view = raw@;
            match string_from_utf8(raw) {
                Some(s) => {
                    proof {
                        decode_utf8_encode_utf8(raw_view);
                    }
                    Some((s, end))
                },
                None => None,
            }
        },
        None => None,
    }
}

/// A length-prefixed byte string parses back to itself, whatever trails it.
proof fn lemma_take_bytes_round_trip(x: Seq<u8>, rest: Seq<u8>)
    requires
        x.len() <= MAX_WIRE_LEN,
    ensures
        take_bytes(enc_bytes(x) + rest) == Some((x, rest)),
{
    let b = enc_bytes(x) + rest;
    assert(b.take(8) =~= enc_u64(x.len() as u64));
    lemma_u64_round_trip(x.len() as u64);
    assert(b.skip(8) =~= x + rest);
    assert((x + rest).take(x.len() as int) =~= x);
    assert((x + rest).skip(x.len() as int) =~= rest);
}

/// A length-prefixed text string parses back to itself, whatever trails it.
proof fn lemma_take_str_round_trip(s: Seq<char>, rest: Seq<u8>)
    requires
        encode_utf8(s).len() <= MAX_WIRE_LEN,
    ensures
        take_str(enc_str(s) + rest) == Some((s, rest)),
{
    lemma_take_bytes_round_trip(encode_utf8(s), rest);
    encode_utf8_valid_utf8(s);
    encode_utf8_decode_utf8(s);
}

/// A credential parses back to itself, whatever trails it.
proof fn lemma_take_cred_round_trip(username: Seq<char>, password: Seq<char>, rest: Seq<u8>)
    requires
        encode_utf8(username).len() <= MAX_WIRE_LEN,
        encode_utf8(password).len() <= MAX_WIRE_LEN,
    ensures
        take_cred(cred_wire(username, password) + rest) == Some(((username, password), rest)),
{
    let b = cred_wire(username, password) + rest;
    assert(b.take(4) =~= enc_u32(0));
    lemma_u32_round_trip(0);
    assert(b.skip(4) =~= enc_str(username) + (enc_str(password) + rest));
    lemma_take_str_round_trip(username, enc_str(password) + rest);
    lemma_take_str_round_trip(password, rest);
}

/// Why a datagram could not be wrapped or unwrapped.
#[derive(Debug, Clone, Copy, PartialEq, Eq, Structural)]
pub enum PacketError {
    /// Too short to hold a nonce and a tag.
    Malformed,
    /// The authentication tag does not verify under the key.
    AuthFailed,
    /// The envelope decrypts, but the inner bytes denote no message.
    DecodeFailed,
    /// The cipher refused the plaintext (over-long).
    EncryptFailed,
}

impl PacketError {
    /// The human-readable description of the error.
    pub open spec fn spec_message(&self) -> Seq<char> {
        match self {
            PacketError::Malformed => "Packet too short"@,
            PacketError::AuthFailed => "Decryption failed"@,
            PacketError::DecodeFailed => "Deserialization failed"@,
            PacketError::EncryptFailed => "Encryption failed"@,
        }
    }

    /// The human-readable description of the error.
    pub fn message(&self) -> (r: &'static str)
        ensures
            r@ == self.spec_message(),
    {
        match self {
            PacketError::Malformed => "Packet too short",
            PacketError::AuthFailed => "Decryption failed",
            PacketError::DecodeFailed => "Deserialization failed",
            PacketError::EncryptFailed => "Encryption failed",
        }
    }
}

/// The ciphertext-with-tag that ChaCha20-Poly1305 produces from a key, a
/// nonce and a plaintext.
pub uninterp spec fn chacha_seal(key: Seq<u8>, nonce: Seq<u8>, plaintext: Seq<u8>) -> Seq<u8>;

/// The plaintext that ChaCha20-Poly1305 recovers from a ciphertext-with-tag
/// under a key and a nonce, or nothing when the tag does not verify.
pub uninterp spec fn chacha_open(key: Seq<u8>, nonce: Seq<u8>, ciphertext: Seq<u8>) -> Option<
    Seq<u8>,
>;

/// Plaintexts up to this length are always accepted by the cipher.  Its true
/// limit is near 2^38 bytes; a datagram is far below either bound.
pub const MAX_PLAINTEXT: u64 = 0x4000_0000;

/// Relies on `chacha20poly1305::ChaCha20Poly1305` through `aead::Aead::encrypt`:
/// the ciphertext-with-tag is a pure function of key, nonce and plaintext, is
/// 16 bytes longer than the plaintext, decryption under the same key and
/// nonce inverts it, and the only failure is a plaintext near 2^38 bytes.
#[verifier::external_body]
fn aead_seal(key: &Key, nonce: &[u8; 12], plaintext: &[u8]) -> (r: Option<Vec<u8>>)
    ensures
        r matches Some(ct) ==> ct@ == chacha_seal(key@, nonce@, plaintext@) && ct@.len()
            == plaintext@.len() + 16 && chacha_open(key@, nonce@, ct@) == Some(plaintext@),
        plaintext@.len() < MAX_PLAINTEXT ==> r is Some,
{
    let cipher = chacha20poly1305::ChaCha20Poly1305::new(key.into());
    cipher.encrypt(nonce.into(), plaintext).ok()
}

/// Relies on `chacha20poly1305::ChaCha20Poly1305` through `aead::Aead::decrypt`:
/// the outcome is a pure function of key, nonce and ciphertext; success
/// returns exactly the plaintext whose sealing under the same key and nonce
/// is the given bytes, and failure means no such plaintext exists (the tag
/// does not verify).
#[verifier::external_body]
fn aead_open(key: &Key, nonce: &[u8; 12], ciphertext: &[u8]) -> (r: Option<Vec<u8>>)
    ensures
        match r {
            Some(pt) => {
                &&& chacha_open(key@, nonce@, ciphertext@) == Some(pt@)
                &&& ciphertext@ == chacha_seal(key@, nonce@, pt@)
                &&& pt@.len() + 16 == ciphertext@.len()
                &&& forall|other: Seq<u8>|
                    other.len() < MAX_PLAINTEXT && ciphertext@ == chacha_seal(key@, nonce@, other)
                        ==> other == pt@
            },
            None => {
                &&& chacha_open(key@, nonce@, ciphertext@) is None
                &&& forall|pt: Seq<u8>|
                    pt.len() < MAX_PLAINTEXT ==> ciphertext@ != chacha_seal(key@, nonce@, pt)
            },
        },
{
    let cipher = chacha20poly1305::ChaCha20Poly1305::new(key.into());
    cipher.decrypt(nonce.into(), ciphertext).ok()
}

/// Relies on `rand::random`: fill the key with bytes from the thread RNG.
/// Nothing is promised of the value drawn.
#[verifier::external_body]
pub fn fill_random_bytes(buf: &mut Key) {
    *buf = rand::random::<[u8; 32]>();
}

/// Relies on `rand::random`: a fresh 96-bit nonce from the thread RNG.
/// Nothing is promised of the value drawn.
#[verifier::external_body]
fn random_nonce() -> [u8; 12] {
    rand::random::<[u8; 12]>()
}

/// A datagram after encryption: `nonce ‖ ciphertext ‖ tag`.
#[derive(Debug)]
pub struct EncryptedPacket {
    nonce: [u8; 12],
    data: Vec<u8>,
    tag: [u8; 16],
}

impl EncryptedPacket {
    /// The 96-bit nonce.
    pub closed spec fn spec_nonce(&self) -> Seq<u8> {
        self.nonce@
    }

    /// The ciphertext without its tag.
    pub closed spec fn spec_data(&self) -> Seq<u8> {
        self.data@
    }

    /// The 128-bit authentication tag.
    pub closed spec fn spec_tag(&self) -> Seq<u8> {
        self.tag@
    }

    /// The ciphertext as the cipher sees it: data, then tag.
    pub open spec fn ciphertext(&self) -> Seq<u8> {
        self.spec_data() + self.spec_tag()
    }

    /// Serialize `packet` and seal it under `key` with a fresh random nonce.
    pub fn encrypt<P: Wire>(key: &Key, packet: &P) -> (r: Result<EncryptedPacket, PacketError>)
        ensures
            r matches Ok(ep) ==> {
                &&& ep.ciphertext() == chacha_seal(key@, ep.spec_nonce(), P::wire_of(packet@))
                &&& chacha_open(key@, ep.spec_nonce(), ep.ciphertext()) == Some(
                    P::wire_of(packet@),
                )
                &&& P::msg_wf(packet@)
                &&& ep.spec_nonce().len() == 12
                &&& ep.spec_tag().len() == 16
                &&& ep.spec_data().len() == P::wire_of(packet@).len()
            },
            P::wire_of(packet@).len() < MAX_PLAINTEXT ==> r is Ok,
            r matches Err(e) ==> e == PacketError::EncryptFailed,
    {
        let pt = packet.encode();
        let nonce = random_nonce();
        match aead_seal(key, &nonce, pt.as_slice()) {
            Some(ct) => {
                let n = ct.len();
                let data = slice_to_vec(slice_subrange(ct.as_slice(), 0, n - 16));
                let mut tag: [u8; 16] = [0u8; 16];
                let mut i: usize = 0;
                while i < 16
                    invariant
                        i <= 16,
                        n == ct@.len(),
                        n >= 16,
                        forall|j: int| 0 <= j < i ==> tag@[j] == ct@[n - 16 + j],
                    decreases 16 - i,
                {
                    tag[i] = ct[n - 16 + i];
                    i += 1;
                }
                let ep = EncryptedPacket { nonce, data, tag };
                assert(ep.ciphertext() =~= ct@);
                Ok(ep)
            },
            None => Err(PacketError::EncryptFailed),
        }
    }

    /// Open the envelope under `key` and parse the plaintext.
    ///
    /// The outcome is exactly determined by what the cipher recovers: when
    /// nothing does (the tag does not verify under `key`), the result is
    /// `AuthFailed`; when a plaintext is recovered but denotes no message,
    /// `DecodeFailed`; otherwise the denoted message — and nothing else.
    pub fn decrypt<P: Wire>(&self, key: &Key) -> (r: Result<P, PacketError>)
        ensures
            match chacha_open(key@, self.spec_nonce(), self.ciphertext()) {
                Some(pt) => match P::unwire(pt) {
                    Some(v) => r matches Ok(p) && p@ == v && P::msg_wf(p@),
                    None => r == Err::<P, PacketError>(PacketError::DecodeFailed),
                },
                None => r == Err::<P, PacketError>(PacketError::AuthFailed),
            },
            r matches Ok(p) ==> exists|pt: Seq<u8>|
                self.ciphertext() == chacha_seal(key@, self.spec_nonce(), pt) && #[trigger] P::unwire(
                    pt,
                ) == Some(p@) && P::msg_wf(p@) && pt.len() + 16 == self.ciphertext().len(),
            forall|pt: Seq<u8>|
                pt.len() < MAX_PLAINTEXT && self.ciphertext() == chacha_seal(
                    key@,
                    self.spec_nonce(),
                    pt,
                ) ==> match #[trigger] P::unwire(pt) {
                    Some(v) => r matches Ok(p) && p@ == v,
                    None => r matches Err(e) && e == PacketError::DecodeFailed,
                },
            r matches Err(e) && e == PacketError::AuthFailed ==> forall|pt: Seq<u8>|
                pt.len() < MAX_PLAINTEXT ==> self.ciphertext() != chacha_seal(
                    key@,
                    self.spec_nonce(),
                    pt,
                ),
    {
        let mut ct = self.data.clone();
        ct.extend_from_slice(self.tag.as_slice());
        assert(ct@ =~= self.ciphertext());
        match aead_open(key, &self.nonce, ct.as_slice()) {
            Some(pt) => match P::decode(pt.as_slice()) {
                Some(p) => Ok(p),
                None => Err(PacketError::DecodeFailed),
            },
            None => Err(PacketError::AuthFailed),
        }
    }

    /// The on-wire form: nonce, then ciphertext, then tag.
    pub fn to_bytes(&self) -> (r: Vec<u8>)
        ensures
            r@ == self.spec_nonce() + self.spec_data() + self.spec_tag(),
    {
        let mut out: Vec<u8> = Vec::new();
        out.extend_from_slice(self.nonce.as_slice());
        out.extend_from_slice(self.data.as_slice());
        out.extend_from_slice(self.tag.as_slice());
        assert(out@ =~= self.spec_nonce() + self.spec_data() + self.spec_tag());
        out
    }

    /// Split a datagram into nonce, ciphertext and tag.  Anything shorter
    /// than a nonce and a tag together is malformed.
    pub fn from_bytes(bytes: &[u8]) -> (r: Result<EncryptedPacket, PacketError>)
        ensures
            match r {
                Ok(ep) => bytes@.len() >= 28 && ep.spec_nonce() == bytes@.take(12)
                    && ep.spec_data() == bytes@.subrange(12, bytes@.len() - 16) && ep.spec_tag()
                    == bytes@.skip(bytes@.len() - 16) && ep.spec_nonce().len() == 12
                    && ep.spec_tag().len() == 16 && ep.ciphertext() == bytes@.skip(12),
                Err(e) => e == PacketError::Malformed && bytes@.len() < 28,
            },
    {
        let n = bytes.len();
        if n < 28 {
            return Err(PacketError::Malformed);
        }
        let mut nonce: [u8; 12] = [0u8; 12];
        let mut i: usize = 0;
        while i < 12
            invariant
                i <= 12,
                n == bytes@.len(),
                n >= 28,
                forall|j: int| 0 <= j < i ==> nonce@[j] == bytes@[j],
            decreases 12 - i,
        {
            nonce[i] = bytes[i];
            i += 1;
        }
        let data = slice_to_vec(slice_subrange(bytes, 12, n - 16));
        let mut tag: [u8; 16] = [0u8; 16];
        let mut k: usize = 0;
        while k < 16
            invariant
                k <= 16,
                n == bytes@.len(),
                n >= 28,
                forall|j: int| 0 <= j < k ==> tag@[j] == bytes@[n - 16 + j],
            decreases 16 - k,
        {
            tag[k] = bytes[n - 16 + k];
            k += 1;
        }
        let ep = EncryptedPacket { nonce, data, tag };
        assert(ep.spec_nonce() =~= bytes@.take(12));
        assert(ep.spec_tag() =~= bytes@.skip(n - 16));
        assert(ep.ciphertext() =~= bytes@.skip(12));
        Ok(ep)
    }
}

/// `bytes` is a sealed envelope of `plaintext` under `key`: a 12-byte nonce
/// followed by the sealing of the plaintext under that nonce.
pub open spec fn is_envelope_of(bytes: Seq<u8>, key: Seq<u8>, plaintext: Seq<u8>) -> bool {
    exists|nonce: Seq<u8>|
        nonce.len() == 12 && bytes == nonce + chacha_seal(key, nonce, plaintext)
}

/// The message a whole datagram denotes under `key`: the plaintext the
/// cipher recovers from its ciphertext under its nonce, decoded — or
/// nothing, when the tag does not verify.
pub open spec fn envelope_denotes<P: Wire>(bytes: Seq<u8>, key: Seq<u8>) -> Option<P::V> {
    if bytes.len() >= 28 {
        match chacha_open(key, bytes.take(12), bytes.skip(12)) {
            Some(pt) => P::unwire(pt),
            None => None,
        }
    } else {
        None
    }
}

/// Serialize one message, seal it under `key` with a fresh nonce, and frame
/// it for the wire.  What comes out denotes exactly the message that went in
/// — the datagram-level round trip.
pub fn seal_datagram<P: Wire>(key: &Key, packet: &P) -> (r: Result<Vec<u8>, PacketError>)
    ensures
        r matches Ok(bytes) ==> {
            &&& is_envelope_of(bytes@, key@, P::wire_of(packet@))
            &&& envelope_denotes::<P>(bytes@, key@) == Some(packet@)
            &&& P::msg_wf(packet@)
            &&& bytes@.len() == P::wire_of(packet@).len() + 28
        },
        P::wire_of(packet@).len() < MAX_PLAINTEXT ==> r is Ok,
        r matches Err(e) ==> e == PacketError::EncryptFailed,
{
    match EncryptedPacket::encrypt(key, packet) {
        Ok(ep) => {
            let bytes = ep.to_bytes();
            proof {
                let nonce = ep.spec_nonce();
                let wire = P::wire_of(packet@);
                assert(bytes@ == nonce + chacha_seal(key@, nonce, wire));
                assert(bytes@.take(12) =~= nonce);
                assert(bytes@.skip(12) =~= ep.ciphertext());
                P::lemma_wire_round_trip(packet@, seq![]);
                assert(wire + seq![] =~= wire);
            }
            Ok(bytes)
        },
        Err(e) => Err(e),
    }
}

/// Split one whole datagram, open it under `key`, and parse the plaintext.
///
/// The result is exactly the denoted message; among the failures,
/// `Malformed` marks exactly the too-short datagrams, `AuthFailed` exactly
/// those whose tag does not verify under `key`, and `DecodeFailed` exactly
/// those whose recovered plaintext denotes no message.
pub fn open_datagram<P: Wire>(key: &Key, datagram: &[u8]) -> (r: Result<P, PacketError>)
    ensures
        match r {
            Ok(p) => envelope_denotes::<P>(datagram@, key@) == Some(p@) && P::msg_wf(p@),
            Err(e) => {
                &&& envelope_denotes::<P>(datagram@, key@) is None
                &&& (e == PacketError::Malformed <==> datagram@.len() < 28)
                &&& (e == PacketError::AuthFailed <==> datagram@.len() >= 28 && chacha_open(
                    key@,
                    datagram@.take(12),
                    datagram@.skip(12),
                ) is None)
                &&& (e == PacketError::DecodeFailed <==> datagram@.len() >= 28 && chacha_open(
                    key@,
                    datagram@.take(12),
                    datagram@.skip(12),
                ) is Some)
            },
        },
{
    let ep = match EncryptedPacket::from_bytes(datagram) {
        Ok(ep) => ep,
        Err(e) => {
            return Err(e);
        },
    };
    match ep.decrypt::<P>(key) {
        Ok(p) => Ok(p),
        Err(e) => Err(e),
    }
}

impl Wire for ClientPacket {
    open spec fn msg_wf(v: ClientMsg) -> bool {
        client_msg_wf(v)
    }

    open spec fn wire_of(v: ClientMsg) -> Seq<u8> {
        client_wire(v)
    }

    open spec fn unwire(b: Seq<u8>) -> Option<ClientMsg> {
        client_unwire(b)
    }

    fn encode(&self) -> (r: Vec<u8>) {
        let mut out: Vec<u8> = Vec::new();
        match self {
            ClientPacket::Auth(c) => {
                push_u32(&mut out, 0);
                push_u32(&mut out, 0);
                match c {
                    Credentials::Password(p) => {
                        push_str(&mut out, p.username());
                        push_str(&mut out, p.password());
                    },
                }
            },
            ClientPacket::Data(d) => {
                push_u32(&mut out, 1);
                push_bytes(&mut out, d.as_slice());
            },
            ClientPacket::Ping => {
                push_u32(&mut out, 2);
            },
            ClientPacket::Disconnect => {
                push_u32(&mut out, 3);
            },
            ClientPacket::KeyExchange(k) => {
                push_u32(&mut out, 4);
                out.extend_from_slice(k.as_slice());
            },
        }
        assert(out@ =~= client_wire(self@));
        out
    }

    fn decode(b: &[u8]) -> (r: Option<ClientPacket>) {
        if b.len() < 4 {
            return None;
        }
        let tag = read_u32(b, 0);
        proof {
            assert(b@.subrange(0, 4) =~= b@.take(4));
        }
        if tag == 0 {
            if b.len() < 8 {
                proof {
                    assert(b@.skip(4).len() < 4);
                }
                return None;
            }
            let ctag = read_u32(b, 4);
            proof {
                assert(b@.subrange(4, 8) =~= b@.skip(4).take(4));
            }
            if ctag != 0 {
                return None;
            }
            proof {
                assert(b@.skip(8) =~= b@.skip(4).skip(4));
            }
            match read_string(b, 8) {
                Some((username, p1)) => match read_string(b, p1) {
                    Some((password, _)) => {
                        let c = Credentials::Password(
                            Password::new(username.as_str(), password.as_str()),
                        );
                        Some(ClientPacket::Auth(c))
                    },
                    None => None,
                },
                None => None,
            }
        } else if tag == 1 {
            match read_vec(b, 4) {
                Some((d, _)) => Some(ClientPacket::Data(d)),
                None => None,
            }
        } else if tag == 2 {
            Some(ClientPacket::Ping)
        } else if tag == 3 {
            Some(ClientPacket::Disconnect)
        } else if tag == 4 {
            if b.len() < 36 {
                proof {
                    assert(b@.skip(4).len() < 32);
                }
                return None;
            }
            let mut k: Key = [0u8; 32];
            let mut i: usize = 0;
            while i < 32
                invariant
                    36 <= b@.len(),
                    i <= 32,
                    forall|j: int| 0 <= j < i ==> k@[j] == b@[4 + j],
                decreases 32 - i,
            {
                k[i] = b[4 + i];
                i += 1;
            }
            proof {
                assert(k@ =~= b@.skip(4).take(32));
            }
            Some(ClientPacket::KeyExchange(k))
        } else {
            None
        }
    }

    proof fn lemma_wire_round_trip(v: ClientMsg, rest: Seq<u8>) {
        let b = client_wire(v) + rest;
        match v {
            ClientMsg::Auth { username, password } => {
                assert(b.take(4) =~= enc_u32(0));
                lemma_u32_round_trip(0);
                assert(b.skip(4) =~= cred_wire(username, password) + rest);
                lemma_take_cred_round_trip(username, password, rest);
            },
            ClientMsg::Data(d) => {
                assert(b.take(4) =~= enc_u32(1));
                lemma_u32_round_trip(1);
                assert(b.skip(4) =~= enc_bytes(d) + rest);
                lemma_take_bytes_round_trip(d, rest);
            },
            ClientMsg::Ping => {
                assert(b.take(4) =~= enc_u32(2));
                lemma_u32_round_trip(2);
            },
            ClientMsg::Disconnect => {
                assert(b.take(4) =~= enc_u32(3));
                lemma_u32_round_trip(3);
            },
            ClientMsg::KeyExchange(k) => {
                assert(b.take(4) =~= enc_u32(4));
                lemma_u32_round_trip(4);
                assert(b.skip(4) =~= k + rest);
                assert((k + rest).take(32) =~= k);
            },
        }
    }
}

impl Wire for ServerPacket {
    open spec fn msg_wf(v: ServerMsg) -> bool {
        server_msg_wf(v)
    }

    open spec fn wire_of(v: ServerMsg) -> Seq<u8> {
        server_wire(v)
    }

    open spec fn unwire(b: Seq<u8>) -> Option<ServerMsg> {
        server_unwire(b)
    }

    fn encode(&self) -> (r: Vec<u8>) {
        let mut out: Vec<u8> = Vec::new();
        match self {
            ServerPacket::AuthOk => {
                push_u32(&mut out, 0);
            },
            ServerPacket::AuthError(t) => {
                push_u32(&mut out, 1);
                push_str(&mut out, t.as_str());
            },
            ServerPacket::Data(d) => {
                push_u32(&mut out, 2);
                push_bytes(&mut out, d.as_slice());
            },
            ServerPacket::Pong => {
                push_u32(&mut out, 3);
            },
            ServerPacket::Error(t) => {
                push_u32(&mut out, 4);
                push_str(&mut out, t.as_str());
            },
            ServerPacket::Disconnect { reason } => {
                push_u32(&mut out, 5);
                push_str(&mut out, reason.as_str());
            },
            ServerPacket::KeyExchange(k) => {
                push_u32(&mut out, 6);
                out.extend_from_slice(k.as_slice());
            },
        }
        assert(out@ =~= server_wire(self@));
        out
    }

    fn decode(b: &[u8]) -> (r: Option<ServerPacket>) {
        if b.len() < 4 {
            return None;
        }
        let tag = read_u32(b, 0);
        proof {
            assert(b@.subrange(0, 4) =~= b@.take(4));
        }
        if tag == 0 {
            Some(ServerPacket::AuthOk)
        } else if tag == 1 {
            match read_string(b, 4) {
                Some((t, _)) => Some(ServerPacket::AuthError(t)),
                None => None,
            }
        } else if tag == 2 {
            match read_vec(b, 4) {
                Some((d, _)) => Some(ServerPacket::Data(d)),
                None => None,
            }
        } else if tag == 3 {
            Some(ServerPacket::Pong)
        } else if tag == 4 {
            match read_string(b, 4) {
                Some((t, _)) => Some(ServerPacket::Error(t)),
                None => None,
            }
        } else if tag == 5 {
            match read_string(b, 4) {
                Some((t, _)) => Some(ServerPacket::Disconnect { reason: t }),
                None => None,
            }
        } else if tag == 6 {
            if b.len() < 36 {
                proof {
                    assert(b@.skip(4).len() < 32);
                }
                return None;
            }
            let mut k: Key = [0u8; 32];
            let mut i: usize = 0;
            while i < 32
                invariant
                    36 <= b@.len(),
                    i <= 32,
                    forall|j: int| 0 <= j < i ==> k@[j] == b@[4 + j],
                decreases 32 - i,
            {
                k[i] = b[4 + i];
                i += 1;
            }
            proof {
                assert(k@ =~= b@.skip(4).take(32));
            }
            Some(ServerPacket::KeyExchange(k))
        } else {
            None
        }
    }

    proof fn lemma_wire_round_trip(v: ServerMsg, rest: Seq<u8>) {
        let b = server_wire(v) + rest;
        match v {
            ServerMsg::AuthOk => {
                assert(b.take(4) =~= enc_u32(0));
                lemma_u32_round_trip(0);
            },
            ServerMsg::AuthError(t) => {
                assert(b.take(4) =~= enc_u32(1));
                lemma_u32_round_trip(1);
                assert(b.skip(4) =~= enc_str(t) + rest);
                lemma_take_str_round_trip(t, rest);
            },
            ServerMsg::Data(d) => {
                assert(b.take(4) =~= enc_u32(2));
                lemma_u32_round_trip(2);
                assert(b.skip(4) =~= enc_bytes(d) + rest);
                lemma_take_bytes_round_trip(d, rest);
            },
            ServerMsg::Pong => {
                assert(b.take(4) =~= enc_u32(3));
                lemma_u32_round_trip(3);
            },
            ServerMsg::Error(t) => {
                assert(b.take(4) =~= enc_u32(4));
                lemma_u32_round_trip(4);
                assert(b.skip(4) =~= enc_str(t) + rest);
                lemma_take_str_round_trip(t, rest);
            },
            ServerMsg::Disconnect { reason } => {
                assert(b.take(4) =~= enc_u32(5));
                lemma_u32_round_trip(5);
                assert(b.skip(4) =~= enc_str(reason) + rest);
                lemma_take_str_round_trip(reason, rest);
            },
            ServerMsg::KeyExchange(k) => {
                assert(b.take(4) =~= enc_u32(6));
                lemma_u32_round_trip(6);
                assert(b.skip(4) =~= k + rest);
                assert((k + rest).take(32) =~= k);
            },
        }
    }
}

} // verus!
