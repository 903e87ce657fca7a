//! Credentials: a username/password pair compared componentwise.
//!
//! The server holds a set of accepted credentials, the client exactly one.
//! A credential can be read from the colon-delimited form `"user:pass"`:
//! the first colon separates the two parts, the remainder is the password.

use vstd::prelude::*;
use vstd::string::StrSliceExecFns;
use crate::wire::{enc_u64, push_u64};

verus! {

/// A username/password credential.
#[derive(Debug)]
pub struct Password {
    username: String,
    password: String,
}

/// The accepted ways for a client to prove itself; today only a password.
#[derive(Debug)]
pub enum Credentials {
    Password(Password),
}

/// Why a credential string could not be parsed.
#[derive(Debug, PartialEq, Eq)]
pub enum CredentialsError {
    /// The string holds no colon, so it cannot be split into user and password.
    MissingColon,
}

/// True of the position of the first colon in `s`.
pub open spec fn colon_at(s: Seq<char>, i: int) -> bool {
    &&& 0 <= i < s.len()
    &&& s[i] == ':'
    &&& forall|j: int| 0 <= j < i ==> s[j] != ':'
}

/// The bytes fed to the digest for a credential: each part's UTF-8 bytes,
/// each terminated by `0xff` so that distinct pairs never collide by
/// shifting bytes between the parts.
pub open spec fn cred_hash_input(username: Seq<char>, password: Seq<char>) -> Seq<u8> {
    vstd::utf8::encode_utf8(username) + seq![0xffu8] + vstd::utf8::encode_utf8(password)
        + seq![0xffu8]
}

/// The 64-bit xxHash digest of `data` under `seed`.
pub uninterp spec fn xxh64_of(data: Seq<u8>, seed: u64) -> u64;

/// Relies on `xxhash_rust::xxh64::xxh64`: the digest is a pure function of
/// the input bytes and the seed.
#[verifier::external_body]
fn xxh64_digest(data: &[u8], seed: u64) -> (r: u64)
    ensures
        r == xxh64_of(data@, seed),
{
    xxhash_rust::xxh64::xxh64(data, seed)
}

impl Password {
    /// The username as a sequence of characters.
    pub closed spec fn spec_username(&self) -> Seq<char> {
        self.username@
    }

    /// The password as a sequence of characters.
    pub closed spec fn spec_password(&self) -> Seq<char> {
        self.password@
    }

    /// Build a credential from its two parts.
    pub fn new(username: &str, password: &str) -> (r: Self)
        ensures
            r.spec_username() == username@,
            r.spec_password() == password@,
    {
        Password { username: username.to_owned(), password: password.to_owned() }
    }

    /// The username.
    pub fn username(&self) -> (r: &str)
        ensures
            r@ == self.spec_username(),
    {
        self.username.as_str()
    }

    /// The password.
    pub fn password(&self) -> (r: &str)
        ensures
            r@ == self.spec_password(),
    {
        self.password.as_str()
    }

    /// A 64-bit digest of the pair, as eight little-endian bytes.
    pub fn hashed(&self) -> (r: Vec<u8>)
        ensures
            r@ == enc_u64(xxh64_of(cred_hash_input(self.spec_username(), self.spec_password()), 0)),
    {
        let mut buf: Vec<u8> = Vec::new();
        buf.extend_from_slice(self.username.as_str().as_bytes());
        buf.push(0xff);
        buf.extend_from_slice(self.password.as_str().as_bytes());
        buf.push(0xff);
        assert(buf@ =~= cred_hash_input(self.spec_username(), self.spec_password()));
        let digest = xxh64_digest(buf.as_slice(), 0);
        let mut out: Vec<u8> = Vec::new();
        push_u64(&mut out, digest);
        assert(out@ =~= enc_u64(digest));
        out
    }
}

impl Clone for Password {
    fn clone(&self) -> (r: Self)
        ensures
            r.spec_username() == self.spec_username(),
            r.spec_password() == self.spec_password(),
    {
        Password { username: self.username.clone(), password: self.password.clone() }
    }
}

impl Credentials {
    /// The username of the credential.
    pub open spec fn spec_username(&self) -> Seq<char> {
        match self {
            Credentials::Password(p) => p.spec_username(),
        }
    }

    /// The password of the credential.
    pub open spec fn spec_password(&self) -> Seq<char> {
        match self {
            Credentials::Password(p) => p.spec_password(),
        }
    }

    /// Parse the colon-delimited form: the part before the first colon is
    /// the username, everything after it is the password.
    pub fn from_str(s: &str) -> (r: Result<Credentials, CredentialsError>)
        ensures
            match r {
                Ok(c) => exists|i: int|
                    #[trigger] colon_at(s@, i) && c.spec_username() == s@.take(i)
                        && c.spec_password() == s@.skip(i + 1),
                Err(e) => e == CredentialsError::MissingColon && forall|i: int|
                    0 <= i < s@.len() ==> s@[i] != ':',
            },
    {
        let n = s.unicode_len();
        let mut i: usize = 0;
        while i < n
            invariant
                i <= n,
                n == s@.len(),
                forall|j: int| 0 <= j < i ==> s@[j] != ':',
            decreases n - i,
        {
            if s.get_char(i) == ':' {
                let username = s.substring_char(0, i);
                let password = s.substring_char(i + 1, n);
                let c = Credentials::Password(Password::new(username, password));
                assert(colon_at(s@, i as int));
                assert(username@ =~= s@.take(i as int));
                assert(password@ =~= s@.skip(i as int + 1));
                return Ok(c);
            }
            i += 1;
        }
        Err(CredentialsError::MissingColon)
    }

    /// Componentwise equality of two credentials.
    pub fn matches(&self, other: &Credentials) -> (r: bool)
        ensures
            r == (self.spec_username() == other.spec_username() && self.spec_password()
                == other.spec_password()),
    {
        match (self, other) {
            (Credentials::Password(a), Credentials::Password(b)) => {
                a.username == b.username && a.password == b.password
            },
        }
    }

    /// A 64-bit digest of the credential, as eight little-endian bytes.
    pub fn hashed(&self) -> (r: Vec<u8>)
        ensures
            r@ == enc_u64(xxh64_of(cred_hash_input(self.spec_username(), self.spec_password()), 0)),
    {
        match self {
            Credentials::Password(p) => p.hashed(),
        }
    }
}

impl Clone for Credentials {
    fn clone(&self) -> (r: Self)
        ensures
            r.spec_username() == self.spec_username(),
            r.spec_password() == self.spec_password(),
    {
        match self {
            Credentials::Password(p) => Credentials::Password(p.clone()),
        }
    }
}

impl CredentialsError {
    /// The human-readable description of the error.
    pub fn message(&self) -> (r: &'static str)
        ensures
            r@ == "Invalid auth string: missing colon"@,
    {
        "Invalid auth string: missing colon"
    }
}

} // verus!
