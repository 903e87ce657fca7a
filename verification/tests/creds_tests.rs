//! Credentials: the colon-delimited form, componentwise equality, and the
//! digest.

use vpn_core::creds::{Credentials, CredentialsError, Password};

fn parts(c: &Credentials) -> (String, String) {
    match c {
        Credentials::Password(p) => (p.username().to_string(), p.password().to_string()),
    }
}

#[test]
fn from_str_splits_at_the_first_colon() {
    let c = Credentials::from_str("test_user:test_pass").unwrap();
    let (u, p) = parts(&c);
    assert_eq!(u, "test_user");
    assert_eq!(p, "test_pass");

    let c = Credentials::from_str("user:pa:ss").unwrap();
    let (u, p) = parts(&c);
    assert_eq!(u, "user");
    assert_eq!(p, "pa:ss");

    let c = Credentials::from_str(":pw").unwrap();
    let (u, p) = parts(&c);
    assert_eq!(u, "");
    assert_eq!(p, "pw");
}

#[test]
fn from_str_without_colon_is_rejected() {
    let e = Credentials::from_str("no_colon_here").unwrap_err();
    assert_eq!(e, CredentialsError::MissingColon);
    assert_eq!(e.message(), "Invalid auth string: missing colon");
}

#[test]
fn matches_is_componentwise() {
    let a = Credentials::from_str("user:pass").unwrap();
    let b = Credentials::Password(Password::new("user", "pass"));
    let c = Credentials::from_str("user:other").unwrap();
    let d = Credentials::from_str("other:pass").unwrap();
    assert!(a.matches(&b));
    assert!(b.matches(&a));
    assert!(!a.matches(&c));
    assert!(!a.matches(&d));
}

#[test]
fn hashed_agrees_exactly_on_equal_credentials() {
    let a = Credentials::from_str("test_user:test_password").unwrap();
    let b = Credentials::Password(Password::new("test_user", "test_password"));
    assert_eq!(a.hashed(), b.hashed());
    assert_eq!(a.hashed().len(), 8);

    let c = Credentials::from_str("test_user:other").unwrap();
    assert_ne!(a.hashed(), c.hashed());

    // moving a byte between the parts changes the digest
    let d = Credentials::Password(Password::new("test_userx", "est_password"));
    assert_ne!(a.hashed(), d.hashed());
}
