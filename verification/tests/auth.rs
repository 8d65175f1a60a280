use hmac::{Hmac, Mac};
use sha2::Sha256;

use matrix_webhook::auth::verify_hmac;

fn make_digest(body: &[u8], key: &str) -> String {
    let mut mac = <Hmac<Sha256> as Mac>::new_from_slice(key.as_bytes()).unwrap();
    mac.update(body);
    hex::encode(mac.finalize().into_bytes())
}

#[test]
fn correct_digest_accepted() {
    let body = b"{\"body\":\"hello\"}";
    let digest = make_digest(body, "secret");
    assert!(verify_hmac(body, "secret", &digest));
}

#[test]
fn wrong_digest_rejected() {
    assert!(!verify_hmac(b"hello", "secret", "deadbeef"));
}

#[test]
fn wrong_key_rejected() {
    let body = b"hello";
    let digest = make_digest(body, "correct-key");
    assert!(!verify_hmac(body, "wrong-key", &digest));
}

#[test]
fn tampered_body_rejected() {
    let digest = make_digest(b"original body", "key");
    assert!(!verify_hmac(b"tampered body", "key", &digest));
}

#[test]
fn empty_body_accepted() {
    let digest = make_digest(b"", "key");
    assert!(verify_hmac(b"", "key", &digest));
}

#[test]
fn known_digest_value_accepted() {
    // HMAC-SHA256 of "The quick brown fox jumps over the lazy dog" keyed with "key".
    let digest = "f7bc83f430538424b13298e6aa6fb143ef4d59a14946175997479dbc2d1a3cd8";
    assert!(verify_hmac(b"The quick brown fox jumps over the lazy dog", "key", digest));
}

#[test]
fn uppercase_digest_rejected() {
    let digest = make_digest(b"payload", "key").to_uppercase();
    assert!(!verify_hmac(b"payload", "key", &digest));
}
