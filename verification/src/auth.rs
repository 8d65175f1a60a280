use vstd::prelude::*;

use hmac::{Hmac, Mac};
use sha2::Sha256;

use crate::text::{hex_digit_spec, str_eq};
use vstd::utf8::encode_utf8;

verus! {

/// What HMAC-SHA256 (`hmac::Hmac<sha2::Sha256>`) of `message` under `key` is.
pub uninterp spec fn hmac_sha256(key: Seq<u8>, message: Seq<u8>) -> Seq<u8>;

/// Calls `Hmac::<Sha256>::new_from_slice(key)`, `update(message)` and
/// `finalize()`: the 32-byte tag, named by `hmac_sha256`. HMAC takes keys of any
/// length, so `new_from_slice` does not fail.
#[verifier::external_body]
fn hmac_sha256_tag(key: &[u8], message: &[u8]) -> (r: Vec<u8>)
    ensures
        r@ == hmac_sha256(key@, message@),
        r@.len() == 32,
{
    let mut mac = <Hmac<Sha256> as Mac>::new_from_slice(key).expect("HMAC accepts any key length");
    mac.update(message);
    mac.finalize().into_bytes().to_vec()
}

/// Lowercase hexadecimal, two digits per byte, high nibble first.
pub open spec fn hex_lower(bytes: Seq<u8>) -> Seq<char>
    decreases bytes.len(),
{
    if bytes.len() == 0 {
        seq![]
    } else {
        hex_lower(bytes.drop_last()) + seq![
            hex_digit_spec((bytes.last() / 16) as u32),
            hex_digit_spec((bytes.last() % 16) as u32),
        ]
    }
}

/// Two digits per byte.
pub proof fn lemma_hex_lower_len(bytes: Seq<u8>)
    ensures
        hex_lower(bytes).len() == 2 * bytes.len(),
    decreases bytes.len(),
{
    if bytes.len() > 0 {
        lemma_hex_lower_len(bytes.drop_last());
    }
}

/// Calls `hex::encode`, which writes each byte as two lowercase hex digits.
#[verifier::external_body]
fn hex_encode(bytes: &[u8]) -> (r: String)
    ensures
        r@ == hex_lower(bytes@),
{
    hex::encode(bytes)
}

/// The digest that authenticates `body` under `api_key`: the hex-encoded
/// HMAC-SHA256 of the body keyed with the UTF-8 bytes of the key.
pub open spec fn expected_digest(body: Seq<u8>, key_bytes: Seq<u8>) -> Seq<char> {
    hex_lower(hmac_sha256(key_bytes, body))
}

/// Returns true if `digest` equals the hex-encoded HMAC-SHA256 of `body` keyed
/// with `api_key`. That digest has 64 characters, so a digest of any other
/// length is refused.
pub fn verify_hmac(body: &[u8], api_key: &str, digest: &str) -> (r: bool)
    ensures
        r == (digest@ == expected_digest(body@, encode_utf8(api_key@))),
        expected_digest(body@, encode_utf8(api_key@)).len() == 64,
        digest@.len() != 64 ==> !r,
{
    let tag = hmac_sha256_tag(api_key.as_bytes(), body);
    proof {
        lemma_hex_lower_len(tag@);
    }
    let expected = hex_encode(tag.as_slice());
    str_eq(expected.as_str(), digest)
}

} // verus!
