//! Recomputation of a request signature: HMAC-SHA256 over the raw body,
//! encoded as standard base-64.
use vstd::prelude::*;
use vstd::utf8::encode_utf8;

use base64::Engine;
use hmac::Mac;

verus! {

/// The HMAC-SHA256 tag of `msg` under `key`.
pub uninterp spec fn hmac_sha256_of(key: Seq<u8>, msg: Seq<u8>) -> Seq<u8>;

/// The standard (padded) base-64 text of `bytes`.
pub uninterp spec fn base64_of(bytes: Seq<u8>) -> Seq<char>;

/// Relies on `hmac::Hmac::<sha2::Sha256>`: `new_from_slice` accepts a key of any
/// length, and `finalize` yields the 32-byte tag of everything passed to `update`.
#[verifier::external_body]
fn hmac_sha256(key: &[u8], msg: &[u8]) -> (r: Vec<u8>)
    ensures
        r@ == hmac_sha256_of(key@, msg@),
        r@.len() == 32,
{
    let mut mac = hmac::Hmac::<sha2::Sha256>::new_from_slice(key).expect("hmac takes any key length");
    mac.update(msg);
    mac.finalize().into_bytes().to_vec()
}

/// Relies on `base64::prelude::BASE64_STANDARD.encode`: the padded encoding, four
/// characters for each started group of three bytes.
#[verifier::external_body]
fn base64_encode(bytes: &[u8]) -> (r: String)
    requires
        bytes@.len() <= usize::MAX / 2,
    ensures
        r@ == base64_of(bytes@),
        r@.len() == 4 * ((bytes@.len() + 2) / 3),
{
    base64::prelude::BASE64_STANDARD.encode(bytes)
}

/// The signature that a relay computes for `body` with `secret`: the base-64 text
/// of the HMAC-SHA256 tag of the body under the secret's UTF-8 bytes.
pub open spec fn signature_of(body: Seq<u8>, secret: Seq<char>) -> Seq<char> {
    base64_of(hmac_sha256_of(encode_utf8(secret), body))
}

/// Signs `body` with `secret`.
pub fn sign(body: &[u8], secret: &str) -> (r: String)
    ensures
        r@ == signature_of(body@, secret@),
        r@.len() == 44,
{
    let tag = hmac_sha256(secret.as_bytes(), body);
    base64_encode(tag.as_slice())
}

/// Signing is a function of the body and the secret alone: two calls on the same
/// inputs give the same signature.
pub proof fn sign_is_deterministic(body: Seq<u8>, secret: Seq<char>, first: Seq<char>, second: Seq<char>)
    requires
        first == signature_of(body, secret),
        second == signature_of(body, secret),
    ensures
        first == second,
{
}

} // verus!
