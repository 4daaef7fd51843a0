use vstd::prelude::*;
use csrf::CsrfProtection;
use hmac::{Mac, NewMac};
use ring::rand::SecureRandom;
use crate::encoding::same_text;
use crate::error::Error;

verus! {

/// The tag that HMAC-SHA256 gives the empty message under `key`.
pub uninterp spec fn hmac_sha256_tag(key: Seq<u8>) -> Seq<u8>;

/// The URL-safe base64 text of the token that HMAC protection under
/// `key` makes of `value`.
pub uninterp spec fn csrf_token_text(key: Seq<u8>, value: Seq<u8>) -> Seq<char>;

/// `csrf::CsrfError`, the crate's error. It is only carried through.
#[verifier::external_type_specification]
#[verifier::external_body]
pub struct ExCsrfError(csrf::CsrfError);

/// `ring::rand::SystemRandom::fill` on a fresh buffer of `len` bytes.
/// Nothing is said of the bytes: they are random. `None` where the
/// system's generator failed.
#[verifier::external_body]
fn random_bytes(len: usize) -> (r: Option<Vec<u8>>)
    ensures
        r is Some ==> r->0@.len() == len,
{
    let mut bytes = vec![0u8; len];
    match ring::rand::SystemRandom::new().fill(&mut bytes) {
        Ok(_) => Some(bytes),
        Err(_) => None,
    }
}

/// `hmac::Hmac::<Sha256>::new_varkey` on `seed`, finalised without any
/// input. The crate accepts a key of any length, and the tag of SHA-256
/// has 32 bytes.
#[verifier::external_body]
fn hmac_sha256_key(seed: &Vec<u8>) -> (r: Option<Vec<u8>>)
    ensures
        r is Some,
        r->0@ == hmac_sha256_tag(seed@),
        r->0@.len() == 32,
{
    match hmac::Hmac::<sha2::Sha256>::new_varkey(seed) {
        Ok(mac) => Some(mac.finalize().into_bytes().to_vec()),
        Err(_) => None,
    }
}

/// `csrf::HmacCsrfProtection::generate_token` under `key` on `value`,
/// then `CsrfToken::b64_url_string`. The crate's HMAC protection computes
/// the token from key and value alone and always returns one.
#[verifier::external_body]
fn hmac_csrf_token(key: &Vec<u8>, value: &Vec<u8>) -> (r: Result<String, csrf::CsrfError>)
    requires
        key@.len() == 32,
        value@.len() == 64,
    ensures
        r is Ok,
        r->Ok_0@ == csrf_token_text(key@, value@),
{
    let mut k = [0u8; 32];
    k.copy_from_slice(key);
    let mut v = [0u8; 64];
    v.copy_from_slice(value);
    csrf::HmacCsrfProtection::from_key(k).generate_token(&v).map(|t| t.b64_url_string())
}

/// The state that a seed of 32 bytes and a value of 64 bytes give: the
/// token of the value under the key derived from the seed.
pub open spec fn state_text(seed: Seq<u8>, value: Seq<u8>) -> Seq<char> {
    csrf_token_text(hmac_sha256_tag(seed), value)
}

/// The anti-forgery state for a seed and a value. Both have to be of the
/// right length: 32 and 64 bytes.
pub fn state_from(seed: &Vec<u8>, value: &Vec<u8>) -> (r: Result<String, Error>)
    ensures
        r is Ok == (seed@.len() == 32 && value@.len() == 64),
        match r {
            Ok(state) => state@ == state_text(seed@, value@),
            Err(e) => e == Error::Auth,
        },
{
    if seed.len() != 32 || value.len() != 64 {
        return Err(Error::Auth);
    }
    let key = match hmac_sha256_key(seed) {
        Some(key) => key,
        None => {
            return Err(Error::Auth);
        },
    };
    match hmac_csrf_token(&key, value) {
        Ok(state) => Ok(state),
        Err(_) => Err(Error::Auth),
    }
}

/// A fresh, unpredictable state for one authentication attempt: the
/// state of 32 and 64 random bytes. `Auth` where the system's random
/// generator failed.
pub fn generate_state() -> (r: Result<String, Error>)
    ensures
        match r {
            Ok(state) => exists|seed: Seq<u8>, value: Seq<u8>|
                seed.len() == 32 && value.len() == 64 && state@ == #[trigger] state_text(
                    seed,
                    value,
                ),
            Err(e) => e == Error::Auth,
        },
{
    let seed = match random_bytes(32) {
        Some(bytes) => bytes,
        None => {
            return Err(Error::Auth);
        },
    };
    let value = match random_bytes(64) {
        Some(bytes) => bytes,
        None => {
            return Err(Error::Auth);
        },
    };
    let r = state_from(&seed, &value);
    assert(r is Ok ==> r->Ok_0@ == state_text(seed@, value@));
    r
}

/// Whether the state that came back with the redirect is the state that
/// was generated for this attempt: the same characters, all of them.
pub fn validate(received: &str, expected: &str) -> (r: bool)
    ensures
        r == (received@ == expected@),
{
    same_text(received, expected)
}

} // verus!
