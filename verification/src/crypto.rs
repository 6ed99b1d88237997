//! Message authentication, signatures, base 64, and comparison in constant time.
use base64::engine::general_purpose::STANDARD_NO_PAD;
use base64::Engine;
use ed25519_dalek::{Signature, VerifyingKey};
use hmac::{Hmac, Mac};
use sha2::Sha256;
use subtle::ConstantTimeEq;
use vstd::prelude::*;

verus! {

/// The HMAC-SHA256 of a message under a key.
pub uninterp spec fn hmac_sha256_of(key: Seq<u8>, message: Seq<u8>) -> Seq<u8>;

/// `hmac::Hmac` with `sha2::Sha256`, which takes keys of any length: 32 bytes. They are
/// given a name.
#[verifier::external_body]
pub(crate) fn hmac_sha256(key: &[u8], message: &[u8]) -> (r: Vec<u8>)
    ensures
        r@ == hmac_sha256_of(key@, message@),
        r@.len() == 32,
{
    let mut mac = Hmac::<Sha256>::new_from_slice(key).expect("HMAC accepts keys of any length");
    mac.update(message);
    mac.finalize().into_bytes().to_vec()
}

/// `subtle::ConstantTimeEq::ct_eq` on bytes: whether they are the same.
#[verifier::external_body]
pub(crate) fn same_bytes(a: &[u8], b: &[u8]) -> (r: bool)
    ensures
        r == (a@ == b@),
{
    bool::from(a.ct_eq(b))
}

/// The bytes that a text of base 64 without padding stands for.
pub uninterp spec fn base64_bytes(text: Seq<char>) -> Option<Seq<u8>>;

/// `base64::Engine::decode` with the standard alphabet and without padding. The bytes are
/// given a name.
#[verifier::external_body]
pub(crate) fn decode_base64(text: &str) -> (r: Option<Vec<u8>>)
    ensures
        match r {
            Some(bytes) => base64_bytes(text@) == Some(bytes@),
            None => base64_bytes(text@) is None,
        },
{
    STANDARD_NO_PAD.decode(text).ok()
}

/// Whether 32 bytes are a key that Ed25519 signatures are verified with.
pub uninterp spec fn ed25519_key(bytes: Seq<u8>) -> bool;

/// `ed25519_dalek::VerifyingKey::from_bytes`: whether it takes the bytes. Which ones it
/// takes is given a name.
#[verifier::external_body]
pub(crate) fn is_ed25519_key(bytes: &[u8]) -> (r: bool)
    requires
        bytes@.len() == 32,
    ensures
        r == ed25519_key(bytes@),
{
    VerifyingKey::from_bytes(bytes.try_into().expect("32 bytes")).is_ok()
}

/// Whether bytes are a signature of a message under a key.
pub uninterp spec fn ed25519_verifies(key: Seq<u8>, message: Seq<u8>, signature: Seq<u8>) -> bool;

/// `ed25519_dalek::VerifyingKey::verify_strict`: whether it takes the signature. Which
/// ones it takes is given a name.
#[verifier::external_body]
pub(crate) fn verify_ed25519(key: &[u8], message: &[u8], signature: &[u8]) -> (r: bool)
    requires
        key@.len() == 32,
        ed25519_key(key@),
        signature@.len() == 64,
    ensures
        r == ed25519_verifies(key@, message@, signature@),
{
    let key = VerifyingKey::from_bytes(key.try_into().expect("32 bytes")).expect("a key");
    let signature = Signature::from_slice(signature).expect("64 bytes");
    key.verify_strict(message, &signature).is_ok()
}

} // verus!
