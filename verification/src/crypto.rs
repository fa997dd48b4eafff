//! Trusted boundary to the cryptographic primitives.
//!
//! The engine treats a digest, a base64 rendering and an Ed25519 signature
//! as named functions of their inputs; the wrappers below are the only
//! places where the outside crates are called.

use base64::Engine;
use ed25519_dalek::Signer;
use sha2::Digest;
use vstd::prelude::*;

verus! {

/// The SHA-256 digest of a byte sequence.
pub uninterp spec fn sha256_of(bytes: Seq<u8>) -> Seq<u8>;

/// The standard (padded) base64 rendering of a byte sequence.
pub uninterp spec fn base64_of(bytes: Seq<u8>) -> Seq<char>;

/// The Ed25519 verifying key derived from a 32-byte secret key.
pub uninterp spec fn public_key_of(secret: Seq<u8>) -> Seq<u8>;

/// The Ed25519 signature of a message under a 32-byte secret key.
/// Ed25519 signing is deterministic, so the signature is a function of the
/// key and the message alone.
pub uninterp spec fn signature_of(secret: Seq<u8>, msg: Seq<u8>) -> Seq<u8>;

/// Whether Ed25519 strict verification accepts `sig` as a signature on
/// `msg` under the verifying key `public`. Verification is deterministic,
/// and rejects whenever `public` or `sig` is not well-formed.
pub uninterp spec fn signature_checks(public: Seq<u8>, msg: Seq<u8>, sig: Seq<u8>) -> bool;

/// Relies on sha2::Sha256: a 32-byte digest that depends on the input bytes
/// alone.
#[verifier::external_body]
pub(crate) fn sha256(bytes: &[u8]) -> (r: Vec<u8>)
    ensures
        r@ == sha256_of(bytes@),
        r@.len() == 32,
{
    sha2::Sha256::digest(bytes).to_vec()
}

/// Relies on base64::engine::general_purpose::STANDARD.encode: the padded
/// rendering depends on the input bytes alone, and is empty exactly for an
/// empty input.
#[verifier::external_body]
pub(crate) fn base64_encode(bytes: &[u8]) -> (r: String)
    ensures
        r@ == base64_of(bytes@),
        bytes@.len() == 0 ==> r@.len() == 0,
{
    base64::engine::general_purpose::STANDARD.encode(bytes)
}

/// Relies on base64::engine::general_purpose::STANDARD.decode: decoding is
/// the inverse of encoding, and accepts exactly the strings that encoding
/// produces.
#[verifier::external_body]
pub(crate) fn base64_decode(s: &str) -> (r: Option<Vec<u8>>)
    ensures
        r is Some ==> s@ == base64_of(r.unwrap()@),
        forall|b: Seq<u8>| s@ == base64_of(b) ==> r is Some && r.unwrap()@ == b,
{
    base64::engine::general_purpose::STANDARD.decode(s).ok()
}

/// Relies on ed25519_dalek::SigningKey::verifying_key: the verifying key is
/// derived from the secret key alone, and is 32 bytes long.
#[verifier::external_body]
pub(crate) fn derive_public_key(secret: &[u8]) -> (r: Vec<u8>)
    requires
        secret@.len() == 32,
    ensures
        r@ == public_key_of(secret@),
        r@.len() == 32,
{
    let bytes: [u8; 32] = secret.try_into().unwrap();
    let key = ed25519_dalek::SigningKey::from_bytes(&bytes);
    key.verifying_key().to_bytes().to_vec()
}

/// Relies on ed25519_dalek::SigningKey::sign: Ed25519 signing is
/// deterministic, produces a 64-byte signature, and a signature made with a
/// secret key passes strict verification under the derived verifying key.
#[verifier::external_body]
pub(crate) fn sign(secret: &[u8], msg: &[u8]) -> (r: Vec<u8>)
    requires
        secret@.len() == 32,
    ensures
        r@ == signature_of(secret@, msg@),
        r@.len() == 64,
        signature_checks(public_key_of(secret@), msg@, r@),
{
    let bytes: [u8; 32] = secret.try_into().unwrap();
    let key = ed25519_dalek::SigningKey::from_bytes(&bytes);
    key.sign(msg).to_bytes().to_vec()
}

/// Relies on ed25519_dalek::VerifyingKey::verify_strict: acceptance is a
/// deterministic function of the key bytes, the message and the signature
/// bytes; a malformed key or signature is rejected.
#[verifier::external_body]
pub(crate) fn check_signature(public: &[u8], msg: &[u8], sig: &[u8]) -> (r: bool)
    ensures
        r == signature_checks(public@, msg@, sig@),
{
    let pk_bytes: [u8; 32] = match public.try_into() {
        Ok(b) => b,
        Err(_) => return false,
    };
    let key = match ed25519_dalek::VerifyingKey::from_bytes(&pk_bytes) {
        Ok(k) => k,
        Err(_) => return false,
    };
    let signature = match ed25519_dalek::Signature::from_slice(sig) {
        Ok(s) => s,
        Err(_) => return false,
    };
    key.verify_strict(msg, &signature).is_ok()
}

} // verus!
