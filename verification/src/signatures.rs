//! Signature and digest verification for inbound requests, and the
//! mirrored signing discipline for outbound ones.

use crate::crypto::{
    base64_decode, base64_encode, base64_of, check_signature, public_key_of, sha256, sha256_of,
    sign, signature_checks, signature_of,
};
use crate::errors::Error;
use crate::signing::{build_signing_string, char_bytes, spec_signing_string, string_to_bytes, Header};
use vstd::prelude::*;

verus! {

/// The ephemeral, per-request signature structure: who signed, which
/// headers the signature covers, and the encoded signature value. It lives
/// only for the duration of verification and is never persisted.
pub struct Signature {
    pub key_id: String,
    pub headers: Vec<String>,
    pub signature: String,
}

/// Whether `sig_b64` is the base64 rendering of a signature on `payload`
/// that checks under `key`.
pub open spec fn payload_sig_ok(key: Seq<u8>, payload: Seq<char>, sig_b64: Seq<char>) -> bool {
    exists|b: Seq<u8>|
        sig_b64 == base64_of(b) && #[trigger] signature_checks(key, char_bytes(payload), b)
}

/// Whether a signature claiming `claimed` headers checks under `key`
/// against the canonical signing string of `hs`.
pub open spec fn http_signature_ok(
    key: Seq<u8>,
    hs: Seq<Header>,
    claimed: Seq<Seq<char>>,
    sig_b64: Seq<char>,
) -> bool {
    match spec_signing_string(hs, claimed) {
        Some(ss) => payload_sig_ok(key, ss, sig_b64),
        None => false,
    }
}

/// Check an encoded signature value against a payload and a key.
pub fn verify_payload_signature(key: &Vec<u8>, payload: &str, sig_b64: &String) -> (r: bool)
    ensures
        r == payload_sig_ok(key@, payload@, sig_b64@),
{
    let msg = string_to_bytes(payload);
    match base64_decode(sig_b64.as_str()) {
        Some(b) => {
            let ok = check_signature(key.as_slice(), msg.as_slice(), b.as_slice());
            proof {
                if ok {
                    assert(sig_b64@ == base64_of(b@) && signature_checks(
                        key@,
                        char_bytes(payload@),
                        b@,
                    ));
                }
                if !ok && payload_sig_ok(key@, payload@, sig_b64@) {
                    let w = choose|w: Seq<u8>|
                        sig_b64@ == base64_of(w) && #[trigger] signature_checks(
                            key@,
                            char_bytes(payload@),
                            w,
                        );
                    assert(w == b@);
                }
            }
            ok
        },
        None => {
            proof {
                if payload_sig_ok(key@, payload@, sig_b64@) {
                    let w = choose|w: Seq<u8>|
                        sig_b64@ == base64_of(w) && #[trigger] signature_checks(
                            key@,
                            char_bytes(payload@),
                            w,
                        );
                }
            }
            false
        },
    }
}

/// Produce the encoded signature of a payload under a secret key. The
/// result verifies under the derived public key.
pub fn sign_payload(secret: &Vec<u8>, payload: &str) -> (r: String)
    requires
        secret@.len() == 32,
    ensures
        r@ == base64_of(signature_of(secret@, char_bytes(payload@))),
        payload_sig_ok(public_key_of(secret@), payload@, r@),
{
    let msg = string_to_bytes(payload);
    let raw = sign(secret.as_slice(), msg.as_slice());
    let encoded = base64_encode(raw.as_slice());
    proof {
        assert(encoded@ == base64_of(raw@) && signature_checks(
            public_key_of(secret@),
            char_bytes(payload@),
            raw@,
        ));
    }
    encoded
}

/// Produce the embedded object-level signature of an activity: the
/// encoded signature of its canonical rendering, evaluated without regard
/// to any request header.
pub fn sign_activity(secret: &Vec<u8>, act: &crate::model::Activity) -> (r: String)
    requires
        secret@.len() == 32,
    ensures
        payload_sig_ok(public_key_of(secret@), crate::render::render_activity(*act), r@),
{
    let payload = crate::render::render(act);
    sign_payload(secret, payload.as_str())
}

/// Verify an HTTP-header signature: rebuild the signing string the
/// signature claims and check the signature value against the key.
pub fn verify_http_signature(key: &Vec<u8>, hs: &Vec<Header>, sig: &Signature) -> (r: bool)
    ensures
        r == http_signature_ok(key@, hs@, sig.headers.deep_view(), sig.signature@),
{
    match build_signing_string(hs, &sig.headers) {
        Ok(ss) => verify_payload_signature(key, ss.as_str(), &sig.signature),
        Err(_) => false,
    }
}

/// Sign a request: build the canonical string over the claimed headers and
/// produce a signature that verifies under the signer's public key.
/// Fails exactly when a claimed header is absent.
pub fn sign_request(secret: &Vec<u8>, hs: &Vec<Header>, claimed: Vec<String>, key_id: String) -> (r:
    Result<Signature, Error>)
    requires
        secret@.len() == 32,
    ensures
        match r {
            Ok(sig) => {
                &&& http_signature_ok(
                    public_key_of(secret@),
                    hs@,
                    sig.headers.deep_view(),
                    sig.signature@,
                )
                &&& sig.headers.deep_view() == claimed.deep_view()
                &&& sig.key_id == key_id
            },
            Err(e) => e == Error::MalformedSignature && spec_signing_string(
                hs@,
                claimed.deep_view(),
            ) is None,
        },
{
    let ss = match build_signing_string(hs, &claimed) {
        Ok(ss) => ss,
        Err(e) => {
            return Err(e);
        },
    };
    let signature = sign_payload(secret, ss.as_str());
    Ok(Signature { key_id, headers: claimed, signature })
}

/// What the digest header must carry for a body.
pub open spec fn spec_digest_value(body: Seq<u8>) -> Seq<char> {
    "SHA-256="@ + base64_of(sha256_of(body))
}

/// Compute the digest header value of a body.
pub fn digest_value(body: &Vec<u8>) -> (r: String)
    ensures
        r@ == spec_digest_value(body@),
{
    let hash = sha256(body.as_slice());
    let encoded = base64_encode(hash.as_slice());
    let mut r = String::from_str("SHA-256=");
    proof {
        reveal_strlit("SHA-256=");
    }
    r.append(encoded.as_str());
    r
}

/// Whether a claimed digest header matches the body.
pub fn digest_matches(claimed: &String, body: &Vec<u8>) -> (r: bool)
    ensures
        r == (claimed@ == spec_digest_value(body@)),
{
    let expected = digest_value(body);
    claimed.eq(&expected)
}

} // verus!
