use vstd::prelude::*;

use base64::Engine;

use crate::strutil::str_eq;

verus! {

// Authenticating an inbound notification before anything acts on it: the
// originating repository must be the allowed one, and the request body must
// carry a signature made with the CI provider's private key over the exact
// payload bytes. Every failure looks the same to the caller: the request is
// simply not authorized.

/// The public key the CI provider signs its webhook payloads with.
pub open spec fn provider_key_spec() -> Seq<char> {
    "-----BEGIN PUBLIC KEY-----\nMIIBIjANBgkqhkiG9w0BAQEFAAOCAQ8AMIIBCgKCAQEAvtjdLkS+FP+0fPC09j25\ny/PiuYDDivIT86COVedvlElk99BBYTrqNaJybxjXbIZ1Q6xFNhOY+iTcBr4E1zJu\ntizF3Xi0V9tOuP/M8Wn4Y/1lCWbQKlWrNQuqNBmhovF4K3mDCYswVbpgTmp+JQYu\nBm9QMdieZMNry5s6aiMA9aSjDlNyedvSENYo18F+NYg1J0C0JiPYTxheCb4optr1\n5xNzFKhAkuGs4XTOA5C7Q06GCKtDNf44s/CVE30KODUxBi0MCKaxiXw/yy55zxX2\n/YdGphIyQiA5iO1986ZmZCLLW8udz9uhW5jUr3Jlp9LbmphAC61bVSf4ou2YsJaN\n0QIDAQAB\n-----END PUBLIC KEY-----"@
}

/// The public key the CI provider signs its webhook payloads with.
pub fn provider_key() -> (r: &'static str)
    ensures
        r@ == provider_key_spec(),
{
    "-----BEGIN PUBLIC KEY-----\nMIIBIjANBgkqhkiG9w0BAQEFAAOCAQ8AMIIBCgKCAQEAvtjdLkS+FP+0fPC09j25\ny/PiuYDDivIT86COVedvlElk99BBYTrqNaJybxjXbIZ1Q6xFNhOY+iTcBr4E1zJu\ntizF3Xi0V9tOuP/M8Wn4Y/1lCWbQKlWrNQuqNBmhovF4K3mDCYswVbpgTmp+JQYu\nBm9QMdieZMNry5s6aiMA9aSjDlNyedvSENYo18F+NYg1J0C0JiPYTxheCb4optr1\n5xNzFKhAkuGs4XTOA5C7Q06GCKtDNf44s/CVE30KODUxBi0MCKaxiXw/yy55zxX2\n/YdGphIyQiA5iO1986ZmZCLLW8udz9uhW5jUr3Jlp9LbmphAC61bVSf4ou2YsJaN\n0QIDAQAB\n-----END PUBLIC KEY-----"
}

/// The only repository whose notifications are accepted.
pub open spec fn target_repo_spec() -> Seq<char> {
    "jwilm/alacritty"@
}

/// The only repository whose notifications are accepted.
pub fn target_repo() -> (r: &'static str)
    ensures
        r@ == target_repo_spec(),
{
    "jwilm/alacritty"
}

/// What base64 decoding of `s` yields under the standard alphabet with
/// padding: the decoded bytes, or nothing when `s` is no valid encoding.
pub uninterp spec fn base64_decoded(s: Seq<u8>) -> Option<Seq<u8>>;

/// Relies on base64's `Engine::decode` with the `STANDARD` engine: decodes
/// the standard padded alphabet, rejecting anything else; the result depends
/// on the input bytes alone.
#[verifier::external_body]
fn decode_base64(sig: &[u8]) -> (r: Option<Vec<u8>>)
    ensures
        (r is Some) == (base64_decoded(sig@) is Some),
        r is Some ==> r.unwrap()@ == base64_decoded(sig@).unwrap(),
{
    base64::engine::general_purpose::STANDARD.decode(sig).ok()
}

/// Whether `sig` is a valid RSA PKCS#1 signature with a SHA-1 digest over
/// `payload` under the PEM-encoded public key `key`.
pub uninterp spec fn rsa_sha1_verified(key: Seq<char>, payload: Seq<u8>, sig: Seq<u8>) -> bool;

/// Relies on openssl: `Rsa::public_key_from_pem` reads the PEM key,
/// `PKey::from_rsa` wraps it, and `Verifier` with a SHA-1 digest checks the
/// RSA PKCS#1 signature over the payload bytes. The outcome depends on the
/// three inputs alone; any error along the way counts as failed verification.
#[verifier::external_body]
fn rsa_sha1_verify(key: &str, payload: &[u8], sig: &[u8]) -> (r: bool)
    ensures
        r == rsa_sha1_verified(key@, payload@, sig@),
{
    let outcome = openssl::rsa::Rsa::public_key_from_pem(key.as_bytes())
        .and_then(openssl::pkey::PKey::from_rsa)
        .and_then(|pkey| {
            let mut verifier = openssl::sign::Verifier::new(
                openssl::hash::MessageDigest::sha1(),
                &pkey,
            )?;
            verifier.update(payload)?;
            verifier.verify(sig)
        });
    matches!(outcome, Ok(true))
}

/// Whether `sig_b64` decodes as base64 into a valid RSA-SHA1 signature over
/// `payload` under the PEM key `key`.
pub open spec fn signature_valid_spec(key: Seq<char>, payload: Seq<u8>, sig_b64: Seq<u8>) -> bool {
    match base64_decoded(sig_b64) {
        Some(d) => rsa_sha1_verified(key, payload, d),
        None => false,
    }
}

/// Decides `signature_valid_spec`: base64-decodes the signature and verifies
/// it over the payload bytes under the given PEM key.
pub fn signature_valid(key: &str, payload: &[u8], sig_b64: &[u8]) -> (r: bool)
    ensures
        r == signature_valid_spec(key@, payload@, sig_b64@),
{
    match decode_base64(sig_b64) {
        Some(d) => rsa_sha1_verify(key, payload, d.as_slice()),
        None => false,
    }
}

/// An authorized notification: sent for the allowed repository, carrying a
/// signature header that decodes as base64, whose decoded bytes verify as
/// the provider's RSA-SHA1 signature over the exact payload bytes. A missing
/// header, undecodable base64, and failed verification are all equally
/// unauthorized.
pub open spec fn notification_authorized(
    repo: Seq<char>,
    sig_header: Option<Seq<u8>>,
    payload: Seq<u8>,
) -> bool {
    &&& repo == target_repo_spec()
    &&& match sig_header {
        Some(s) => signature_valid_spec(provider_key_spec(), payload, s),
        None => false,
    }
}

/// Decides whether a notification is authorized, from the repository header
/// value, the signature header value if present, and the exact payload bytes
/// as received.
pub fn authorize_notification(repo: &str, sig_header: Option<&[u8]>, payload: &[u8]) -> (r: bool)
    ensures
        r == notification_authorized(
            repo@,
            match sig_header {
                Some(s) => Some(s@),
                None => None,
            },
            payload@,
        ),
{
    if !str_eq(repo, target_repo()) {
        return false;
    }
    let sig = match sig_header {
        Some(s) => s,
        None => {
            return false;
        },
    };
    signature_valid(provider_key(), payload, sig)
}

} // verus!
