use base64::Engine;
use bench_server::notify::{authorize_notification, signature_valid, target_repo};

fn keypair() -> (openssl::pkey::PKey<openssl::pkey::Private>, String) {
    let rsa = openssl::rsa::Rsa::generate(2048).unwrap();
    let public_pem = String::from_utf8(rsa.public_key_to_pem().unwrap()).unwrap();
    let key = openssl::pkey::PKey::from_rsa(rsa).unwrap();
    (key, public_pem)
}

fn sign(key: &openssl::pkey::PKey<openssl::pkey::Private>, payload: &[u8]) -> Vec<u8> {
    let mut signer =
        openssl::sign::Signer::new(openssl::hash::MessageDigest::sha1(), key).unwrap();
    signer.update(payload).unwrap();
    signer.sign_to_vec().unwrap()
}

fn b64(bytes: &[u8]) -> Vec<u8> {
    base64::engine::general_purpose::STANDARD
        .encode(bytes)
        .into_bytes()
}

#[test]
fn valid_signature_accepted_and_mutations_rejected() {
    // A correctly computed signature verifies; flipping one bit of the
    // payload or of the signature makes verification fail.
    let (key, public_pem) = keypair();
    let payload = b"{\"branch\":\"master\",\"commit\":\"abc123\"}";
    let signature = sign(&key, payload);

    assert!(signature_valid(&public_pem, payload, &b64(&signature)));

    let mut mutated_payload = payload.to_vec();
    mutated_payload[0] ^= 0x01;
    assert!(!signature_valid(&public_pem, &mutated_payload, &b64(&signature)));

    let mut mutated_signature = signature.clone();
    mutated_signature[0] ^= 0x01;
    assert!(!signature_valid(&public_pem, payload, &b64(&mutated_signature)));
}

#[test]
fn missing_signature_rejected() {
    assert!(!authorize_notification(target_repo(), None, b"payload"));
}

#[test]
fn wrong_repository_rejected() {
    let (key, _) = keypair();
    let payload = b"payload";
    let signature = b64(&sign(&key, payload));
    assert!(!authorize_notification("someone/else", Some(&signature), payload));
}

#[test]
fn undecodable_signature_rejected() {
    assert!(!authorize_notification(
        target_repo(),
        Some(b"*** not base64 ***"),
        b"payload"
    ));
}

#[test]
fn foreign_key_signature_rejected() {
    // A signature from a key other than the provider's does not authorize.
    let (key, _) = keypair();
    let payload = b"payload";
    let signature = b64(&sign(&key, payload));
    assert!(!authorize_notification(target_repo(), Some(&signature), payload));
}

#[test]
fn malformed_key_never_verifies() {
    assert!(!signature_valid("not a pem key", b"payload", &b64(b"junk")));
}
