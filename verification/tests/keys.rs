use aes_gcm::aead::{Aead, KeyInit};
use base64::Engine;
use omni_stream::keys::{
    key_reply, open_parts, set_api_keys, try_set_api_keys, EncryptedPayload, KeyOutcome,
};

fn key() -> Vec<u8> {
    (0..32).collect()
}

fn sealed(message: &[u8]) -> Vec<u8> {
    let cipher = aes_gcm::Aes256Gcm::new(aes_gcm::Key::<aes_gcm::Aes256Gcm>::from_slice(&key()));
    cipher.encrypt(aes_gcm::Nonce::from_slice(&[7u8; 12]), message).unwrap()
}

fn encoded(bytes: &[u8]) -> String {
    base64::engine::general_purpose::STANDARD.encode(bytes)
}

fn payload(iv: &[u8], ciphertext: &[u8]) -> EncryptedPayload {
    EncryptedPayload { iv: encoded(iv), ciphertext: encoded(ciphertext) }
}

#[test]
fn sealed_key_is_received() {
    let r = set_api_keys(&key(), &payload(&[7; 12], &sealed(b"nvapi-secret")));
    assert_eq!(r.status, 200);
    assert_eq!(r.text, "API Key securely received and decrypted.");
}

#[test]
fn reply_is_the_same_for_any_message() {
    let a = set_api_keys(&key(), &payload(&[7; 12], &sealed(b"one")));
    let b = set_api_keys(&key(), &payload(&[7; 12], &sealed(b"another, longer")));
    assert_eq!(a, b);
}

#[test]
fn altered_key_is_refused() {
    let mut bytes = sealed(b"nvapi-secret");
    bytes[0] ^= 1;
    let r = set_api_keys(&key(), &payload(&[7; 12], &bytes));
    assert_eq!((r.status, r.text.as_str()), (400, "Decryption failed"));
    let r = set_api_keys(&key(), &payload(&[8; 12], &sealed(b"nvapi-secret")));
    assert_eq!((r.status, r.text.as_str()), (400, "Decryption failed"));
    let mut other = key();
    other[31] ^= 1;
    let r = set_api_keys(&other, &payload(&[7; 12], &sealed(b"nvapi-secret")));
    assert_eq!((r.status, r.text.as_str()), (400, "Decryption failed"));
}

#[test]
fn short_ciphertext_is_refused() {
    let r = set_api_keys(&key(), &payload(&[7; 12], &[0; 15]));
    assert_eq!(r.status, 400);
    let r = set_api_keys(&key(), &payload(&[7; 12], &[1, 2, 3]));
    assert_eq!((r.status, r.text.as_str()), (400, "Decryption failed"));
}

#[test]
fn text_that_is_not_base64_is_refused() {
    let bad_iv = EncryptedPayload { iv: "!".to_string(), ciphertext: "!".to_string() };
    let r = set_api_keys(&key(), &bad_iv);
    assert_eq!((r.status, r.text.as_str()), (400, "Invalid IV base64"));
    let bad_text = EncryptedPayload { iv: encoded(&[7; 12]), ciphertext: "abc".to_string() };
    let r = set_api_keys(&key(), &bad_text);
    assert_eq!((r.status, r.text.as_str()), (400, "Invalid ciphertext base64"));
}

#[test]
fn lengths_that_the_cipher_does_not_take() {
    let good = payload(&[7; 12], &sealed(b"k"));
    assert_eq!(try_set_api_keys(&vec![0; 16], &good), None);
    assert_eq!(try_set_api_keys(&key(), &payload(&[7; 11], &sealed(b"k"))), None);
    assert_eq!(try_set_api_keys(&key(), &payload(&[], b"")), None);
    assert_eq!(try_set_api_keys(&key(), &good).unwrap().status, 200);
    let bad_iv = EncryptedPayload { iv: "!".to_string(), ciphertext: String::new() };
    assert_eq!(try_set_api_keys(&key(), &bad_iv).unwrap().text, "Invalid IV base64");
}

#[test]
fn parts_decide_the_outcome() {
    assert_eq!(open_parts(&key(), None, None), KeyOutcome::BadIv);
    assert_eq!(open_parts(&key(), Some(vec![7; 12]), None), KeyOutcome::BadCiphertext);
    assert_eq!(open_parts(&key(), Some(vec![7; 12]), Some(vec![])), KeyOutcome::NotOpened);
    assert_eq!(open_parts(&key(), Some(vec![7; 12]), Some(sealed(b""))), KeyOutcome::Received);
    assert_eq!(key_reply(KeyOutcome::NotOpened).text, "Decryption failed");
}
