//! Receiving an encrypted API key. The key is opened only to see whether it can be; it is neither
//! kept nor shown.

use aes_gcm::aead::{Aead, KeyInit};
use base64::Engine;
use vstd::prelude::*;

verus! {

/// `aes_gcm::Error`: that a message cannot be opened, opaque here.
#[verifier::external_type_specification]
#[verifier::external_body]
pub struct ExAeadError(aes_gcm::Error);

/// `base64::DecodeError`: why a text is not base64, opaque here.
#[verifier::external_type_specification]
#[verifier::external_body]
pub struct ExDecodeError(base64::DecodeError);

/// The bytes that a text spells in standard base64 with padding, if it does.
pub uninterp spec fn base64_decoded(text: Seq<char>) -> Option<Seq<u8>>;

/// The message that AES-256-GCM opens, without associated data, if it is authentic.
pub uninterp spec fn aes_gcm_opened(
    key: Seq<u8>,
    nonce: Seq<u8>,
    ciphertext: Seq<u8>,
) -> Option<Seq<u8>>;

/// `base64::Engine::decode` of the engine `STANDARD`: the bytes that a text spells, or an error.
#[verifier::external_body]
fn base64_decode(text: &str) -> (r: Result<Vec<u8>, base64::DecodeError>)
    ensures
        match r {
            Ok(bytes) => base64_decoded(text@) == Some(bytes@),
            Err(_) => base64_decoded(text@) is None,
        },
{
    base64::engine::general_purpose::STANDARD.decode(text)
}

/// `aes_gcm::aead::Aead::decrypt` of `Aes256Gcm`: the message that a key and a nonce open, or an
/// error where the tag does not fit. The tag takes the last sixteen bytes of the ciphertext. Keys
/// and nonces of another length make the crate panic.
#[verifier::external_body]
fn aes_gcm_open(key: &Vec<u8>, nonce: &Vec<u8>, ciphertext: &Vec<u8>) -> (r: Result<
    Vec<u8>,
    aes_gcm::Error,
>)
    requires
        key@.len() == 32,
        nonce@.len() == 12,
    ensures
        match r {
            Ok(message) => aes_gcm_opened(key@, nonce@, ciphertext@) == Some(message@)
                && ciphertext@.len() == message@.len() + 16,
            Err(_) => aes_gcm_opened(key@, nonce@, ciphertext@) is None,
        },
{
    let cipher = aes_gcm::Aes256Gcm::new(aes_gcm::Key::<aes_gcm::Aes256Gcm>::from_slice(key));
    cipher.decrypt(aes_gcm::Nonce::from_slice(nonce), ciphertext.as_slice())
}

/// An encrypted key as it is sent, both parts in base64.
#[derive(Debug, PartialEq, Eq)]
pub struct EncryptedPayload {
    pub iv: String,
    pub ciphertext: String,
}

/// A reply of plain text.
#[derive(Debug, PartialEq, Eq)]
pub struct TextReply {
    pub status: u16,
    pub text: String,
}

/// What became of an encrypted key.
#[derive(Debug, PartialEq, Eq)]
pub enum KeyOutcome {
    BadIv,
    BadCiphertext,
    NotOpened,
    Received,
}

/// The reply to an outcome.
pub open spec fn key_reply_text(outcome: KeyOutcome) -> (u16, Seq<char>) {
    match outcome {
        KeyOutcome::BadIv => (400, "Invalid IV base64"@),
        KeyOutcome::BadCiphertext => (400, "Invalid ciphertext base64"@),
        KeyOutcome::NotOpened => (400, "Decryption failed"@),
        KeyOutcome::Received => (200, "API Key securely received and decrypted."@),
    }
}

/// What becomes of a payload under a key.
pub open spec fn key_outcome(
    key: Seq<u8>,
    iv: Option<Seq<u8>>,
    ciphertext: Option<Seq<u8>>,
) -> KeyOutcome {
    match (iv, ciphertext) {
        (None, _) => KeyOutcome::BadIv,
        (Some(_), None) => KeyOutcome::BadCiphertext,
        (Some(nonce), Some(ciphertext)) => if aes_gcm_opened(key, nonce, ciphertext) is Some {
            KeyOutcome::Received
        } else {
            KeyOutcome::NotOpened
        },
    }
}

/// Replies to an outcome.
pub fn key_reply(outcome: KeyOutcome) -> (r: TextReply)
    ensures
        (r.status, r.text@) == key_reply_text(outcome),
{
    match outcome {
        KeyOutcome::BadIv => TextReply { status: 400, text: "Invalid IV base64".to_owned() },
        KeyOutcome::BadCiphertext => TextReply {
            status: 400,
            text: "Invalid ciphertext base64".to_owned(),
        },
        KeyOutcome::NotOpened => TextReply { status: 400, text: "Decryption failed".to_owned() },
        KeyOutcome::Received => TextReply {
            status: 200,
            text: "API Key securely received and decrypted.".to_owned(),
        },
    }
}

/// What becomes of the decoded parts of a payload.
pub fn open_parts(aes_key: &Vec<u8>, iv: Option<Vec<u8>>, ciphertext: Option<Vec<u8>>) -> (r:
    KeyOutcome)
    requires
        aes_key@.len() == 32,
        iv matches Some(nonce) ==> nonce@.len() == 12,
    ensures
        r == key_outcome(
            aes_key@,
            match iv {
                Some(v) => Some(v@),
                None => None,
            },
            match ciphertext {
                Some(v) => Some(v@),
                None => None,
            },
        ),
        r is Received ==> ciphertext->0@.len() >= 16,
{
    match iv {
        None => KeyOutcome::BadIv,
        Some(nonce) => match ciphertext {
            None => KeyOutcome::BadCiphertext,
            Some(ciphertext) => match aes_gcm_open(aes_key, &nonce, &ciphertext) {
                Ok(_) => KeyOutcome::Received,
                Err(_) => KeyOutcome::NotOpened,
            },
        },
    }
}

fn decoded(text: &str) -> (r: Option<Vec<u8>>)
    ensures
        match r {
            Some(bytes) => base64_decoded(text@) == Some(bytes@),
            None => base64_decoded(text@) is None,
        },
{
    match base64_decode(text) {
        Ok(bytes) => Some(bytes),
        Err(_) => None,
    }
}

/// Receives an encrypted key. The service's key has 32 bytes, and an initialisation vector that
/// can be decoded has 12.
pub fn set_api_keys(aes_key: &Vec<u8>, payload: &EncryptedPayload) -> (r: TextReply)
    requires
        aes_key@.len() == 32,
        base64_decoded(payload.iv@) matches Some(nonce) ==> nonce.len() == 12,
    ensures
        (r.status, r.text@) == key_reply_text(
            key_outcome(
                aes_key@,
                base64_decoded(payload.iv@),
                base64_decoded(payload.ciphertext@),
            ),
        ),
        r.status == 200 ==> base64_decoded(payload.ciphertext@) is Some && base64_decoded(
            payload.ciphertext@,
        )->0.len() >= 16,
{
    let iv = decoded(payload.iv.as_str());
    let ciphertext = decoded(payload.ciphertext.as_str());
    key_reply(open_parts(aes_key, iv, ciphertext))
}

/// Receives an encrypted key of any shape: no reply where the service's key or the
/// initialisation vector has a length that the cipher does not take.
pub fn try_set_api_keys(aes_key: &Vec<u8>, payload: &EncryptedPayload) -> (r: Option<TextReply>)
    ensures
        match r {
            Some(reply) => {
                &&& aes_key@.len() == 32
                &&& base64_decoded(payload.iv@) matches Some(nonce) ==> nonce.len() == 12
                &&& (reply.status, reply.text@) == key_reply_text(
                    key_outcome(
                        aes_key@,
                        base64_decoded(payload.iv@),
                        base64_decoded(payload.ciphertext@),
                    ),
                )
                &&& reply.status == 200 ==> base64_decoded(payload.ciphertext@) is Some
                    && base64_decoded(payload.ciphertext@)->0.len() >= 16
            },
            None => aes_key@.len() != 32 || (base64_decoded(payload.iv@) matches Some(nonce)
                && nonce.len() != 12),
        },
{
    if aes_key.len() != 32 {
        return None;
    }
    match decoded(payload.iv.as_str()) {
        Some(nonce) => if nonce.len() != 12 {
            return None;
        },
        None => {},
    }
    Some(set_api_keys(aes_key, payload))
}

/// The reply tells only what became of a key: two payloads that fare alike are replied to alike,
/// whatever messages they hold.
pub proof fn reply_tells_only_the_outcome(
    key: Seq<u8>,
    iv: Option<Seq<u8>>,
    ciphertext: Option<Seq<u8>>,
    other_key: Seq<u8>,
    other_iv: Option<Seq<u8>>,
    other_ciphertext: Option<Seq<u8>>,
)
    requires
        iv is Some == other_iv is Some,
        ciphertext is Some == other_ciphertext is Some,
        iv is Some && ciphertext is Some ==> aes_gcm_opened(key, iv->0, ciphertext->0) is Some
            == aes_gcm_opened(other_key, other_iv->0, other_ciphertext->0) is Some,
    ensures
        key_reply_text(key_outcome(key, iv, ciphertext)) == key_reply_text(
            key_outcome(other_key, other_iv, other_ciphertext),
        ),
{
}

/// A key is received exactly where both parts can be decoded and the cipher opens them; each
/// failure has its own reply, and none of them is a success.
pub proof fn key_is_received_iff_opened(key: Seq<u8>, iv: Seq<u8>, ciphertext: Option<Seq<u8>>)
    ensures
        key_reply_text(key_outcome(key, None, ciphertext)) == (400u16, "Invalid IV base64"@),
        key_reply_text(key_outcome(key, Some(iv), None)) == (
            400u16,
            "Invalid ciphertext base64"@,
        ),
        ciphertext matches Some(c) ==> key_reply_text(key_outcome(key, Some(iv), ciphertext)) == (
            if aes_gcm_opened(key, iv, c) is Some {
                (200u16, "API Key securely received and decrypted."@)
            } else {
                (400u16, "Decryption failed"@)
            }),
{
}

} // verus!
