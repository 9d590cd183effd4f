//! AES-256-GCM encryption of text, stored as the base64 text of the nonce
//! followed by the ciphertext and its tag.
use super::util::fill_random;
use crate::encoding::{base64_decode, base64_decoded, base64_encode, base64_encoded, base64_len};
use crate::error::ApplicationError;
use crate::text::{all_base64, string_from_utf8};
use aes_gcm::aead::{Aead, KeyInit};
use aes_gcm::{Aes256Gcm, Nonce};
use vstd::prelude::*;
use vstd::slice::slice_to_vec;
use vstd::string::*;
use vstd::utf8::*;

verus! {

broadcast use {encode_utf8_valid_utf8, encode_utf8_decode_utf8};

#[verifier::external_type_specification]
#[verifier::external_body]
pub struct ExAeadError(aes_gcm::Error);

/// Length in bytes of an AES-GCM nonce.
pub const NONCE_SIZE: usize = 12;

/// Length in bytes of the authentication tag appended to a ciphertext.
pub const TAG_SIZE: usize = 16;

/// The longest plaintext, in bytes, that AES-GCM encrypts.
pub const MAX_PLAINTEXT_LEN: u64 = 68719476736;

/// AES-256-GCM ciphertext, tag appended, of `plaintext` under `key` and
/// `nonce`, with no associated data.
pub uninterp spec fn gcm_sealed(key: Seq<u8>, nonce: Seq<u8>, plaintext: Seq<u8>) -> Seq<u8>;

/// The plaintext of `ciphertext` (tag appended) under `key` and `nonce`,
/// with no associated data, or `None` when the tag does not check.
pub uninterp spec fn gcm_opened(key: Seq<u8>, nonce: Seq<u8>, ciphertext: Seq<u8>) -> Option<
    Seq<u8>,
>;

/// Relies on aes-gcm's `Aes256Gcm::encrypt` (aead's `Aead` impl over
/// `encrypt_in_place_detached`): it fails only on a plaintext longer than
/// `P_MAX` (2^36 bytes), it appends the 16-byte tag, and `Aes256Gcm::decrypt`
/// under the same key and nonce gives the plaintext back. The bound keeps
/// the capacity it reserves, plaintext length plus tag, within `usize`.
#[verifier::external_body]
fn gcm_encrypt(key: &[u8; 32], nonce: &[u8], plaintext: &[u8]) -> (r: Result<
    Vec<u8>,
    aes_gcm::Error,
>)
    requires
        nonce@.len() == NONCE_SIZE,
        plaintext@.len() + TAG_SIZE <= usize::MAX,
    ensures
        r is Ok <==> plaintext@.len() <= MAX_PLAINTEXT_LEN,
        r matches Ok(c) ==> c@ == gcm_sealed(key@, nonce@, plaintext@) && c@.len()
            == plaintext@.len() + TAG_SIZE && gcm_opened(key@, nonce@, c@) == Some(plaintext@),
{
    let cipher = Aes256Gcm::new(key.into());
    cipher.encrypt(Nonce::from_slice(nonce), plaintext)
}

/// Relies on aes-gcm's `Aes256Gcm::decrypt` (aead's `Aead` impl): whether it
/// succeeds, and on what, depends on key, nonce and ciphertext alone.
#[verifier::external_body]
fn gcm_decrypt(key: &[u8; 32], nonce: &[u8], ciphertext: &[u8]) -> (r: Result<
    Vec<u8>,
    aes_gcm::Error,
>)
    requires
        nonce@.len() == NONCE_SIZE,
    ensures
        r matches Ok(p) ==> gcm_opened(key@, nonce@, ciphertext@) == Some(p@),
        r is Err ==> gcm_opened(key@, nonce@, ciphertext@) is None,
{
    let cipher = Aes256Gcm::new(key.into());
    cipher.decrypt(Nonce::from_slice(nonce), ciphertext)
}

/// A plaintext of `len` bytes can be encrypted, and its sealed form
/// written as base64.
pub open spec fn encryptable(len: nat) -> bool {
    len <= MAX_PLAINTEXT_LEN && len + NONCE_SIZE + TAG_SIZE <= usize::MAX / 2
}

/// The bytes stored for `text` encrypted under `key` with `nonce`: the
/// nonce, then the ciphertext with its tag.
pub open spec fn sealed_blob(key: Seq<u8>, nonce: Seq<u8>, text: Seq<char>) -> Seq<u8> {
    nonce + gcm_sealed(key, nonce, encode_utf8(text))
}

/// The stored form of `text` encrypted under `key` with `nonce`: the base64
/// text of its sealed bytes.
pub open spec fn sealed_text(key: Seq<u8>, nonce: Seq<u8>, text: Seq<char>) -> Seq<char> {
    base64_encoded(sealed_blob(key, nonce, text))
}

/// The stored form `t` decodes to the sealed bytes of `text` under `key`
/// and `nonce`, of length nonce plus plaintext plus tag.
pub open spec fn holds_sealed(t: Seq<char>, key: Seq<u8>, nonce: Seq<u8>, text: Seq<char>) -> bool {
    &&& base64_decoded(encode_utf8(t)) == Some(sealed_blob(key, nonce, text))
    &&& sealed_blob(key, nonce, text).len() == NONCE_SIZE + encode_utf8(text).len() + TAG_SIZE
}

/// The text that the stored form `blob` decrypts to under `key`: `None`
/// when `blob` is not base64, is shorter than a nonce, fails
/// authentication, or does not decrypt to UTF-8.
pub open spec fn decrypted(blob: Seq<char>, key: Seq<u8>) -> Option<Seq<char>> {
    match base64_decoded(encode_utf8(blob)) {
        None => None,
        Some(b) => if b.len() < NONCE_SIZE {
            None
        } else {
            match gcm_opened(
                key,
                b.subrange(0, NONCE_SIZE as int),
                b.subrange(NONCE_SIZE as int, b.len() as int),
            ) {
                None => None,
                Some(p) => if valid_utf8(p) {
                    Some(decode_utf8(p))
                } else {
                    None
                },
            }
        },
    }
}

/// A stored form made under `key` does not decrypt under `other` whenever
/// AES-GCM under `other` rejects its sealed bytes (the tag does not check).
pub proof fn lemma_other_key_rejected(
    t: Seq<char>,
    key: Seq<u8>,
    other: Seq<u8>,
    nonce: Seq<u8>,
    text: Seq<char>,
)
    requires
        nonce.len() == NONCE_SIZE,
        holds_sealed(t, key, nonce, text),
        gcm_opened(other, nonce, gcm_sealed(key, nonce, encode_utf8(text))) is None,
    ensures
        decrypted(t, other) is None,
{
    let blob = sealed_blob(key, nonce, text);
    assert(blob.subrange(0, NONCE_SIZE as int) =~= nonce);
    assert(blob.subrange(NONCE_SIZE as int, blob.len() as int) =~= gcm_sealed(
        key,
        nonce,
        encode_utf8(text),
    ));
}

/// Encrypts `data` under `key` with the given 12-byte `nonce`.
///
/// Fails with `EncryptionError` when `data` is too long for AES-GCM.
/// Whatever comes back decrypts under the same key to `data`.
pub fn encrypt_with_nonce(data: &str, key: &[u8; 32], nonce: &[u8]) -> (r: Result<
    String,
    ApplicationError,
>)
    requires
        nonce@.len() == NONCE_SIZE,
    ensures
        r is Ok <==> encryptable(data.spec_bytes().len()),
        r matches Ok(t) ==> t@ == sealed_text(key@, nonce@, data@),
        r matches Ok(t) ==> holds_sealed(t@, key@, nonce@, data@),
        r matches Ok(t) ==> decrypted(t@, key@) == Some(data@),
        r matches Ok(t) ==> all_base64(t@),
        r matches Ok(t) ==> t@.len() == base64_len((data.spec_bytes().len() + NONCE_SIZE + TAG_SIZE) as nat),
        r is Err ==> r matches Err(ApplicationError::EncryptionError(_)),
{
    let plaintext: &[u8] = data.as_bytes();
    let len: usize = plaintext.len();
    if len as u64 > MAX_PLAINTEXT_LEN || len > usize::MAX / 2 - NONCE_SIZE - TAG_SIZE {
        return Err(ApplicationError::EncryptionError(String::from_str("Encryption failed")));
    }
    let ciphertext = match gcm_encrypt(key, nonce, plaintext) {
        Ok(c) => c,
        Err(_) => {
            return Err(ApplicationError::EncryptionError(String::from_str("Encryption failed")));
        },
    };
    let mut blob: Vec<u8> = slice_to_vec(nonce);
    let mut tail: Vec<u8> = ciphertext;
    let ghost sealed = tail@;
    blob.append(&mut tail);
    assert(blob@.subrange(0, NONCE_SIZE as int) =~= nonce@);
    assert(blob@.subrange(NONCE_SIZE as int, blob@.len() as int) =~= sealed);
    let text = base64_encode(blob.as_slice());
    assert(encode_utf8(data@) == data.spec_bytes());
    Ok(text)
}

/// Encrypts `data` under `key` with a fresh random nonce.
///
/// Fails with `EncryptionError` when `data` is too long for AES-GCM or the
/// system's random generator fails. Whatever comes back decrypts under the
/// same key to `data`.
pub fn encrypt(data: &str, key: &[u8; 32]) -> (r: Result<String, ApplicationError>)
    ensures
        r is Ok ==> encryptable(data.spec_bytes().len()),
        !encryptable(data.spec_bytes().len()) ==> r is Err,
        r matches Ok(t) ==> exists|nonce: Seq<u8>|
            nonce.len() == NONCE_SIZE && #[trigger] sealed_text(key@, nonce, data@) == t@
                && holds_sealed(t@, key@, nonce, data@),
        r matches Ok(t) ==> decrypted(t@, key@) == Some(data@),
        r matches Ok(t) ==> all_base64(t@),
        r matches Ok(t) ==> t@.len() == base64_len((data.spec_bytes().len() + NONCE_SIZE + TAG_SIZE) as nat),
        r is Err ==> r matches Err(ApplicationError::EncryptionError(_)),
{
    let mut nonce: Vec<u8> = vec![0u8; NONCE_SIZE];
    if !fill_random(&mut nonce) {
        return Err(
            ApplicationError::EncryptionError(String::from_str("Random number generator failed")),
        );
    }
    encrypt_with_nonce(data, key, nonce.as_slice())
}

/// Decrypts the stored form `encoded_data` under `key`.
///
/// Fails with `DecryptionError` when it is not base64, is shorter than a
/// nonce, fails authentication (a wrong key or altered data), or does not
/// decrypt to UTF-8 text.
pub fn decrypt(encoded_data: &str, key: &[u8; 32]) -> (r: Result<String, ApplicationError>)
    ensures
        r is Ok <==> decrypted(encoded_data@, key@) is Some,
        r matches Ok(s) ==> Some(s@) == decrypted(encoded_data@, key@),
        r is Err ==> r matches Err(ApplicationError::DecryptionError(_)),
{
    let blob = match base64_decode(encoded_data.as_bytes()) {
        Ok(b) => b,
        Err(_) => {
            return Err(
                ApplicationError::DecryptionError(String::from_str("Invalid base64 encoding")),
            );
        },
    };
    if blob.len() < NONCE_SIZE {
        return Err(ApplicationError::DecryptionError(String::from_str("Encrypted data too short")));
    }
    let (nonce, ciphertext) = blob.as_slice().split_at(NONCE_SIZE);
    let plaintext = match gcm_decrypt(key, nonce, ciphertext) {
        Ok(p) => p,
        Err(_) => {
            return Err(ApplicationError::DecryptionError(String::from_str("Decryption failed")));
        },
    };
    let ghost bytes = plaintext@;
    match string_from_utf8(plaintext) {
        Some(s) => {
            assert(decode_utf8(encode_utf8(s@)) == s@);
            Ok(s)
        },
        None => Err(
            ApplicationError::DecryptionError(String::from_str("Invalid UTF-8 in decrypted data")),
        ),
    }
}

} // verus!
