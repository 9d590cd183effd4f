//! Keys: a passphrase padded to 32 bytes, or random bytes in base64.
use crate::encoding::{base64_decoded, base64_encode, base64_encoded};
use crate::error::ApplicationError;
use aes_gcm::aead::rand_core::RngCore;
use aes_gcm::aead::OsRng;
use vstd::prelude::*;
use vstd::string::*;
use vstd::utf8::*;

verus! {

/// Length in bytes of an AES-256 key.
pub const KEY_SIZE: usize = 32;

/// Length in bytes of a generated key when none is asked for.
pub const DEFAULT_KEY_LENGTH: usize = 32;

/// `passphrase` followed by zero bytes up to the key size.
pub open spec fn padded_key(passphrase: Seq<u8>) -> Seq<u8> {
    Seq::new(KEY_SIZE as nat, |i: int| if i < passphrase.len() { passphrase[i] } else { 0u8 })
}

/// Relies on `OsRng::try_fill_bytes` (rand_core, re-exported by aes-gcm):
/// it fills the buffer from the operating system's generator, keeps its
/// length, and reports a failure of the generator instead of panicking.
/// Nothing is known of the bytes, nor whether the generator works.
#[verifier::external_body]
pub(crate) fn fill_random(buf: &mut Vec<u8>) -> (r: bool)
    ensures
        final(buf)@.len() == old(buf)@.len(),
{
    OsRng.try_fill_bytes(buf).is_ok()
}

/// The 32-byte key for `key`: its UTF-8 bytes, then zeros.
///
/// Fails with `EncryptionError` when `key` is longer than 32 bytes; a key is
/// never truncated.
pub fn key_to_bytes(key: &str) -> (r: Result<[u8; 32], ApplicationError>)
    ensures
        r is Ok <==> key.spec_bytes().len() <= KEY_SIZE,
        r matches Ok(k) ==> k@ == padded_key(key.spec_bytes()),
        r is Err ==> r matches Err(ApplicationError::EncryptionError(_)),
{
    let bytes: &[u8] = key.as_bytes();
    let len: usize = bytes.len();
    if len > KEY_SIZE {
        return Err(
            ApplicationError::EncryptionError(
                String::from_str("Key length exceeds maximum of 32 bytes"),
            ),
        );
    }
    let mut result: [u8; 32] = [0u8; 32];
    let mut i: usize = 0;
    while i < len
        invariant
            len == bytes@.len(),
            len <= KEY_SIZE,
            i <= len,
            forall|j: int|
                0 <= j < KEY_SIZE ==> #[trigger] result@[j] == if j < i {
                    bytes@[j]
                } else {
                    0u8
                },
        decreases len - i,
    {
        result[i] = bytes[i];
        i = i + 1;
    }
    assert(result@ =~= padded_key(bytes@));
    Ok(result)
}

/// A fresh random key of `length` bytes (32 when `None`), as base64 text.
///
/// Fails with `EncryptionError` when the system's random generator fails.
pub fn generate_key(length: Option<usize>) -> (r: Result<String, ApplicationError>)
    requires
        length.unwrap_or(DEFAULT_KEY_LENGTH) <= usize::MAX / 2,
    ensures
        r matches Ok(s) ==> exists|b: Seq<u8>|
            b.len() == length.unwrap_or(DEFAULT_KEY_LENGTH) && s@ == base64_encoded(b)
                && #[trigger] base64_decoded(encode_utf8(s@)) == Some(b),
        r is Err ==> r matches Err(ApplicationError::EncryptionError(_)),
{
    let n: usize = match length {
        Some(l) => l,
        None => DEFAULT_KEY_LENGTH,
    };
    let mut key: Vec<u8> = vec![0u8; n];
    if !fill_random(&mut key) {
        return Err(
            ApplicationError::EncryptionError(String::from_str("Random number generator failed")),
        );
    }
    let text = base64_encode(key.as_slice());
    Ok(text)
}

} // verus!
