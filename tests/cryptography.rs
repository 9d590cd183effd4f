use aes_gcm::aead::rand_core::RngCore;
use aes_gcm::aead::OsRng;
use base64::engine::general_purpose;
use base64::Engine;
use mindbender::cryptography::aes::{decrypt, encrypt, encrypt_with_nonce};
use mindbender::cryptography::util::{generate_key, key_to_bytes, KEY_SIZE};
use mindbender::error::ApplicationError;

#[test]
fn test_encrypt_decrypt() {
    let key = [0u8; 32];
    let data = "Test message for encryption";
    let encrypted_data = encrypt(data, &key).expect("Encryption failed");
    let decrypted_data = decrypt(&encrypted_data, &key).expect("Decryption failed");

    assert_eq!(data, decrypted_data);
}

#[test]
fn test_decrypt_with_invalid_key() {
    let original_key = [0u8; 32];
    let invalid_key = [1u8; 32];
    let data = "This message will not decrypt properly";
    let encrypted_data = encrypt(data, &original_key).expect("Encryption failed");
    let result = decrypt(&encrypted_data, &invalid_key);

    assert!(result.is_err());
}

#[test]
fn test_encrypt_empty_string() {
    let key = [0u8; 32];
    let data = "";
    let encrypted_data = encrypt(data, &key).expect("Encryption failed");
    let decrypted_data = decrypt(&encrypted_data, &key).expect("Decryption failed");

    assert_eq!(data, decrypted_data);
}

#[test]
fn test_encrypt_randomized_keys() {
    let mut key = [0u8; 32];
    OsRng.fill_bytes(&mut key);
    let data = "Testing encryption with a random key";
    let encrypted_data = encrypt(data, &key).expect("Encryption failed");
    let decrypted_data = decrypt(&encrypted_data, &key).expect("Decryption failed");

    assert_eq!(data, decrypted_data);
}

#[test]
fn stored_form_is_nonce_ciphertext_and_tag() {
    let key = [7u8; 32];
    let nonce = [3u8; 12];
    let data = "twelve+16";
    let text = encrypt_with_nonce(data, &key, &nonce).unwrap();
    let raw = general_purpose::STANDARD.decode(&text).unwrap();
    assert_eq!(raw.len(), 12 + data.len() + 16);
    assert_eq!(&raw[..12], &nonce[..]);
    assert_ne!(&raw[12..12 + data.len()], data.as_bytes());
    assert_eq!(decrypt(&text, &key).unwrap(), data);
    // The same nonce and key give the same stored form.
    assert_eq!(encrypt_with_nonce(data, &key, &nonce).unwrap(), text);
}

#[test]
fn fresh_nonce_each_time() {
    let key = [9u8; 32];
    let a = encrypt("same text", &key).unwrap();
    let b = encrypt("same text", &key).unwrap();
    assert_ne!(a, b);
    assert_eq!(decrypt(&a, &key).unwrap(), decrypt(&b, &key).unwrap());
}

#[test]
fn every_other_key_fails() {
    let key = [0x5au8; 32];
    let text = encrypt("guarded", &key).unwrap();
    for i in 0..32 {
        let mut other = key;
        other[i] ^= 1;
        assert!(matches!(decrypt(&text, &other), Err(ApplicationError::DecryptionError(_))));
    }
}

#[test]
fn malformed_stored_forms_fail_to_decrypt() {
    let key = [0u8; 32];
    assert!(matches!(decrypt("not base64!", &key), Err(ApplicationError::DecryptionError(_))));
    // Eleven bytes: shorter than a nonce.
    let short = general_purpose::STANDARD.encode([0u8; 11]);
    assert!(matches!(decrypt(&short, &key), Err(ApplicationError::DecryptionError(_))));
    let mut raw = general_purpose::STANDARD.decode(encrypt("tamper", &key).unwrap()).unwrap();
    let last = raw.len() - 1;
    raw[last] ^= 0x80;
    let tampered = general_purpose::STANDARD.encode(&raw);
    assert!(matches!(decrypt(&tampered, &key), Err(ApplicationError::DecryptionError(_))));
}

#[test]
fn test_exact_length_key() {
    let key = "12345678901234567890123456789012";
    let result = key_to_bytes(key).unwrap();

    assert_eq!(result.len(), KEY_SIZE);
    assert_eq!(&result, key.as_bytes());
}

#[test]
fn test_short_key() {
    let key = "short-key";
    let result = key_to_bytes(key).unwrap();

    assert_eq!(result.len(), KEY_SIZE);
    assert_eq!(&result[..key.len()], key.as_bytes());
    assert!(result[key.len()..].iter().all(|&b| b == 0));
}

#[test]
fn test_empty_key() {
    let key = "";
    let result = key_to_bytes(key).unwrap();

    assert_eq!(result.len(), KEY_SIZE);
    assert!(result.iter().all(|&b| b == 0));
}

#[test]
fn test_too_long_key() {
    let key = "12345678901234567890123456789012X";
    let result = key_to_bytes(key);

    assert!(result.is_err());
    assert!(matches!(result, Err(ApplicationError::EncryptionError(_))));
}

#[test]
fn test_unicode_key() {
    let key = "🔑";
    let result = key_to_bytes(key).unwrap();

    assert_eq!(result.len(), KEY_SIZE);
    assert_eq!(&result[..4], key.as_bytes());
    assert!(result[4..].iter().all(|&b| b == 0));
}

#[test]
fn test_generate_key() {
    let key = generate_key(None).unwrap();
    assert_eq!(general_purpose::STANDARD.decode(&key).unwrap().len(), 32);
}

#[test]
fn test_generate_custom_length_key() {
    let length = 16;
    let key = generate_key(Some(length)).unwrap();
    assert_eq!(
        general_purpose::STANDARD.decode(&key).unwrap().len(),
        length
    );
}

#[test]
fn generated_keys_differ() {
    assert_ne!(generate_key(None).unwrap(), generate_key(None).unwrap());
    assert_eq!(generate_key(Some(0)).unwrap(), "");
}
