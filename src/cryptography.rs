//! AES-256-GCM encryption of text payloads, and keys for it.
pub mod aes;
pub mod util;
