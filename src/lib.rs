//! Hides a text payload in the least-significant bits of an RGB pixel buffer
//! and recovers it, with optional AES-256-GCM encryption and zlib compression.
use vstd::prelude::*;

pub mod carrier;
pub mod cli;
pub mod codec;
pub mod cryptography;
pub mod encoding;
pub mod error;
pub mod io;
pub mod pipeline;
pub mod steganography;
pub mod stenography;
pub mod text;
