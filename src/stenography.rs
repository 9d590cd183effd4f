//! Least-significant-bit steganography that leaves the source image alone
//! and returns an encoded copy, addressing channels pixel by pixel.
pub mod lsb;
pub mod util;
