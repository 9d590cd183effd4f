//! Least-significant-bit steganography on a carrier, in place.
pub mod lsb;
pub mod util;
