//! The library's error type.
use vstd::prelude::*;
use vstd::string::*;

verus! {

#[verifier::external_type_specification]
#[verifier::external_body]
pub struct ExIoError(std::io::Error);

/// Why an operation failed.
#[derive(Debug)]
pub enum ApplicationError {
    /// A path names no usable file.
    InvalidPathError(String),
    /// An image could not be read or written.
    ImageError(String),
    /// A stream could not be read or written.
    IoError(std::io::Error),
    /// The payload could not be encrypted, or the key is unusable.
    EncryptionError(String),
    /// The ciphertext is malformed, or was not made with this key.
    DecryptionError(String),
    /// The payload cannot be embedded in the carrier.
    EncodingError(String),
    /// The extracted data is not what the caller asked to decode.
    DecodingError(String),
}

/// The message of `ApplicationError::EncodingError(detail)`, and so on for
/// each variant that carries a text.
pub open spec fn error_message(prefix: Seq<char>, detail: Seq<char>) -> Seq<char> {
    prefix + detail
}

impl ApplicationError {
    /// The error as one line of text: what failed, then the detail.
    pub fn to_string(&self) -> (r: String)
        ensures
            self matches ApplicationError::InvalidPathError(d) ==> r@ == error_message(
                "Invalid path error: "@,
                d@,
            ),
            self matches ApplicationError::ImageError(d) ==> r@ == error_message(
                "Image error: "@,
                d@,
            ),
            self matches ApplicationError::EncryptionError(d) ==> r@ == error_message(
                "Encryption error: "@,
                d@,
            ),
            self matches ApplicationError::DecryptionError(d) ==> r@ == error_message(
                "Decryption error: "@,
                d@,
            ),
            self matches ApplicationError::EncodingError(d) ==> r@ == error_message(
                "Encoding error: "@,
                d@,
            ),
            self matches ApplicationError::DecodingError(d) ==> r@ == error_message(
                "Decoding error: "@,
                d@,
            ),
    {
        match self {
            ApplicationError::InvalidPathError(d) => String::from_str("Invalid path error: ").concat(
                d.as_str(),
            ),
            ApplicationError::ImageError(d) => String::from_str("Image error: ").concat(d.as_str()),
            ApplicationError::IoError(e) => String::from_str("I/O error: ").concat(
                e.to_string().as_str(),
            ),
            ApplicationError::EncryptionError(d) => String::from_str("Encryption error: ").concat(
                d.as_str(),
            ),
            ApplicationError::DecryptionError(d) => String::from_str("Decryption error: ").concat(
                d.as_str(),
            ),
            ApplicationError::EncodingError(d) => String::from_str("Encoding error: ").concat(
                d.as_str(),
            ),
            ApplicationError::DecodingError(d) => String::from_str("Decoding error: ").concat(
                d.as_str(),
            ),
        }
    }
}

} // verus!
