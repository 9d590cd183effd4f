//! Base64 text for binary data (standard alphabet, padded).
use base64::engine::general_purpose::STANDARD;
use base64::Engine;
use vstd::prelude::*;
use vstd::utf8::*;

verus! {

#[verifier::external_type_specification]
#[verifier::external_body]
pub struct ExDecodeError(base64::DecodeError);

/// The standard base64 text of `bytes`, padded with `=`.
pub uninterp spec fn base64_encoded(bytes: Seq<u8>) -> Seq<char>;

/// The bytes that the base64 text `text` stands for, if it is well formed.
pub uninterp spec fn base64_decoded(text: Seq<u8>) -> Option<Seq<u8>>;

/// Length of the padded base64 text of `n` bytes: four characters for
/// every three bytes or part of three.
pub open spec fn base64_len(n: nat) -> nat {
    4 * ((n + 2) / 3)
}

/// A character of the standard base64 alphabet, or the pad `=`.
pub open spec fn is_base64_char(c: char) -> bool {
    ('A' <= c && c <= 'Z') || ('a' <= c && c <= 'z') || ('0' <= c && c <= '9') || c == '+' || c
        == '/' || c == '='
}

/// Relies on base64's `STANDARD.encode`: the text uses only the standard
/// alphabet and `=`, has the padded length that `encoded_len` computes, and
/// `STANDARD.decode` turns it back into the same bytes. It panics only when the output length overflows `usize`, which
/// the bound on the input rules out.
#[verifier::external_body]
pub(crate) fn base64_encode(bytes: &[u8]) -> (r: String)
    requires
        bytes@.len() <= usize::MAX / 2,
    ensures
        r@ == base64_encoded(bytes@),
        r@.len() == base64_len(bytes@.len()),
        forall|i: int| 0 <= i < r@.len() ==> is_base64_char(#[trigger] r@[i]),
        base64_decoded(encode_utf8(r@)) == Some(bytes@),
{
    STANDARD.encode(bytes)
}

/// Relies on base64's `STANDARD.decode`: whether it succeeds, and on what,
/// depends on the input alone.
#[verifier::external_body]
pub(crate) fn base64_decode(text: &[u8]) -> (r: Result<Vec<u8>, base64::DecodeError>)
    ensures
        r matches Ok(b) ==> base64_decoded(text@) == Some(b@),
        r is Err ==> base64_decoded(text@) is None,
{
    STANDARD.decode(text)
}

} // verus!
