//! UTF-8 text from raw bytes, and facts on the bytes of text.
use crate::codec::no_zero_byte;
use crate::encoding::is_base64_char;
use vstd::prelude::*;
use vstd::utf8::*;

verus! {

/// No character of `chars` is NUL, the character whose UTF-8 form is the
/// zero byte.
pub open spec fn nul_free(chars: Seq<char>) -> bool {
    forall|i: int| 0 <= i < chars.len() ==> #[trigger] chars[i] != '\0'
}

/// Every character of `chars` is a base64 character.
pub open spec fn all_base64(chars: Seq<char>) -> bool {
    forall|i: int| 0 <= i < chars.len() ==> is_base64_char(#[trigger] chars[i])
}

/// Relies on `String::from_utf8`: it succeeds exactly on valid UTF-8, and
/// the string it returns holds the given bytes.
#[verifier::external_body]
pub(crate) fn string_from_utf8(bytes: Vec<u8>) -> (r: Option<String>)
    ensures
        r is Some <==> valid_utf8(bytes@),
        r matches Some(s) ==> encode_utf8(s@) == bytes@,
{
    String::from_utf8(bytes).ok()
}

proof fn lemma_marked_bytes_nonzero(x: u8)
    by (bit_vector)
    ensures
        0x80u8 | x != 0u8,
        0xC0u8 | x != 0u8,
        0xE0u8 | x != 0u8,
        0xF0u8 | x != 0u8,
{
}

proof fn lemma_low_byte_nonzero(v: u32)
    by (bit_vector)
    requires
        1 <= v <= 0x7f,
    ensures
        (v & 0x7f) as u8 != 0u8,
{
}

/// A character other than NUL encodes to bytes that are all nonzero.
proof fn lemma_encode_scalar_nonzero(c: char)
    requires
        c != '\0',
    ensures
        no_zero_byte(encode_scalar(c as u32)),
{
    let v = c as u32;
    char_is_scalar(c);
    if v == 0 {
        char_u32_cast(c, v);
        assert(c == (0u32 as char));
    }
    if has_width_1_encoding(v) {
        lemma_low_byte_nonzero(v);
    } else {
        lemma_marked_bytes_nonzero(((v >> 6) & 0x1F) as u8);
        lemma_marked_bytes_nonzero(((v >> 12) & 0x0F) as u8);
        lemma_marked_bytes_nonzero(((v >> 18) & 0x7) as u8);
        lemma_marked_bytes_nonzero((v & 0x3F) as u8);
        lemma_marked_bytes_nonzero(((v >> 6) & 0x3F) as u8);
        lemma_marked_bytes_nonzero(((v >> 12) & 0x3F) as u8);
    }
}

/// Text without NUL encodes to UTF-8 without a zero byte.
pub proof fn lemma_nul_free_no_zero_byte(chars: Seq<char>)
    requires
        nul_free(chars),
    ensures
        no_zero_byte(encode_utf8(chars)),
    decreases chars.len(),
{
    if chars.len() > 0 {
        let head = encode_scalar(chars[0] as u32);
        let rest = chars.drop_first();
        assert(chars[0] != '\0');
        lemma_encode_scalar_nonzero(chars[0]);
        assert(nul_free(rest)) by {
            assert forall|i: int| 0 <= i < rest.len() implies #[trigger] rest[i] != '\0' by {
                assert(rest[i] == chars[i + 1]);
            }
        }
        lemma_nul_free_no_zero_byte(rest);
        let all = encode_utf8(chars);
        assert(all == head + encode_utf8(rest));
        assert forall|i: int| 0 <= i < all.len() implies #[trigger] all[i] != 0 by {
            if i < head.len() {
                assert(all[i] == head[i]);
            } else {
                assert(all[i] == encode_utf8(rest)[i - head.len()]);
            }
        }
    }
}

/// Base64 text is ASCII: its UTF-8 form has one byte per character.
pub proof fn lemma_base64_byte_len(chars: Seq<char>)
    requires
        all_base64(chars),
    ensures
        encode_utf8(chars).len() == chars.len(),
{
    assert(is_ascii_chars(chars)) by {
        assert forall|i: int| 0 <= i < chars.len() implies '\0' <= #[trigger] chars[i] <= '\u{7f}' by {
            assert(is_base64_char(chars[i]));
        }
    }
    is_ascii_chars_encode_utf8(chars);
}

/// Base64 text holds no NUL.
pub proof fn lemma_base64_nul_free(chars: Seq<char>)
    requires
        all_base64(chars),
    ensures
        nul_free(chars),
{
    assert forall|i: int| 0 <= i < chars.len() implies #[trigger] chars[i] != '\0' by {
        assert(is_base64_char(chars[i]));
    }
}

} // verus!
