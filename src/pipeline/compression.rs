//! zlib compression, and the `COMPRESSED:` frame that marks a compressed
//! payload as base64 text.
use crate::encoding::{
    base64_decode, base64_decoded, base64_encode, base64_encoded, base64_len, is_base64_char,
};
use crate::error::ApplicationError;
use crate::text::{all_base64, nul_free};
use flate2::read::ZlibDecoder;
use flate2::write::ZlibEncoder;
use flate2::Compression;
use std::io::{Read, Write};
use vstd::prelude::*;
use vstd::string::*;
use vstd::utf8::*;

verus! {

broadcast use is_ascii_chars_encode_utf8;

/// zlib stream of `data` at the default compression level.
pub uninterp spec fn zlib_compressed(data: Seq<u8>) -> Seq<u8>;

/// The bytes that the zlib stream `stream` inflates to, if it is well formed.
pub uninterp spec fn zlib_decompressed(stream: Seq<u8>) -> Option<Seq<u8>>;

/// Relies on flate2's `ZlibEncoder` at `Compression::default()`, written
/// into a `Vec` and finished: it succeeds, since its errors come only from
/// the inner writer (a `Vec` never fails) or from misuse of the compressor;
/// the stream depends on the input alone; and flate2's `ZlibDecoder`
/// inflates it back to the same bytes.
#[verifier::external_body]
fn zlib_compress(data: &[u8]) -> (r: Result<Vec<u8>, std::io::Error>)
    ensures
        r is Ok,
        r matches Ok(c) ==> c@ == zlib_compressed(data@) && zlib_decompressed(c@) == Some(data@),
{
    let mut encoder = ZlibEncoder::new(Vec::new(), Compression::default());
    encoder.write_all(data)?;
    encoder.finish()
}

/// Relies on flate2's `ZlibDecoder` read to the end: whether it succeeds,
/// and on what, depends on the input alone.
#[verifier::external_body]
fn zlib_decompress(data: &[u8]) -> (r: Result<Vec<u8>, std::io::Error>)
    ensures
        r matches Ok(d) ==> zlib_decompressed(data@) == Some(d@),
        r is Err ==> zlib_decompressed(data@) is None,
{
    let mut decoder = ZlibDecoder::new(data);
    let mut out = Vec::new();
    decoder.read_to_end(&mut out)?;
    Ok(out)
}

/// Compresses `data` into a zlib stream, which inflates back to `data`.
pub fn compress(data: &[u8]) -> (r: Result<Vec<u8>, ApplicationError>)
    ensures
        r is Ok,
        r matches Ok(c) ==> c@ == zlib_compressed(data@),
        r matches Ok(c) ==> zlib_decompressed(c@) == Some(data@),
{
    match zlib_compress(data) {
        Ok(c) => Ok(c),
        Err(e) => Err(ApplicationError::IoError(e)),
    }
}

/// Inflates the zlib stream `data`.
///
/// Fails with `IoError` when `data` is not a well-formed stream.
pub fn decompress(data: &[u8]) -> (r: Result<Vec<u8>, ApplicationError>)
    ensures
        r is Ok <==> zlib_decompressed(data@) is Some,
        r matches Ok(d) ==> zlib_decompressed(data@) == Some(d@),
        r is Err ==> r matches Err(ApplicationError::IoError(_)),
{
    match zlib_decompress(data) {
        Ok(d) => Ok(d),
        Err(e) => Err(ApplicationError::IoError(e)),
    }
}

/// The frame marker, `COMPRESSED:`, as characters.
pub open spec fn marker_chars() -> Seq<char> {
    seq!['C', 'O', 'M', 'P', 'R', 'E', 'S', 'S', 'E', 'D', ':']
}

/// The frame marker, `COMPRESSED:`, as bytes.
pub open spec fn marker_bytes() -> Seq<u8> {
    seq![67u8, 79u8, 77u8, 80u8, 82u8, 69u8, 83u8, 83u8, 69u8, 68u8, 58u8]
}

/// Length of the frame marker in bytes.
pub const MARKER_LEN: usize = 11;

/// `text` starts with the frame marker.
pub open spec fn has_marker(text: Seq<u8>) -> bool {
    text.len() >= MARKER_LEN && text.subrange(0, MARKER_LEN as int) == marker_bytes()
}

/// The framed form of `data`: the marker, then the base64 text of its zlib
/// stream.
pub open spec fn framed(data: Seq<u8>) -> Seq<char> {
    marker_chars() + base64_encoded(zlib_compressed(data))
}

/// What a frame holds: `None` when `text` lacks the marker, its body is not
/// base64, or the decoded body is not a zlib stream.
pub open spec fn unframed(text: Seq<u8>) -> Option<Seq<u8>> {
    if !has_marker(text) {
        None
    } else {
        match base64_decoded(text.subrange(MARKER_LEN as int, text.len() as int)) {
            None => None,
            Some(stream) => zlib_decompressed(stream),
        }
    }
}

/// Whether `text` starts with the frame marker.
pub fn starts_with_marker(text: &[u8]) -> (r: bool)
    ensures
        r == has_marker(text@),
{
    let marker: Vec<u8> = vec![67u8, 79u8, 77u8, 80u8, 82u8, 69u8, 83u8, 83u8, 69u8, 68u8, 58u8];
    assert(marker@ =~= marker_bytes());
    if text.len() < MARKER_LEN {
        return false;
    }
    let mut i: usize = 0;
    while i < MARKER_LEN
        invariant
            marker@ == marker_bytes(),
            text@.len() >= MARKER_LEN,
            i <= MARKER_LEN,
            forall|j: int| 0 <= j < i ==> text@[j] == marker_bytes()[j],
        decreases MARKER_LEN - i,
    {
        if text[i] != marker[i] {
            assert(text@.subrange(0, MARKER_LEN as int)[i as int] != marker_bytes()[i as int]);
            return false;
        }
        i = i + 1;
    }
    assert(text@.subrange(0, MARKER_LEN as int) =~= marker_bytes());
    true
}

/// Base64 text never starts with the frame marker: `:` is no base64
/// character.
pub proof fn lemma_base64_unmarked(chars: Seq<char>)
    requires
        all_base64(chars),
    ensures
        !has_marker(encode_utf8(chars)),
{
    assert(is_ascii_chars(chars)) by {
        assert forall|i: int| 0 <= i < chars.len() implies '\0' <= #[trigger] chars[i] <= '\u{7f}' by {
            assert(is_base64_char(chars[i]));
        }
    }
    let bytes = encode_utf8(chars);
    if bytes.len() >= MARKER_LEN {
        assert(is_base64_char(chars[10]));
        assert(bytes[10] == chars[10] as u8);
        assert(bytes.subrange(0, MARKER_LEN as int)[10] != marker_bytes()[10]);
    }
}

/// Compresses `data` and frames it: `COMPRESSED:` followed by the base64
/// text of the zlib stream.
///
/// Fails with `EncodingError` only when the stream is too long to write as
/// base64. A frame it returns unframes back to `data`.
pub fn frame(data: &[u8]) -> (r: Result<String, ApplicationError>)
    ensures
        r is Ok <==> zlib_compressed(data@).len() <= usize::MAX / 2,
        r matches Ok(t) ==> t@ == framed(data@),
        r matches Ok(t) ==> encode_utf8(t@).len() == MARKER_LEN + base64_len(
            zlib_compressed(data@).len(),
        ),
        r matches Ok(t) ==> unframed(encode_utf8(t@)) == Some(data@),
        r matches Ok(t) ==> has_marker(encode_utf8(t@)),
        r matches Ok(t) ==> nul_free(t@),
        r is Err ==> r matches Err(ApplicationError::EncodingError(_)),
{
    let stream = match compress(data) {
        Ok(s) => s,
        Err(e) => {
            return Err(e);
        },
    };
    if stream.len() > usize::MAX / 2 {
        return Err(
            ApplicationError::EncodingError(String::from_str("Compressed data too long to encode")),
        );
    }
    let body = base64_encode(stream.as_slice());
    let marker = String::from_str("COMPRESSED:");
    proof {
        reveal_strlit("COMPRESSED:");
    }
    assert(marker@ =~= marker_chars());
    let t = marker.concat(body.as_str());
    let ghost chars = t@;
    assert(is_ascii_chars(chars)) by {
        assert forall|i: int| 0 <= i < chars.len() implies '\0' <= #[trigger] chars[i] <= '\u{7f}' by {
            if i >= MARKER_LEN {
                assert(chars[i] == body@[i - MARKER_LEN]);
                assert(is_base64_char(body@[i - MARKER_LEN]));
            }
        }
    }
    assert(nul_free(chars)) by {
        assert forall|i: int| 0 <= i < chars.len() implies #[trigger] chars[i] != '\0' by {
            if i >= MARKER_LEN {
                assert(chars[i] == body@[i - MARKER_LEN]);
                assert(is_base64_char(body@[i - MARKER_LEN]));
            }
        }
    }
    assert(is_ascii_chars(body@)) by {
        assert forall|i: int| 0 <= i < body@.len() implies '\0' <= #[trigger] body@[i] <= '\u{7f}' by {
            assert(is_base64_char(body@[i]));
        }
    }
    let ghost bytes = encode_utf8(chars);
    assert(bytes.subrange(0, MARKER_LEN as int) =~= marker_bytes());
    assert(bytes.subrange(MARKER_LEN as int, bytes.len() as int) =~= encode_utf8(body@));
    Ok(t)
}

/// Unframes `text`: checks the `COMPRESSED:` marker, decodes the base64
/// body and inflates it.
///
/// Fails with `DecodingError` when the marker is missing or the body is not
/// base64, and with `IoError` when the body is not a zlib stream.
pub fn unframe(text: &str) -> (r: Result<Vec<u8>, ApplicationError>)
    ensures
        r is Ok <==> unframed(text.spec_bytes()) is Some,
        r matches Ok(d) ==> unframed(text.spec_bytes()) == Some(d@),
        !has_marker(text.spec_bytes()) ==> (r matches Err(ApplicationError::DecodingError(m))
            && m@ == "Decompression expected, but message is not compressed"@),
        r is Err ==> r matches Err(ApplicationError::DecodingError(_)) || r matches Err(
            ApplicationError::IoError(_),
        ),
{
    let bytes: &[u8] = text.as_bytes();
    if !starts_with_marker(bytes) {
        return Err(
            ApplicationError::DecodingError(
                String::from_str("Decompression expected, but message is not compressed"),
            ),
        );
    }
    let (_, body) = bytes.split_at(MARKER_LEN);
    let stream = match base64_decode(body) {
        Ok(s) => s,
        Err(_) => {
            return Err(ApplicationError::DecodingError(String::from_str("Base64 decoding failed")));
        },
    };
    decompress(stream.as_slice())
}

} // verus!
