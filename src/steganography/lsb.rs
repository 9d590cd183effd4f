//! Embedding and extraction on a carrier, in place; the embedding runs on
//! all cores.
use super::util::is_sufficient_capacity;
use crate::carrier::Carrier;
use crate::codec::{
    chunk_written, embedded, extract_bytes, extracted, has_capacity, lemma_round_trip, write_byte,
};
use crate::error::ApplicationError;
use crate::text::{lemma_nul_free_no_zero_byte, nul_free, string_from_utf8};
use rayon::iter::{IndexedParallelIterator, IntoParallelRefIterator, ParallelIterator};
use rayon::slice::ParallelSliceMut;
use vstd::prelude::*;
use vstd::slice::slice_to_vec;
use vstd::string::*;
use vstd::utf8::*;

verus! {

/// The value of the delimiter byte that ends an embedded payload.
pub const DELIMITER: u8 = 0;

/// Relies on rayon's `par_chunks_mut(8)`, `zip` and `for_each`: chunk `k`
/// (channel bytes `8k .. 8k + 8`) is paired with `bytes[k]`, pairing stops
/// at the shorter side, and the closure runs once on every pair, each on its
/// own chunk; chunks without a partner are left alone.
#[verifier::external_body]
fn write_bytes_in_parallel(samples: &mut Vec<u8>, bytes: &[u8])
    requires
        bytes@.len() * 8 <= old(samples)@.len(),
    ensures
        final(samples)@.len() == old(samples)@.len(),
        forall|k: int|
            0 <= k < bytes@.len() ==> #[trigger] final(samples)@.subrange(8 * k, 8 * k + 8)
                == chunk_written(old(samples)@.subrange(8 * k, 8 * k + 8), bytes@[k]),
        forall|i: int|
            bytes@.len() * 8 <= i < old(samples)@.len() ==> final(samples)@[i] == old(
                samples,
            )@[i],
{
    samples.par_chunks_mut(8).zip(bytes.par_iter()).for_each(|(chunk, &byte)| write_byte(chunk, byte));
}

/// Writes `bytes` into the least-significant bits of `samples`, eight
/// channel bytes per byte, most-significant bit first.
fn write_bytes(samples: &mut Vec<u8>, bytes: &[u8])
    requires
        bytes@.len() * 8 <= old(samples)@.len(),
    ensures
        final(samples)@ == embedded(old(samples)@, bytes@),
{
    let ghost before = samples@;
    write_bytes_in_parallel(samples, bytes);
    assert forall|i: int| 0 <= i < samples@.len() implies #[trigger] samples@[i] == embedded(
        before,
        bytes@,
    )[i] by {
        if i < bytes@.len() * 8 {
            let k = i / 8;
            let j = i % 8;
            assert(0 <= k < bytes@.len() && 8 * k + j == i && 0 <= j < 8) by (nonlinear_arith)
                requires
                    k == i / 8,
                    j == i % 8,
                    0 <= i < bytes@.len() * 8,
            ;
            assert(samples@.subrange(8 * k, 8 * k + 8) == chunk_written(
                before.subrange(8 * k, 8 * k + 8),
                bytes@[k],
            ));
            assert(samples@[i] == samples@.subrange(8 * k, 8 * k + 8)[j]);
        }
    }
    assert(samples@ =~= embedded(before, bytes@));
}

/// Embeds `data`, then a zero delimiter, into the least-significant bits of
/// `image`'s channel bytes, most-significant bit first.
///
/// Fails with `EncodingError`, leaving `image` untouched, when the payload
/// and its delimiter need more bits than `image` has channel bytes.
pub fn encode(data: &str, image: &mut Carrier) -> (r: Result<(), ApplicationError>)
    requires
        old(image).wf(),
    ensures
        final(image).wf(),
        r is Ok <==> has_capacity(data.spec_bytes().len(), old(image).spec_samples().len()),
        r is Ok ==> final(image).spec_samples() == embedded(
            old(image).spec_samples(),
            data.spec_bytes().push(DELIMITER),
        ),
        r is Err ==> final(image).spec_samples() == old(image).spec_samples(),
        r is Err ==> (r matches Err(ApplicationError::EncodingError(m)) && m@
            == "Image too small to encode data"@),
        final(image).spec_width() == old(image).spec_width(),
        final(image).spec_height() == old(image).spec_height(),
{
    if !is_sufficient_capacity(data, image) {
        return Err(ApplicationError::EncodingError(String::from_str("Image too small to encode data")));
    }
    let mut payload: Vec<u8> = slice_to_vec(data.as_bytes());
    payload.push(DELIMITER);
    assert(payload@ == data.spec_bytes().push(DELIMITER));
    write_bytes(&mut image.samples, payload.as_slice());
    Ok(())
}

/// Text without NUL that fits in the carrier comes back unchanged: the
/// bytes that `encode` embeds are extracted as valid UTF-8 that `decode`
/// turns into the same text.
pub proof fn lemma_text_round_trip(samples: Seq<u8>, text: Seq<char>)
    requires
        nul_free(text),
        has_capacity(encode_utf8(text).len(), samples.len()),
    ensures
        extracted(embedded(samples, encode_utf8(text).push(DELIMITER))) == encode_utf8(text),
        valid_utf8(extracted(embedded(samples, encode_utf8(text).push(DELIMITER)))),
        decode_utf8(extracted(embedded(samples, encode_utf8(text).push(DELIMITER)))) == text,
{
    lemma_nul_free_no_zero_byte(text);
    lemma_round_trip(samples, encode_utf8(text));
    encode_utf8_valid_utf8(text);
    encode_utf8_decode_utf8(text);
}

/// Reads the payload that `image` carries and returns it as text.
///
/// Fails with `DecodingError` when the payload is not valid UTF-8.
pub fn decode(image: &Carrier) -> (r: Result<String, ApplicationError>)
    ensures
        r is Ok <==> valid_utf8(extracted(image.spec_samples())),
        r matches Ok(s) ==> encode_utf8(s@) == extracted(image.spec_samples()),
        r is Err ==> r matches Err(ApplicationError::DecodingError(_)),
{
    let bytes = extract_bytes(image.samples.as_slice());
    match string_from_utf8(bytes) {
        Some(s) => Ok(s),
        None => Err(
            ApplicationError::DecodingError(
                String::from_str("Invalid UTF-8 sequence in decoded data"),
            ),
        ),
    }
}

} // verus!
