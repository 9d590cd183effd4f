//! Embedding into a copy of the carrier, one channel at a time, and
//! extraction.
use super::util::image_capacity_bytes;
use crate::carrier::{Carrier, CHANNELS};
use crate::codec::{bit_of, embedded, extract_bytes, extracted, has_capacity, with_lsb};
use crate::error::ApplicationError;
use crate::text::string_from_utf8;
use vstd::prelude::*;
use vstd::slice::slice_to_vec;
use vstd::string::*;
use vstd::utf8::*;

verus! {

/// Returns a copy of `image` whose least-significant bits carry `data` and
/// a zero delimiter, most-significant bit first, in row-major R, G, B
/// order.
///
/// Fails with `EncodingError` when the payload and its delimiter need more
/// bits than `image` has channel bytes.
pub fn encode(data: &str, image: &Carrier) -> (r: Result<Carrier, ApplicationError>)
    requires
        image.wf(),
    ensures
        r is Ok <==> has_capacity(data.spec_bytes().len(), image.spec_samples().len()),
        r matches Ok(c) ==> c.wf() && c.spec_width() == image.spec_width() && c.spec_height()
            == image.spec_height() && c.spec_samples() == embedded(
            image.spec_samples(),
            data.spec_bytes().push(0u8),
        ),
        r is Err ==> (r matches Err(ApplicationError::EncodingError(m)) && m@
            == "Image too small to encode data"@),
{
    let mut payload: Vec<u8> = slice_to_vec(data.as_bytes());
    payload.push(0u8);
    let available: usize = image.capacity_bits();
    let capacity: usize = image_capacity_bytes(image);
    if payload.len() > capacity {
        return Err(ApplicationError::EncodingError(String::from_str("Image too small to encode data")));
    }
    assert(payload@.len() * 8 <= image.spec_samples().len()) by (nonlinear_arith)
        requires
            payload@.len() <= capacity,
            capacity == image.spec_samples().len() / 8,
    ;
    let mut encoded = image.clone();
    let width: usize = image.width() as usize;
    let bits: usize = payload.len() * 8;
    let ghost before = image.spec_samples();
    let mut i: usize = 0;
    while i < bits
        invariant
            encoded.wf(),
            encoded.spec_width() == image.spec_width(),
            encoded.spec_height() == image.spec_height(),
            width == image.spec_width(),
            bits == payload@.len() * 8,
            bits <= before.len(),
            before == image.spec_samples(),
            i <= bits,
            encoded.spec_samples().len() == before.len(),
            forall|j: int|
                0 <= j < before.len() ==> #[trigger] encoded.spec_samples()[j] == if j < i {
                    with_lsb(before[j], bit_of(payload@[j / 8], j % 8))
                } else {
                    before[j]
                },
        decreases bits - i,
    {
        let byte: u8 = payload[i / 8];
        let bit: u8 = (byte >> ((7 - i % 8) as u8)) & 1;
        let pixel: usize = i / CHANNELS;
        let channel: usize = i % CHANNELS;
        assert(width > 0 && pixel / width < encoded.spec_height()) by (nonlinear_arith)
            requires
                pixel == i / 3,
                i < before.len(),
                before.len() == encoded.spec_width() * encoded.spec_height() * 3,
                width == encoded.spec_width(),
        ;
        let x: u32 = (pixel % width) as u32;
        let y: u32 = (pixel / width) as u32;
        let index: usize = encoded.channel_index(x, y, channel);
        assert(index == i) by (nonlinear_arith)
            requires
                index == (y * width + x) * 3 + channel,
                x == pixel % width,
                y == pixel / width,
                pixel == i / 3,
                channel == i % 3,
                width > 0,
        ;
        let sample: u8 = encoded.samples[index];
        encoded.samples.set(index, (sample & 0xfe) | bit);
        i = i + 1;
    }
    assert(encoded.spec_samples() =~= embedded(before, payload@));
    Ok(encoded)
}

/// Reads the payload that `image` carries and returns it as text.
///
/// Fails with `DecodingError` when the payload is not valid UTF-8.
pub fn decode(image: &Carrier) -> (r: Result<String, ApplicationError>)
    ensures
        r is Ok <==> valid_utf8(extracted(image.spec_samples())),
        r matches Ok(s) ==> encode_utf8(s@) == extracted(image.spec_samples()),
        r is Err ==> r matches Err(ApplicationError::DecodingError(_)),
{
    let bytes = extract_bytes(image.samples());
    match string_from_utf8(bytes) {
        Some(s) => Ok(s),
        None => Err(ApplicationError::DecodingError(String::from_str("Failed to decode message"))),
    }
}

} // verus!
