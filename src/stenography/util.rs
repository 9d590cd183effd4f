//! Capacity of a carrier, in bits and in whole bytes.
use crate::carrier::{sample_count, Carrier};
use vstd::prelude::*;
use vstd::string::*;

verus! {

/// Channel bytes of `image`: one hidden bit fits in each.
pub fn image_capacity_bits(image: &Carrier) -> (r: usize)
    requires
        image.wf(),
    ensures
        r == sample_count(image.spec_width(), image.spec_height()),
        r == image.spec_samples().len(),
{
    image.capacity_bits()
}

/// Whole bytes that fit in the least-significant bits of `image`.
pub fn image_capacity_bytes(image: &Carrier) -> (r: usize)
    requires
        image.wf(),
    ensures
        r == sample_count(image.spec_width(), image.spec_height()) / 8,
{
    image_capacity_bits(image) / 8
}

/// Whether `text`, taken as it is (a delimiter included by the caller),
/// fits in whole bytes of `image`.
pub fn is_sufficient_capacity(text: &str, image: &Carrier) -> (r: bool)
    requires
        image.wf(),
    ensures
        r == (text.spec_bytes().len() * 8 <= image.spec_samples().len()),
{
    let len: usize = text.as_bytes().len();
    let bytes: usize = image_capacity_bytes(image);
    len <= bytes
}

} // verus!
