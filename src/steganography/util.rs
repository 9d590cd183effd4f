//! Capacity of a carrier.
use crate::carrier::Carrier;
use crate::codec::has_capacity;
use vstd::prelude::*;
use vstd::string::*;

verus! {

/// Whether `image` can hold `text` and its delimiter, one bit in each
/// channel byte.
pub fn is_sufficient_capacity(text: &str, image: &Carrier) -> (r: bool)
    ensures
        r == has_capacity(text.spec_bytes().len(), image.spec_samples().len()),
{
    let payload_len: usize = text.as_bytes().len();
    let available: usize = image.samples.len();
    payload_len < available / 8
}

} // verus!
