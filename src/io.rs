//! File-name checks used before reading or writing carrier images.
use crate::pipeline::image::{is_image_extension, lowercase_of, path_extension};
use vstd::prelude::*;

verus! {

/// Whether `file_path` ends in the extension of a supported image file
/// (`png`, `jpg`, `jpeg`, `bmp`, `tiff` or `gif`, in any case).
pub fn has_valid_image_extension(file_path: &str) -> (r: bool)
    ensures
        r == (path_extension(file_path@) matches Some(e) && is_image_extension(lowercase_of(e))),
{
    crate::pipeline::image::has_valid_image_extension(file_path)
}

} // verus!
