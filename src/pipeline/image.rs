//! File-name rules for carrier images.
use crate::error::ApplicationError;
use image::ImageFormat;
use std::path::Path;
use vstd::prelude::*;
use vstd::string::*;
use vstd::utf8::*;

verus! {

broadcast use encode_utf8_decode_utf8;

#[verifier::external_type_specification]
#[verifier::external_body]
pub struct ExImageError(image::ImageError);

/// The image formats that the lossless check tells apart.
#[derive(Debug, Clone, Copy, PartialEq, Eq, Structural)]
pub enum FormatKind {
    Png,
    Bmp,
    Tiff,
    Jpeg,
    Gif,
    WebP,
    /// Any other format the image library knows.
    Other,
}

/// The extension of the last component of `path`, if it has one.
pub uninterp spec fn path_extension(path: Seq<char>) -> Option<Seq<char>>;

/// `text` in lower case.
pub uninterp spec fn lowercase_of(text: Seq<char>) -> Seq<char>;

/// The image format that the extension of `path` names, if any.
pub uninterp spec fn format_of_path(path: Seq<char>) -> Option<FormatKind>;

/// Relies on `Path::extension`: the extension follows from the path text
/// alone, and the extension of a `&str` path is itself text.
#[verifier::external_body]
fn extension_of(path: &str) -> (r: Option<String>)
    ensures
        r matches Some(e) ==> path_extension(path@) == Some(e@),
        r is None ==> path_extension(path@) is None,
{
    Path::new(path).extension()?.to_str().map(String::from)
}

/// Relies on `str::to_lowercase`: the result depends on the characters
/// alone.
#[verifier::external_body]
fn to_lowercase(text: &str) -> (r: String)
    ensures
        r@ == lowercase_of(text@),
{
    text.to_lowercase()
}

/// Relies on image's `ImageFormat::from_path`: the format follows from the
/// path's extension alone, and the error comes exactly when the extension
/// names no format.
#[verifier::external_body]
fn format_from_path(path: &str) -> (r: Result<FormatKind, image::ImageError>)
    ensures
        r matches Ok(f) ==> format_of_path(path@) == Some(f),
        r is Err ==> format_of_path(path@) is None,
{
    match ImageFormat::from_path(path) {
        Ok(ImageFormat::Png) => Ok(FormatKind::Png),
        Ok(ImageFormat::Bmp) => Ok(FormatKind::Bmp),
        Ok(ImageFormat::Tiff) => Ok(FormatKind::Tiff),
        Ok(ImageFormat::Jpeg) => Ok(FormatKind::Jpeg),
        Ok(ImageFormat::Gif) => Ok(FormatKind::Gif),
        Ok(ImageFormat::WebP) => Ok(FormatKind::WebP),
        Ok(_) => Ok(FormatKind::Other),
        Err(e) => Err(e),
    }
}

/// Whether two texts are the same.
pub fn same_text(a: &str, b: &str) -> (r: bool)
    ensures
        r == (a@ == b@),
{
    let x: &[u8] = a.as_bytes();
    let y: &[u8] = b.as_bytes();
    if x.len() != y.len() {
        return false;
    }
    let mut i: usize = 0;
    while i < x.len()
        invariant
            x@.len() == y@.len(),
            x@ == encode_utf8(a@),
            y@ == encode_utf8(b@),
            i <= x@.len(),
            forall|j: int| 0 <= j < i ==> x@[j] == y@[j],
        decreases x@.len() - i,
    {
        if x[i] != y[i] {
            return false;
        }
        i = i + 1;
    }
    assert(x@ =~= y@);
    assert(decode_utf8(encode_utf8(a@)) == a@);
    true
}

/// A lower-case extension of a supported image file.
pub open spec fn is_image_extension(ext: Seq<char>) -> bool {
    ext == "png"@ || ext == "jpg"@ || ext == "jpeg"@ || ext == "bmp"@ || ext == "tiff"@ || ext
        == "gif"@
}

/// Whether `file_path` ends in the extension of a supported image file
/// (`png`, `jpg`, `jpeg`, `bmp`, `tiff` or `gif`, in any case).
pub fn has_valid_image_extension(file_path: &str) -> (r: bool)
    ensures
        r == (path_extension(file_path@) matches Some(e) && is_image_extension(lowercase_of(e))),
{
    match extension_of(file_path) {
        None => false,
        Some(ext) => {
            let lower = to_lowercase(ext.as_str());
            let l: &str = lower.as_str();
            same_text(l, "png") || same_text(l, "jpg") || same_text(l, "jpeg") || same_text(
                l,
                "bmp",
            ) || same_text(l, "tiff") || same_text(l, "gif")
        },
    }
}

/// Whether images of format `f` keep every pixel exactly: `None` for a
/// format that carriers may not use.
pub open spec fn lossless_kind(f: FormatKind) -> Option<bool> {
    match f {
        FormatKind::Png | FormatKind::Bmp | FormatKind::Tiff => Some(true),
        FormatKind::Jpeg | FormatKind::Gif | FormatKind::WebP => Some(false),
        FormatKind::Other => None,
    }
}

/// Whether the image format that `file_path`'s extension names stores
/// pixels exactly (PNG, BMP, TIFF) or not (JPEG, GIF, WebP).
///
/// Fails with `InvalidPathError` for an extension that names no format or
/// another one.
pub fn is_lossless(file_path: &str) -> (r: Result<bool, ApplicationError>)
    ensures
        r matches Ok(b) ==> format_of_path(file_path@) matches Some(f) && lossless_kind(f) == Some(
            b,
        ),
        r is Err ==> r matches Err(ApplicationError::InvalidPathError(_)),
        r is Err <==> (format_of_path(file_path@) matches Some(f) ==> lossless_kind(f) is None),
{
    let format = match format_from_path(file_path) {
        Ok(f) => f,
        Err(_) => {
            return Err(
                ApplicationError::InvalidPathError(String::from_str("Unsupported image format")),
            );
        },
    };
    match format {
        FormatKind::Png | FormatKind::Bmp | FormatKind::Tiff => Ok(true),
        FormatKind::Jpeg | FormatKind::Gif | FormatKind::WebP => Ok(false),
        FormatKind::Other => Err(
            ApplicationError::InvalidPathError(String::from_str("Unsupported file type")),
        ),
    }
}

} // verus!
