//! The raster container and transfer encodings, supplied by the `image` and
//! `base64` crates.
use base64::Engine;
use image::ImageEncoder;
use vstd::prelude::*;
use vstd::utf8::is_ascii_chars;

verus! {

/// Standard padded base64 text of a byte sequence.
pub uninterp spec fn base64_of(data: Seq<u8>) -> Seq<char>;

/// PNG file bytes of an 8-bit RGBA image.
pub uninterp spec fn png_of(width: u32, height: u32, rgba: Seq<u8>) -> Seq<u8>;

/// RGBA pixels of an image resampled to a new size with a triangle (bilinear) filter.
pub uninterp spec fn triangle_resized(
    width: u32,
    height: u32,
    rgba: Seq<u8>,
    new_width: u32,
    new_height: u32,
) -> Seq<u8>;

/// Relies on base64's `Engine::encode` with the `STANDARD` engine: the padded
/// standard-alphabet encoding of the bytes, made of ASCII symbols only. The
/// size computation cannot overflow for a slice that fits in memory; the
/// padded length is four symbols per started group of three bytes.
#[verifier::external_body]
pub(crate) fn base64_encode(data: &[u8]) -> (r: String)
    ensures
        r@ == base64_of(data@),
        r@.len() == 4 * ((data@.len() + 2) / 3),
        is_ascii_chars(r@),
{
    base64::engine::general_purpose::STANDARD.encode(data)
}

/// Relies on image's `PngEncoder::write_image` for an RGBA8 buffer: the bytes of
/// the PNG file, which depend on the pixels alone. It asserts the buffer length,
/// hence the `requires`; an encoding error leaves the bytes written so far.
#[verifier::external_body]
pub(crate) fn png_encode(width: u32, height: u32, rgba: &[u8]) -> (r: Vec<u8>)
    requires
        rgba@.len() == width * height * 4,
    ensures
        r@ == png_of(width, height, rgba@),
{
    let mut out: Vec<u8> = Vec::new();
    let encoder = image::codecs::png::PngEncoder::new(&mut out);
    encoder.write_image(rgba, width, height, image::ExtendedColorType::Rgba8).ok();
    out
}

/// Relies on image's `imageops::resize` with `FilterType::Triangle`: an image of
/// exactly the new size. `from_raw` accepts a buffer of the stated length, and
/// the buffers allocated for the result must fit in `usize`.
#[verifier::external_body]
pub(crate) fn resize_triangle(
    width: u32,
    height: u32,
    rgba: &Vec<u8>,
    new_width: u32,
    new_height: u32,
) -> (r: Vec<u8>)
    requires
        rgba@.len() == width * height * 4,
        new_width * new_height * 4 <= usize::MAX,
        width * new_height * 4 <= usize::MAX,
    ensures
        r@ == triangle_resized(width, height, rgba@, new_width, new_height),
        r@.len() == new_width * new_height * 4,
{
    let source = image::RgbaImage::from_raw(width, height, rgba.clone()).unwrap();
    let filter = image::imageops::FilterType::Triangle;
    image::imageops::resize(&source, new_width, new_height, filter).into_raw()
}

} // verus!
