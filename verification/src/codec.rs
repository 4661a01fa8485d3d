//! Byte-stream encodings delegated to outside codec crates.

use vstd::prelude::*;

use crate::bitmap::Bitmap;

verus! {

/// What the image crate's PNG encoder produces for a bitmap's raw RGBA
/// bytes and dimensions.  A function of its arguments alone.
pub uninterp spec fn png_of(pixels: Seq<u8>, width: u32, height: u32) -> Seq<u8>;

/// Whether the image crate's PNG encoder accepts a bitmap's raw RGBA bytes
/// and dimensions.  Writing to an in-memory buffer with fixed defaults, the
/// outcome is a function of the arguments alone (zero dimensions and the
/// codec's size limits are rejected deterministically).
pub uninterp spec fn png_ok(pixels: Seq<u8>, width: u32, height: u32) -> bool;

/// What base64's standard padded alphabet produces for a byte sequence.
/// A function of the bytes alone.
pub uninterp spec fn base64_of(bytes: Seq<u8>) -> Seq<char>;

/// Relies on image's PNG encoder through DynamicImage::write_to: success is
/// deterministic in the pixel bytes and dimensions, and on success the
/// result is their PNG serialization.  (The buffer-construction step cannot
/// fail here: the byte count matches the dimensions.)
#[verifier::external_body]
pub(crate) fn png_encode(img: &Bitmap) -> (r: Result<Vec<u8>, ()>)
    requires
        img.wf(),
    ensures
        r is Ok <==> png_ok(img.pixels@, img.width, img.height),
        r is Ok ==> r->Ok_0@ == png_of(img.pixels@, img.width, img.height),
{
    let buf = match image::RgbaImage::from_raw(img.width, img.height, img.pixels.clone()) {
        Some(b) => b,
        None => return Err(()),
    };
    let mut png: Vec<u8> = Vec::new();
    let dynimg = image::DynamicImage::ImageRgba8(buf);
    match dynimg.write_to(&mut std::io::Cursor::new(&mut png), image::ImageFormat::Png) {
        Ok(()) => Ok(png),
        Err(_) => Err(()),
    }
}

/// Relies on base64's STANDARD engine: encodes with padding, four output
/// characters for every started group of three input bytes, a function of
/// the bytes alone.
#[verifier::external_body]
pub(crate) fn base64_encode(bytes: &Vec<u8>) -> (r: String)
    requires
        4 * bytes@.len() <= usize::MAX,
    ensures
        r@ == base64_of(bytes@),
        r@.len() == 4 * ((bytes@.len() + 2) / 3),
{
    base64::Engine::encode(&base64::engine::general_purpose::STANDARD, bytes)
}

} // verus!
