//! Encoding a composed image as PNG or BMP bytes for the clipboard and
//! file sinks.

use crate::pixels::{Image, Rgba};
use image::ImageEncoder;
use vstd::prelude::*;

verus! {

#[verifier::external_type_specification]
#[verifier::external_body]
pub struct ExImageError(image::ImageError);

/// The bytes `image`'s PNG encoder writes for a `width × height` RGBA8
/// buffer.
pub uninterp spec fn png_encoding(width: nat, height: nat, rgba: Seq<u8>) -> Seq<u8>;

/// The bytes `image`'s BMP encoder writes for a `width × height` RGBA8
/// buffer.
pub uninterp spec fn bmp_encoding(width: nat, height: nat, rgba: Seq<u8>) -> Seq<u8>;

/// Why an export did not produce its bytes or reach its sink.
#[derive(Debug)]
pub enum ExportError {
    /// The image codec refused the buffer.
    EncodeFailed(String),
    /// No clipboard helper took the image.
    ClipboardUnavailable(String),
    /// The file could not be written.
    SaveFailed(String),
}

/// The pixels as raw bytes, four per pixel in the order red, green, blue,
/// alpha.
pub open spec fn rgba_bytes(pixels: Seq<Rgba>) -> Seq<u8>
    decreases pixels.len(),
{
    if pixels.len() == 0 {
        Seq::empty()
    } else {
        let p = pixels.last();
        rgba_bytes(pixels.drop_last()) + seq![p.r, p.g, p.b, p.a]
    }
}

pub proof fn lemma_rgba_bytes_len(pixels: Seq<Rgba>)
    ensures
        rgba_bytes(pixels).len() == 4 * pixels.len(),
    decreases pixels.len(),
{
    if pixels.len() > 0 {
        lemma_rgba_bytes_len(pixels.drop_last());
    }
}

/// The raw RGBA8 bytes of an image.
pub fn to_rgba_bytes(img: &Image) -> (bytes: Vec<u8>)
    requires
        img.wf(),
    ensures
        bytes@ == rgba_bytes(img@.pixels),
        bytes@.len() == 4 * img@.width * img@.height,
{
    let pixels = img.pixels();
    let mut bytes: Vec<u8> = Vec::new();
    let mut i: usize = 0;
    while i < pixels.len()
        invariant
            0 <= i <= pixels@.len(),
            bytes@ == rgba_bytes(pixels@.take(i as int)),
        decreases pixels@.len() - i,
    {
        assert(pixels@.take(i as int + 1).drop_last() =~= pixels@.take(i as int));
        let p = pixels[i];
        bytes.push(p.r);
        bytes.push(p.g);
        bytes.push(p.b);
        bytes.push(p.a);
        assert(bytes@ =~= rgba_bytes(pixels@.take(i as int)) + seq![p.r, p.g, p.b, p.a]);
        i = i + 1;
    }
    assert(pixels@.take(i as int) =~= pixels@);
    proof {
        lemma_rgba_bytes_len(pixels@);
        assert(4 * (img@.width * img@.height) == 4 * img@.width * img@.height) by (nonlinear_arith);
    }
    bytes
}

/// Relies on `image::codecs::png::PngEncoder::write_image`: for a buffer of
/// `width * height` RGBA8 pixels (it panics on any other length) it writes
/// the PNG file into `bytes`, a deterministic function of its input. Its
/// only refusals for RGBA8 are a zero width or height (png's
/// `Writer::init`); writing into a `Vec` cannot fail.
#[verifier::external_body]
fn write_png(data: &Vec<u8>, width: u32, height: u32) -> (r: Result<Vec<u8>, image::ImageError>)
    requires
        data@.len() == 4 * width * height,
    ensures
        r matches Ok(b) ==> b@ == png_encoding(width as nat, height as nat, data@),
        width > 0 && height > 0 ==> r is Ok,
{
    let mut bytes: Vec<u8> = Vec::new();
    let encoder = image::codecs::png::PngEncoder::new(&mut bytes);
    match encoder.write_image(data.as_slice(), width, height, image::ExtendedColorType::Rgba8) {
        Ok(()) => Ok(bytes),
        Err(e) => Err(e),
    }
}

/// Relies on `image::codecs::bmp::BmpEncoder::encode`: for a buffer of
/// `width * height` RGBA8 pixels (it panics on any other length) it writes
/// the BMP file into `bytes`, a deterministic function of its input. It
/// refuses only sizes that overflow `u32`: the row of `4 * width` bytes, and
/// the file of `4 * width * height` bytes after the 14-byte file header and
/// the 108-byte V4 header; writing into a `Vec` cannot fail.
#[verifier::external_body]
fn write_bmp(data: &Vec<u8>, width: u32, height: u32) -> (r: Result<Vec<u8>, image::ImageError>)
    requires
        data@.len() == 4 * width * height,
    ensures
        r matches Ok(b) ==> b@ == bmp_encoding(width as nat, height as nat, data@),
        4 * width <= u32::MAX && 4 * width * height + 122 <= u32::MAX ==> r is Ok,
{
    let mut bytes: Vec<u8> = Vec::new();
    let mut encoder = image::codecs::bmp::BmpEncoder::new(&mut bytes);
    match encoder.encode(data.as_slice(), width, height, image::ExtendedColorType::Rgba8) {
        Ok(()) => Ok(bytes),
        Err(e) => Err(e),
    }
}

/// Relies on `image::ImageError`'s `Display`: its message, for a status
/// line.
#[verifier::external_body]
fn image_error_message(e: &image::ImageError) -> String {
    e.to_string()
}

/// The image encoded as PNG.
pub fn encode_png(img: &Image) -> (r: Result<Vec<u8>, ExportError>)
    requires
        img.wf(),
    ensures
        r matches Ok(b) ==> b@ == png_encoding(img@.width, img@.height, rgba_bytes(img@.pixels)),
        r matches Err(e) ==> e is EncodeFailed,
        img@.width > 0 && img@.height > 0 ==> r is Ok,
{
    let data = to_rgba_bytes(img);
    match write_png(&data, img.width(), img.height()) {
        Ok(b) => Ok(b),
        Err(e) => Err(ExportError::EncodeFailed(image_error_message(&e))),
    }
}

/// The image encoded as BMP.
pub fn encode_bmp(img: &Image) -> (r: Result<Vec<u8>, ExportError>)
    requires
        img.wf(),
    ensures
        r matches Ok(b) ==> b@ == bmp_encoding(img@.width, img@.height, rgba_bytes(img@.pixels)),
        r matches Err(e) ==> e is EncodeFailed,
        4 * img@.width <= u32::MAX && 4 * img@.width * img@.height + 122 <= u32::MAX ==> r is Ok,
{
    let data = to_rgba_bytes(img);
    match write_bmp(&data, img.width(), img.height()) {
        Ok(b) => Ok(b),
        Err(e) => Err(ExportError::EncodeFailed(image_error_message(&e))),
    }
}

} // verus!
