//! Pictures stored in fonts: decoding them into pixels. The decoder is
//! that of `tiny_skia`; its result is named here and nowhere proved.

use crate::render::canvas::{Canvas, Image, Pixel, MAX_CANVAS_PIXELS};
use vstd::prelude::*;

verus! {

/// What decoding the PNG file `data` gives: the width, the height and the
/// pixels as premultiplied red, green, blue and alpha bytes, row by row;
/// nothing where `data` cannot be decoded.
pub uninterp spec fn png_rgba(data: Seq<u8>) -> Option<(u32, u32, Seq<u8>)>;

/// `Pixmap::decode_png`, then the size and the bytes of the pixmap.
#[verifier::external_body]
fn decode_png(data: &Vec<u8>) -> (r: Option<(u32, u32, Vec<u8>)>)
    ensures
        r matches Some(p) ==> png_rgba(data@) == Some((p.0, p.1, p.2@)),
        r is None ==> png_rgba(data@) is None,
{
    match tiny_skia::Pixmap::decode_png(data) {
        Ok(pixmap) => Some((pixmap.width(), pixmap.height(), pixmap.take())),
        Err(_) => None,
    }
}

/// The pixels that a run of red, green, blue and alpha bytes stands for.
pub open spec fn pixels_of_rgba(bytes: Seq<u8>) -> Seq<Pixel> {
    Seq::new(
        (bytes.len() / 4) as nat,
        |i: int| Pixel { r: bytes[4 * i], g: bytes[4 * i + 1], b: bytes[4 * i + 2], a: bytes[4 * i + 3] },
    )
}

/// The image of `width` by `height` pixels that `bytes` hold, if they hold
/// exactly four bytes for each pixel and the image is one a canvas can be.
pub open spec fn image_of_rgba(width: u32, height: u32, bytes: Seq<u8>) -> Option<Image> {
    if width * height <= MAX_CANVAS_PIXELS && bytes.len() == 4 * (width * height) {
        Some(Image { width: width as int, height: height as int, pixels: pixels_of_rgba(bytes) })
    } else {
        None
    }
}

/// The image that the PNG file `data` decodes to.
pub open spec fn decoded_image(data: Seq<u8>) -> Option<Image> {
    match png_rgba(data) {
        Some((width, height, bytes)) => image_of_rgba(width, height, bytes),
        None => None,
    }
}

/// Builds a canvas from decoded bytes: computes `image_of_rgba`.
pub fn canvas_from_rgba(width: u32, height: u32, bytes: &Vec<u8>) -> (canvas: Option<Canvas>)
    ensures
        match canvas {
            Some(c) => c.well_formed() && image_of_rgba(width, height, bytes@) == Some(c@),
            None => image_of_rgba(width, height, bytes@) is None,
        },
{
    assert(0 <= width * height <= 0xffff_ffff * 0xffff_ffff) by (nonlinear_arith)
        requires
            0 <= width <= 0xffff_ffff,
            0 <= height <= 0xffff_ffff,
    ;
    let count: u64 = width as u64 * height as u64;
    if count > MAX_CANVAS_PIXELS as u64 || bytes.len() as u64 != 4 * count {
        return None;
    }
    let count: usize = count as usize;
    let mut pixels: Vec<Pixel> = Vec::with_capacity(count);
    let mut i: usize = 0;
    while i < count
        invariant
            i <= count,
            bytes.len() == 4 * count,
            count <= MAX_CANVAS_PIXELS,
            pixels@ == pixels_of_rgba(bytes@).take(i as int),
        decreases count - i,
    {
        pixels.push(
            Pixel { r: bytes[4 * i], g: bytes[4 * i + 1], b: bytes[4 * i + 2], a: bytes[4 * i + 3] },
        );
        i += 1;
        assert(pixels@ =~= pixels_of_rgba(bytes@).take(i as int));
    }
    assert(pixels_of_rgba(bytes@).take(count as int) =~= pixels_of_rgba(bytes@));
    Canvas::from_pixels(width, height, pixels)
}

/// Decodes a PNG file into a canvas: computes `decoded_image`.
pub fn decode_image(data: &Vec<u8>) -> (canvas: Option<Canvas>)
    ensures
        match canvas {
            Some(c) => c.well_formed() && decoded_image(data@) == Some(c@),
            None => decoded_image(data@) is None,
        },
{
    match decode_png(data) {
        Some((width, height, bytes)) => canvas_from_rgba(width, height, &bytes),
        None => None,
    }
}

} // verus!
