//! Colors and the pixel buffer that text is composited into.

use vstd::prelude::*;

verus! {

/// The most pixels a canvas may hold.
pub const MAX_CANVAS_PIXELS: usize = 0x1000_0000;

/// A color with straight (not premultiplied) alpha.
#[derive(Clone, Copy, Debug, PartialEq, Eq, Structural)]
pub struct Rgba {
    pub r: u8,
    pub g: u8,
    pub b: u8,
    pub a: u8,
}

impl Rgba {
    /// A color from its four channels.
    pub fn new(r: u8, g: u8, b: u8, a: u8) -> (color: Rgba)
        ensures
            color == (Rgba { r, g, b, a }),
    {
        Rgba { r, g, b, a }
    }
}

/// An opaque color.
pub fn rgb(r: u8, g: u8, b: u8) -> (color: Rgba)
    ensures
        color == (Rgba { r, g, b, a: 255 }),
{
    Rgba { r, g, b, a: 255 }
}

/// A pixel: red, green and blue already multiplied by the alpha.
#[derive(Clone, Copy, Debug, PartialEq, Eq, Structural)]
pub struct Pixel {
    pub r: u8,
    pub g: u8,
    pub b: u8,
    pub a: u8,
}

/// The fully transparent pixel.
pub open spec fn transparent() -> Pixel {
    Pixel { r: 0, g: 0, b: 0, a: 0 }
}

impl Pixel {
    /// Whether no color channel exceeds the alpha, as premultiplication
    /// leaves it.
    pub open spec fn is_premultiplied(&self) -> bool {
        self.r <= self.a && self.g <= self.a && self.b <= self.a
    }
}

/// `color` at coverage `alpha`, premultiplied. The color's own alpha plays
/// no part: text is drawn by coverage alone.
pub open spec fn premultiply(color: Rgba, alpha: u8) -> Pixel {
    Pixel {
        r: (color.r * alpha / 255) as u8,
        g: (color.g * alpha / 255) as u8,
        b: (color.b * alpha / 255) as u8,
        a: alpha,
    }
}

/// One channel of source over destination, both premultiplied.
pub open spec fn blend_channel(src: u8, dst: u8, src_alpha: u8) -> u8 {
    let sum = src + dst * (255 - src_alpha) / 255;
    if sum > 255 {
        255u8
    } else {
        sum as u8
    }
}

/// The pixel `dst` after `color` was drawn over it at coverage `alpha`.
/// Coverage zero changes nothing; on a fully transparent pixel the source
/// is written as it is; else source is composited over destination.
pub open spec fn blend_over(dst: Pixel, color: Rgba, alpha: u8) -> Pixel {
    let src = premultiply(color, alpha);
    if alpha == 0 {
        dst
    } else if dst.a == 0 {
        src
    } else {
        Pixel {
            r: blend_channel(src.r, dst.r, alpha),
            g: blend_channel(src.g, dst.g, alpha),
            b: blend_channel(src.b, dst.b, alpha),
            a: blend_channel(alpha, dst.a, alpha),
        }
    }
}

/// Computes one channel of `premultiply`.
fn scale_channel(channel: u8, alpha: u8) -> (r: u8)
    ensures
        r == (channel * alpha / 255) as u8,
        r <= alpha,
        r == channel * alpha / 255,
{
    assert(channel * alpha <= 255 * alpha) by (nonlinear_arith)
        requires
            channel <= 255,
    ;
    assert(0 <= channel * alpha) by (nonlinear_arith);
    let product: u32 = channel as u32 * alpha as u32;
    (product / 255) as u8
}

/// Computes `blend_channel`.
fn over_channel(src: u8, dst: u8, src_alpha: u8) -> (r: u8)
    ensures
        r == blend_channel(src, dst, src_alpha),
{
    let inverse: u32 = 255 - src_alpha as u32;
    assert(dst * (255 - src_alpha) <= 255 * 255) by (nonlinear_arith)
        requires
            dst <= 255,
            0 <= 255 - src_alpha <= 255,
    ;
    assert(0 <= dst * (255 - src_alpha)) by (nonlinear_arith)
        requires
            0 <= 255 - src_alpha,
    ;
    let sum: u32 = src as u32 + dst as u32 * inverse / 255;
    if sum > 255 {
        255
    } else {
        sum as u8
    }
}

/// Computes `blend_over`.
pub fn blend(dst: Pixel, color: Rgba, alpha: u8) -> (out: Pixel)
    ensures
        out == blend_over(dst, color, alpha),
{
    if alpha == 0 {
        return dst;
    }
    let r = scale_channel(color.r, alpha);
    let g = scale_channel(color.g, alpha);
    let b = scale_channel(color.b, alpha);
    if dst.a == 0 {
        Pixel { r, g, b, a: alpha }
    } else {
        Pixel {
            r: over_channel(r, dst.r, alpha),
            g: over_channel(g, dst.g, alpha),
            b: over_channel(b, dst.b, alpha),
            a: over_channel(alpha, dst.a, alpha),
        }
    }
}

/// Blending keeps pixels premultiplied: if no channel of the destination
/// exceeds its alpha, none of the result does.
pub proof fn lemma_blend_keeps_premultiplied(dst: Pixel, color: Rgba, alpha: u8)
    requires
        dst.is_premultiplied(),
    ensures
        blend_over(dst, color, alpha).is_premultiplied(),
{
    let src = premultiply(color, alpha);
    lemma_premultiplied_channel(color.r, alpha);
    lemma_premultiplied_channel(color.g, alpha);
    lemma_premultiplied_channel(color.b, alpha);
    if alpha != 0 && dst.a != 0 {
        lemma_blend_channel_monotone(src.r, dst.r, alpha, dst.a, alpha);
        lemma_blend_channel_monotone(src.g, dst.g, alpha, dst.a, alpha);
        lemma_blend_channel_monotone(src.b, dst.b, alpha, dst.a, alpha);
    }
}

/// A premultiplied channel never exceeds the alpha.
pub proof fn lemma_premultiplied_channel(channel: u8, alpha: u8)
    ensures
        0 <= channel * alpha / 255 <= alpha,
{
    assert(channel * alpha <= 255 * alpha) by (nonlinear_arith)
        requires
            channel <= 255,
    ;
    assert(0 <= channel * alpha) by (nonlinear_arith);
}

/// Blending a smaller source over a smaller destination gives no more.
pub proof fn lemma_blend_channel_monotone(src: u8, dst: u8, src_top: u8, dst_top: u8, alpha: u8)
    requires
        src <= src_top,
        dst <= dst_top,
    ensures
        blend_channel(src, dst, alpha) <= blend_channel(src_top, dst_top, alpha),
{
    assert(dst * (255 - alpha) <= dst_top * (255 - alpha)) by (nonlinear_arith)
        requires
            dst <= dst_top,
            0 <= 255 - alpha,
    ;
    assert(dst * (255 - alpha) / 255 <= dst_top * (255 - alpha) / 255);
}

/// A drawing of full coverage over any pixel leaves the plain color.
pub proof fn lemma_full_coverage_replaces(dst: Pixel, color: Rgba)
    ensures
        blend_over(dst, color, 255) == (Pixel { r: color.r, g: color.g, b: color.b, a: 255 }),
{
    assert(color.r * 255 / 255 == color.r);
    assert(color.g * 255 / 255 == color.g);
    assert(color.b * 255 / 255 == color.b);
    assert(dst.r * (255 - 255) / 255 == 0);
    assert(dst.g * (255 - 255) / 255 == 0);
    assert(dst.b * (255 - 255) / 255 == 0);
    assert(dst.a * (255 - 255) / 255 == 0);
}

/// A rectangular buffer of premultiplied pixels, stored row by row.
#[derive(Debug)]
pub struct Canvas {
    width: u32,
    height: u32,
    pixels: Vec<Pixel>,
}

/// The index of the pixel in column `x` of row `y` in a buffer `width`
/// pixels wide.
pub open spec fn pixel_index(width: int, x: int, y: int) -> int {
    y * width + x
}

/// Different pixels of a buffer have different places in it, all inside.
pub proof fn lemma_pixel_index(width: int, height: int, x: int, y: int)
    requires
        0 <= x < width,
        0 <= y < height,
    ensures
        0 <= pixel_index(width, x, y) < width * height,
        pixel_index(width, x, y) / width == y,
        pixel_index(width, x, y) % width == x,
{
    assert(0 <= y * width && y * width + x < width * height) by (nonlinear_arith)
        requires
            0 <= x < width,
            0 <= y < height,
    ;
    vstd::arithmetic::div_mod::lemma_fundamental_div_mod_converse(
        pixel_index(width, x, y),
        width,
        y,
        x,
    );
}

/// What a canvas holds: its size and its pixels, row by row.
pub ghost struct Image {
    pub width: int,
    pub height: int,
    pub pixels: Seq<Pixel>,
}

impl Image {
    /// The pixel in column `x` of row `y`.
    pub open spec fn at(self, x: int, y: int) -> Pixel {
        self.pixels[pixel_index(self.width, x, y)]
    }

    /// Whether column `x` of row `y` lies in the image.
    pub open spec fn holds(self, x: int, y: int) -> bool {
        0 <= x < self.width && 0 <= y < self.height
    }
}

impl View for Canvas {
    type V = Image;

    open spec fn view(&self) -> Image {
        Image {
            width: self.spec_width() as int,
            height: self.spec_height() as int,
            pixels: self.pixels(),
        }
    }
}

impl Canvas {
    /// The width in pixels, as a specification value.
    pub closed spec fn spec_width(&self) -> u32 {
        self.width
    }

    /// The height in pixels, as a specification value.
    pub closed spec fn spec_height(&self) -> u32 {
        self.height
    }

    /// The pixels, row by row.
    pub closed spec fn pixels(&self) -> Seq<Pixel> {
        self.pixels@
    }

    /// The invariant: the buffer holds width times height pixels.
    pub open spec fn well_formed(&self) -> bool {
        &&& self.pixels().len() == self.spec_width() * self.spec_height()
        &&& self.pixels().len() <= MAX_CANVAS_PIXELS
    }

    /// The pixel in column `x` of row `y`.
    pub open spec fn at(&self, x: int, y: int) -> Pixel {
        self.pixels()[pixel_index(self.spec_width() as int, x, y)]
    }

    /// Whether column `x` of row `y` lies on the canvas.
    pub open spec fn holds(&self, x: int, y: int) -> bool {
        0 <= x < self.spec_width() && 0 <= y < self.spec_height()
    }

    /// Whether every pixel is premultiplied.
    pub open spec fn is_premultiplied(&self) -> bool {
        forall|i: int| 0 <= i < self.pixels().len() ==> (#[trigger] self.pixels()[i]).is_premultiplied()
    }

    /// A transparent canvas of the given size.
    pub fn new(width: u32, height: u32) -> (canvas: Canvas)
        requires
            width * height <= MAX_CANVAS_PIXELS,
        ensures
            canvas.well_formed(),
            canvas.spec_width() == width,
            canvas.spec_height() == height,
            forall|i: int| 0 <= i < canvas.pixels().len() ==> canvas.pixels()[i] == transparent(),
    {
        let count: usize = (width as u64 * height as u64) as usize;
        let mut pixels: Vec<Pixel> = Vec::with_capacity(count);
        let mut i: usize = 0;
        while i < count
            invariant
                i <= count,
                pixels.len() == i,
                forall|j: int| 0 <= j < i ==> pixels@[j] == transparent(),
            decreases count - i,
        {
            pixels.push(Pixel { r: 0, g: 0, b: 0, a: 0 });
            i += 1;
        }
        Canvas { width, height, pixels }
    }

    /// A canvas from its pixels, row by row. Returns nothing unless there
    /// are exactly `width` times `height` of them and no more than a canvas
    /// may hold.
    pub fn from_pixels(width: u32, height: u32, pixels: Vec<Pixel>) -> (canvas: Option<Canvas>)
        ensures
            canvas is Some <==> pixels.len() == width * height && pixels.len()
                <= MAX_CANVAS_PIXELS,
            canvas matches Some(c) ==> c.well_formed() && c.spec_width() == width
                && c.spec_height() == height && c.pixels() == pixels@,
    {
        assert(0 <= width * height <= 0xffff_ffff * 0xffff_ffff) by (nonlinear_arith)
            requires
                0 <= width <= 0xffff_ffff,
                0 <= height <= 0xffff_ffff,
        ;
        let count: u64 = width as u64 * height as u64;
        if count <= MAX_CANVAS_PIXELS as u64 && pixels.len() as u64 == count {
            Some(Canvas { width, height, pixels })
        } else {
            None
        }
    }

    /// The width in pixels.
    pub fn width(&self) -> (w: u32)
        ensures
            w == self.spec_width(),
    {
        self.width
    }

    /// The height in pixels.
    pub fn height(&self) -> (h: u32)
        ensures
            h == self.spec_height(),
    {
        self.height
    }

    /// The pixel in column `x` of row `y`.
    pub fn get(&self, x: u32, y: u32) -> (pixel: Pixel)
        requires
            self.well_formed(),
            self.holds(x as int, y as int),
        ensures
            pixel == self.at(x as int, y as int),
    {
        proof {
            lemma_pixel_index(self.width as int, self.height as int, x as int, y as int);
        }
        self.pixels[y as usize * self.width as usize + x as usize]
    }

    /// Replaces the pixel in column `x` of row `y`; the others stay.
    pub fn put(&mut self, x: u32, y: u32, pixel: Pixel)
        requires
            old(self).well_formed(),
            old(self).holds(x as int, y as int),
        ensures
            final(self).well_formed(),
            final(self).spec_width() == old(self).spec_width(),
            final(self).spec_height() == old(self).spec_height(),
            final(self).at(x as int, y as int) == pixel,
            final(self).pixels() == old(self).pixels().update(
                pixel_index(old(self).spec_width() as int, x as int, y as int),
                pixel,
            ),
            forall|x2: int, y2: int|
                old(self).holds(x2, y2) && (x2 != x || y2 != y) ==> final(self).at(x2, y2) == old(
                    self,
                ).at(x2, y2),
    {
        proof {
            lemma_pixel_index(self.width as int, self.height as int, x as int, y as int);
            assert forall|x2: int, y2: int| self.holds(x2, y2) && (x2 != x || y2 != y) implies pixel_index(
                self.width as int,
                x2,
                y2,
            ) != pixel_index(self.width as int, x as int, y as int) && 0 <= pixel_index(
                self.width as int,
                x2,
                y2,
            ) < self.pixels@.len() by {
                lemma_pixel_index(self.width as int, self.height as int, x2, y2);
            }
        }
        let index: usize = y as usize * self.width as usize + x as usize;
        self.pixels.set(index, pixel);
    }

    /// The pixels row by row, for handing the canvas on.
    pub fn as_pixels(&self) -> (pixels: &Vec<Pixel>)
        ensures
            pixels@ == self.pixels(),
    {
        &self.pixels
    }
}

} // verus!
