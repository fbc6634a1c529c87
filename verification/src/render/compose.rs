//! Compositing rendered glyphs into one canvas.

use crate::render::canvas::{
    blend, blend_over, lemma_pixel_index, transparent, Canvas, Pixel, Rgba, MAX_CANVAS_PIXELS,
};
use crate::render::metrics::{
    ceil_px, ceil_to_pixel, floor_px, floor_to_pixel, round_px, round_to_pixel, sat, sat_sub,
};
use crate::render::raster::{bounding_box, bounds_of, extent, RenderedGlyph};
use vstd::prelude::*;

verus! {

/// The canvas width (or height) for text that measures `length` units: the
/// length in whole pixels, rounded up, and one pixel of padding on each
/// side so that antialiased edges are not clipped.
pub open spec fn padded(length: i64) -> int {
    let whole = ceil_px(length as int);
    if whole < 0 {
        2
    } else {
        whole + 2
    }
}

/// The canvas column (or row) of the pixel at position zero, given the
/// smallest position among the glyphs.
pub open spec fn base_offset(min: i64) -> int {
    1 - floor_px(min as int)
}

/// The whole pixel nearest to a position.
pub open spec fn nearest_pixel(position: i64) -> int {
    sat(round_px(position as int)) / 64
}

/// The pixel in column `px` of row `py` after `glyph` was drawn over
/// `under`. An outlined glyph is blended in the text color by its
/// coverage; a bitmap glyph replaces what is there.
pub open spec fn glyph_pixel(
    glyph: RenderedGlyph,
    base_x: int,
    base_y: int,
    color: Rgba,
    px: int,
    py: int,
    under: Pixel,
) -> Pixel {
    match glyph {
        RenderedGlyph::Outlined(outlined) => {
            let x = px - (outlined.min_x + base_x);
            let y = py - (outlined.min_y + base_y);
            if 0 <= x < outlined.width && 0 <= y < outlined.height {
                blend_over(under, color, outlined.coverage_at(x, y))
            } else {
                under
            }
        },
        RenderedGlyph::Raster { pixmap, x: left, y: top } => {
            let x = px - (nearest_pixel(left) + base_x);
            let y = py - (nearest_pixel(top) + base_y);
            if pixmap.holds(x, y) {
                pixmap.at(x, y)
            } else {
                under
            }
        },
    }
}

/// The pixel in column `px` of row `py` after all of `glyphs` were drawn in
/// order on a transparent canvas.
pub open spec fn pixel_after(
    glyphs: Seq<RenderedGlyph>,
    base_x: int,
    base_y: int,
    color: Rgba,
    px: int,
    py: int,
) -> Pixel
    decreases glyphs.len(),
{
    if glyphs.len() == 0 {
        transparent()
    } else {
        glyph_pixel(
            glyphs.last(),
            base_x,
            base_y,
            color,
            px,
            py,
            pixel_after(glyphs.drop_last(), base_x, base_y, color, px, py),
        )
    }
}

/// The width of the canvas that `glyphs` are drawn into.
pub open spec fn canvas_width(glyphs: Seq<RenderedGlyph>) -> int {
    if glyphs.len() == 0 {
        1
    } else {
        padded(extent(bounds_of(glyphs)).0)
    }
}

/// The height of the canvas that `glyphs` are drawn into.
pub open spec fn canvas_height(glyphs: Seq<RenderedGlyph>) -> int {
    if glyphs.len() == 0 {
        1
    } else {
        padded(extent(bounds_of(glyphs)).1)
    }
}

/// Whether the canvas for `glyphs` is one that can be held.
pub open spec fn fits_canvas(glyphs: Seq<RenderedGlyph>) -> bool {
    &&& canvas_width(glyphs) <= u32::MAX
    &&& canvas_height(glyphs) <= u32::MAX
    &&& canvas_width(glyphs) * canvas_height(glyphs) <= MAX_CANVAS_PIXELS
}

/// Whether every glyph of `glyphs` is well formed.
pub open spec fn all_well_formed(glyphs: Seq<RenderedGlyph>) -> bool {
    forall|i: int| 0 <= i < glyphs.len() ==> (#[trigger] glyphs[i]).well_formed()
}

/// Computes `padded`.
fn padded_length(length: i64) -> (r: i64)
    ensures
        r == padded(length),
        2 <= r <= 0x200_0000_0000_0002,
{
    let whole = ceil_to_pixel(length);
    if whole < 0 {
        2
    } else {
        whole + 2
    }
}

/// The size of the canvas for `glyphs`, if it is one that can be held.
pub fn canvas_size(glyphs: &Vec<RenderedGlyph>) -> (size: Option<(u32, u32)>)
    ensures
        size is Some <==> fits_canvas(glyphs@),
        size matches Some(s) ==> s.0 == canvas_width(glyphs@) && s.1 == canvas_height(glyphs@),
{
    if glyphs.len() == 0 {
        assert(canvas_width(glyphs@) * canvas_height(glyphs@) == 1) by (nonlinear_arith)
            requires
                canvas_width(glyphs@) == 1,
                canvas_height(glyphs@) == 1,
        ;
        return Some((1, 1));
    }
    let rect = bounding_box(glyphs);
    let width = padded_length(sat_sub(rect.max_x, rect.min_x));
    let height = padded_length(sat_sub(rect.max_y, rect.min_y));
    if width > u32::MAX as i64 || height > u32::MAX as i64 {
        proof {
            if width > u32::MAX && height <= u32::MAX {
                assert(width * height > MAX_CANVAS_PIXELS) by (nonlinear_arith)
                    requires
                        width > 0xffff_ffff,
                        height >= 2,
                ;
            }
        }
        return None;
    }
    assert(0 <= width * height <= 0xffff_ffff * 0xffff_ffff) by (nonlinear_arith)
        requires
            0 <= width <= 0xffff_ffff,
            0 <= height <= 0xffff_ffff,
    ;
    if width as u64 * height as u64 > MAX_CANVAS_PIXELS as u64 {
        return None;
    }
    Some((width as u32, height as u32))
}

/// Draws an outlined glyph whose box has its top left corner at canvas
/// column `gx`, row `gy`. Pixels off the canvas are left out.
fn draw_outlined(
    canvas: &mut Canvas,
    glyph: &RenderedGlyph,
    base_x: i64,
    base_y: i64,
    color: Rgba,
)
    requires
        old(canvas).well_formed(),
        glyph.well_formed(),
        glyph is Outlined,
        -0x400_0000_0000_0000 <= base_x <= 0x400_0000_0000_0000,
        -0x400_0000_0000_0000 <= base_y <= 0x400_0000_0000_0000,
    ensures
        final(canvas).well_formed(),
        final(canvas).spec_width() == old(canvas).spec_width(),
        final(canvas).spec_height() == old(canvas).spec_height(),
        forall|px: int, py: int|
            old(canvas).holds(px, py) ==> #[trigger] final(canvas).at(px, py) == glyph_pixel(
                *glyph,
                base_x as int,
                base_y as int,
                color,
                px,
                py,
                old(canvas).at(px, py),
            ),
{
    let ghost before = *canvas;
    if let RenderedGlyph::Outlined(outlined) = glyph {
        let gx: i64 = outlined.min_x as i64 + base_x;
        let gy: i64 = outlined.min_y as i64 + base_y;
        let count: usize = outlined.coverage.len();
        let width: i64 = canvas.width() as i64;
        let height: i64 = canvas.height() as i64;
        let mut y: u32 = 0;
        while y < outlined.height
            invariant
                y <= outlined.height,
                outlined.well_formed(),
                count == outlined.coverage@.len(),
                *glyph == RenderedGlyph::Outlined(*outlined),
                canvas.well_formed(),
                canvas.spec_width() == before.spec_width(),
                canvas.spec_height() == before.spec_height(),
                width == canvas.spec_width(),
                height == canvas.spec_height(),
                gx == outlined.min_x + base_x,
                gy == outlined.min_y + base_y,
                -0x400_0000_0000_0000 <= base_x <= 0x400_0000_0000_0000,
                -0x400_0000_0000_0000 <= base_y <= 0x400_0000_0000_0000,
                forall|px: int, py: int|
                    before.holds(px, py) ==> #[trigger] canvas.at(px, py) == if 0 <= px - gx
                        < outlined.width && 0 <= py - gy < y {
                        glyph_pixel(
                            *glyph,
                            base_x as int,
                            base_y as int,
                            color,
                            px,
                            py,
                            before.at(px, py),
                        )
                    } else {
                        before.at(px, py)
                    },
            decreases outlined.height - y,
        {
            let py: i64 = gy + y as i64;
            let mut x: u32 = 0;
            while x < outlined.width
                invariant
                    x <= outlined.width,
                    y < outlined.height,
                    outlined.well_formed(),
                    count == outlined.coverage@.len(),
                    *glyph == RenderedGlyph::Outlined(*outlined),
                    canvas.well_formed(),
                    canvas.spec_width() == before.spec_width(),
                    canvas.spec_height() == before.spec_height(),
                    width == canvas.spec_width(),
                    height == canvas.spec_height(),
                    gx == outlined.min_x + base_x,
                    gy == outlined.min_y + base_y,
                    py == gy + y,
                    -0x400_0000_0000_0000 <= base_x <= 0x400_0000_0000_0000,
                    -0x400_0000_0000_0000 <= base_y <= 0x400_0000_0000_0000,
                    forall|qx: int, qy: int|
                        before.holds(qx, qy) ==> #[trigger] canvas.at(qx, qy) == if 0 <= qx - gx
                            < outlined.width && (0 <= qy - gy < y || (qy - gy == y && qx - gx
                            < x)) {
                            glyph_pixel(
                                *glyph,
                                base_x as int,
                                base_y as int,
                                color,
                                qx,
                                qy,
                                before.at(qx, qy),
                            )
                        } else {
                            before.at(qx, qy)
                        },
                decreases outlined.width - x,
            {
                let px: i64 = gx + x as i64;
                if px >= 0 && py >= 0 && px < width && py < height {
                    proof {
                        lemma_pixel_index(
                            outlined.width as int,
                            outlined.height as int,
                            x as int,
                            y as int,
                        );
                        assert(0 <= y * outlined.width) by (nonlinear_arith);
                    }
                    let alpha = outlined.coverage[y as usize * outlined.width as usize
                        + x as usize];
                    let under = canvas.get(px as u32, py as u32);
                    canvas.put(px as u32, py as u32, blend(under, color, alpha));
                }
                x += 1;
            }
            y += 1;
        }
    }
}

/// Copies a bitmap glyph onto the canvas, its top left corner at the whole
/// pixel nearest to its position. Pixels off the canvas are left out.
fn draw_raster(canvas: &mut Canvas, glyph: &RenderedGlyph, base_x: i64, base_y: i64, color: Rgba)
    requires
        old(canvas).well_formed(),
        glyph.well_formed(),
        glyph is Raster,
        -0x400_0000_0000_0000 <= base_x <= 0x400_0000_0000_0000,
        -0x400_0000_0000_0000 <= base_y <= 0x400_0000_0000_0000,
    ensures
        final(canvas).well_formed(),
        final(canvas).spec_width() == old(canvas).spec_width(),
        final(canvas).spec_height() == old(canvas).spec_height(),
        forall|px: int, py: int|
            old(canvas).holds(px, py) ==> #[trigger] final(canvas).at(px, py) == glyph_pixel(
                *glyph,
                base_x as int,
                base_y as int,
                color,
                px,
                py,
                old(canvas).at(px, py),
            ),
{
    let ghost before = *canvas;
    if let RenderedGlyph::Raster { pixmap, x: left, y: top } = glyph {
        let gx: i64 = round_to_pixel(*left) / 64 + base_x;
        let gy: i64 = round_to_pixel(*top) / 64 + base_y;
        let width: i64 = canvas.width() as i64;
        let height: i64 = canvas.height() as i64;
        let mut y: u32 = 0;
        while y < pixmap.height()
            invariant
                y <= pixmap.spec_height(),
                pixmap.well_formed(),
                *glyph == (RenderedGlyph::Raster { pixmap: *pixmap, x: *left, y: *top }),
                canvas.well_formed(),
                canvas.spec_width() == before.spec_width(),
                canvas.spec_height() == before.spec_height(),
                width == canvas.spec_width(),
                height == canvas.spec_height(),
                gx == nearest_pixel(*left) + base_x,
                gy == nearest_pixel(*top) + base_y,
                -0x600_0000_0000_0000 <= gx <= 0x600_0000_0000_0000,
                -0x600_0000_0000_0000 <= gy <= 0x600_0000_0000_0000,
                forall|px: int, py: int|
                    before.holds(px, py) ==> #[trigger] canvas.at(px, py) == if 0 <= px - gx
                        < pixmap.spec_width() && 0 <= py - gy < y {
                        glyph_pixel(
                            *glyph,
                            base_x as int,
                            base_y as int,
                            color,
                            px,
                            py,
                            before.at(px, py),
                        )
                    } else {
                        before.at(px, py)
                    },
            decreases pixmap.spec_height() - y,
        {
            let py: i64 = gy + y as i64;
            let mut x: u32 = 0;
            while x < pixmap.width()
                invariant
                    x <= pixmap.spec_width(),
                    y < pixmap.spec_height(),
                    pixmap.well_formed(),
                    *glyph == (RenderedGlyph::Raster { pixmap: *pixmap, x: *left, y: *top }),
                    canvas.well_formed(),
                    canvas.spec_width() == before.spec_width(),
                    canvas.spec_height() == before.spec_height(),
                    width == canvas.spec_width(),
                    height == canvas.spec_height(),
                    gx == nearest_pixel(*left) + base_x,
                    gy == nearest_pixel(*top) + base_y,
                    py == gy + y,
                    -0x600_0000_0000_0000 <= gx <= 0x600_0000_0000_0000,
                    -0x600_0000_0000_0000 <= gy <= 0x600_0000_0000_0000,
                    forall|qx: int, qy: int|
                        before.holds(qx, qy) ==> #[trigger] canvas.at(qx, qy) == if 0 <= qx - gx
                            < pixmap.spec_width() && (0 <= qy - gy < y || (qy - gy == y && qx
                            - gx < x)) {
                            glyph_pixel(
                                *glyph,
                                base_x as int,
                                base_y as int,
                                color,
                                qx,
                                qy,
                                before.at(qx, qy),
                            )
                        } else {
                            before.at(qx, qy)
                        },
                decreases pixmap.spec_width() - x,
            {
                let px: i64 = gx + x as i64;
                if px >= 0 && py >= 0 && px < width && py < height {
                    let pixel = pixmap.get(x, y);
                    canvas.put(px as u32, py as u32, pixel);
                }
                x += 1;
            }
            y += 1;
        }
    }
}

/// Composites the glyphs of a text into a canvas sized to their bounding
/// box with one pixel of padding on every side.
///
/// Without glyphs the canvas is a single transparent pixel. Outlined
/// glyphs are blended in `color` by their coverage, in order; bitmap glyphs
/// are copied over what is there.
pub fn finish_glyphs(glyphs: &Vec<RenderedGlyph>, color: Rgba) -> (canvas: Canvas)
    requires
        all_well_formed(glyphs@),
        fits_canvas(glyphs@),
    ensures
        canvas.well_formed(),
        canvas.spec_width() == canvas_width(glyphs@),
        canvas.spec_height() == canvas_height(glyphs@),
        forall|px: int, py: int|
            canvas.holds(px, py) ==> #[trigger] canvas.at(px, py) == pixel_after(
                glyphs@,
                base_offset(bounds_of(glyphs@).min_x),
                base_offset(bounds_of(glyphs@).min_y),
                color,
                px,
                py,
            ),
{
    let size = canvas_size(glyphs);
    let (width, height) = size.unwrap();
    let mut canvas = Canvas::new(width, height);
    proof {
        assert forall|px: int, py: int| canvas.holds(px, py) implies #[trigger] canvas.at(px, py)
            == transparent() by {
            lemma_pixel_index(width as int, height as int, px, py);
        }
    }
    if glyphs.len() == 0 {
        return canvas;
    }
    let rect = bounding_box(glyphs);
    let base_x: i64 = 1 - floor_to_pixel(rect.min_x);
    let base_y: i64 = 1 - floor_to_pixel(rect.min_y);
    let mut i: usize = 0;
    while i < glyphs.len()
        invariant
            i <= glyphs.len(),
            all_well_formed(glyphs@),
            canvas.well_formed(),
            canvas.spec_width() == width,
            canvas.spec_height() == height,
            base_x == base_offset(bounds_of(glyphs@).min_x),
            base_y == base_offset(bounds_of(glyphs@).min_y),
            -0x400_0000_0000_0000 <= base_x <= 0x400_0000_0000_0000,
            -0x400_0000_0000_0000 <= base_y <= 0x400_0000_0000_0000,
            forall|px: int, py: int|
                canvas.holds(px, py) ==> #[trigger] canvas.at(px, py) == pixel_after(
                    glyphs@.take(i as int),
                    base_x as int,
                    base_y as int,
                    color,
                    px,
                    py,
                ),
        decreases glyphs.len() - i,
    {
        let glyph = &glyphs[i];
        proof {
            assert(glyphs@[i as int].well_formed());
            assert(glyphs@.take(i + 1).drop_last() =~= glyphs@.take(i as int));
            assert(glyphs@.take(i + 1).last() == *glyph);
        }
        match glyph {
            RenderedGlyph::Outlined(_) => draw_outlined(&mut canvas, glyph, base_x, base_y, color),
            RenderedGlyph::Raster { .. } => draw_raster(&mut canvas, glyph, base_x, base_y, color),
        }
        i += 1;
    }
    proof {
        assert(glyphs@.take(glyphs@.len() as int) =~= glyphs@);
    }
    canvas
}

/// Text without glyphs gives a canvas of exactly one pixel.
pub proof fn lemma_no_glyphs_one_pixel()
    ensures
        canvas_width(Seq::empty()) == 1,
        canvas_height(Seq::empty()) == 1,
        fits_canvas(Seq::empty()),
{
    let none = Seq::<RenderedGlyph>::empty();
    assert(canvas_width(none) * canvas_height(none) == 1) by (nonlinear_arith)
        requires
            canvas_width(none) == 1,
            canvas_height(none) == 1,
    ;
}

/// Whether the pixels of every bitmap glyph are premultiplied.
pub open spec fn pictures_premultiplied(glyphs: Seq<RenderedGlyph>) -> bool {
    forall|i: int|
        0 <= i < glyphs.len() ==> (#[trigger] glyphs[i] matches RenderedGlyph::Raster {
            pixmap,
            ..
        } ==> pixmap.is_premultiplied())
}

/// Compositing keeps pixels premultiplied: if the bitmaps of the glyphs
/// are, every pixel of the finished canvas is.
pub proof fn lemma_composite_is_premultiplied(
    glyphs: Seq<RenderedGlyph>,
    base_x: int,
    base_y: int,
    color: Rgba,
    px: int,
    py: int,
)
    requires
        all_well_formed(glyphs),
        pictures_premultiplied(glyphs),
    ensures
        pixel_after(glyphs, base_x, base_y, color, px, py).is_premultiplied(),
    decreases glyphs.len(),
{
    if glyphs.len() > 0 {
        let front = glyphs.drop_last();
        assert forall|i: int| 0 <= i < front.len() implies (#[trigger] front[i]).well_formed() by {
            assert(front[i] == glyphs[i]);
        }
        assert forall|i: int| 0 <= i < front.len() implies (#[trigger] front[i] matches RenderedGlyph::Raster {
            pixmap,
            ..
        } ==> pixmap.is_premultiplied()) by {
            assert(front[i] == glyphs[i]);
        }
        lemma_composite_is_premultiplied(front, base_x, base_y, color, px, py);
        let under = pixel_after(front, base_x, base_y, color, px, py);
        let last = glyphs[glyphs.len() - 1];
        assert(last.well_formed());
        match last {
            RenderedGlyph::Outlined(outlined) => {
                let x = px - (outlined.min_x + base_x);
                let y = py - (outlined.min_y + base_y);
                if 0 <= x < outlined.width && 0 <= y < outlined.height {
                    crate::render::canvas::lemma_blend_keeps_premultiplied(
                        under,
                        color,
                        outlined.coverage_at(x, y),
                    );
                }
            },
            RenderedGlyph::Raster { pixmap, x: left, y: top } => {
                let x = px - (nearest_pixel(left) + base_x);
                let y = py - (nearest_pixel(top) + base_y);
                if pixmap.holds(x, y) {
                    lemma_pixel_index(
                        pixmap.spec_width() as int,
                        pixmap.spec_height() as int,
                        x,
                        y,
                    );
                }
            },
        }
    }
}

} // verus!
