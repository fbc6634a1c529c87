//! Rendered glyphs, their bounds, and scaling of glyph bitmaps.

use crate::render::canvas::{pixel_index, Canvas};
use crate::render::metrics::{sat, sat_add, sat_sub};
use vstd::prelude::*;

verus! {

/// A rectangle in 1/64 pixel: `min` is its top left corner.
#[derive(Clone, Copy, Debug, PartialEq, Eq, Structural)]
pub struct Rect {
    pub min_x: i64,
    pub min_y: i64,
    pub max_x: i64,
    pub max_y: i64,
}

/// A glyph drawn from its outline: the whole pixels it covers and how much
/// of each is covered, row by row, 255 for a fully covered pixel.
#[derive(Debug)]
pub struct OutlinedGlyph {
    pub min_x: i32,
    pub min_y: i32,
    pub width: u32,
    pub height: u32,
    pub coverage: Vec<u8>,
}

/// A glyph ready for compositing.
#[derive(Debug)]
pub enum RenderedGlyph {
    /// A glyph filled from its outline in the text color.
    Outlined(OutlinedGlyph),
    /// A glyph that is a picture of its own, such as a color emoji, with
    /// the position of its top left corner in 1/64 pixel.
    Raster { pixmap: Canvas, x: i64, y: i64 },
}

impl OutlinedGlyph {
    /// The invariant: one coverage value for each pixel of the box.
    pub open spec fn well_formed(&self) -> bool {
        self.coverage@.len() == self.width * self.height
    }

    /// The coverage of the pixel in column `x` of row `y` of the box.
    pub open spec fn coverage_at(&self, x: int, y: int) -> u8 {
        self.coverage@[pixel_index(self.width as int, x, y)]
    }
}

impl RenderedGlyph {
    /// The invariant of the glyph's data.
    pub open spec fn well_formed(&self) -> bool {
        match self {
            RenderedGlyph::Outlined(outlined) => outlined.well_formed(),
            RenderedGlyph::Raster { pixmap, .. } => pixmap.well_formed(),
        }
    }

    /// The rectangle that the glyph takes up.
    pub open spec fn spec_bounds(&self) -> Rect {
        match self {
            RenderedGlyph::Outlined(outlined) => Rect {
                min_x: (outlined.min_x * 64) as i64,
                min_y: (outlined.min_y * 64) as i64,
                max_x: ((outlined.min_x + outlined.width) * 64) as i64,
                max_y: ((outlined.min_y + outlined.height) * 64) as i64,
            },
            RenderedGlyph::Raster { pixmap, x, y } => Rect {
                min_x: *x,
                min_y: *y,
                max_x: sat(x + pixmap.spec_width() * 64) as i64,
                max_y: sat(y + pixmap.spec_height() * 64) as i64,
            },
        }
    }

    /// Computes `spec_bounds`.
    pub fn bounds(&self) -> (rect: Rect)
        ensures
            rect == self.spec_bounds(),
    {
        match self {
            RenderedGlyph::Outlined(outlined) => {
                let left: i64 = outlined.min_x as i64;
                let top: i64 = outlined.min_y as i64;
                Rect {
                    min_x: left * 64,
                    min_y: top * 64,
                    max_x: (left + outlined.width as i64) * 64,
                    max_y: (top + outlined.height as i64) * 64,
                }
            },
            RenderedGlyph::Raster { pixmap, x, y } => Rect {
                min_x: *x,
                min_y: *y,
                max_x: sat_add(*x, pixmap.width() as i64 * 64),
                max_y: sat_add(*y, pixmap.height() as i64 * 64),
            },
        }
    }
}

/// The smallest rectangle that holds both `a` and `b`.
pub open spec fn union(a: Rect, b: Rect) -> Rect {
    Rect {
        min_x: if b.min_x < a.min_x {
            b.min_x
        } else {
            a.min_x
        },
        min_y: if b.min_y < a.min_y {
            b.min_y
        } else {
            a.min_y
        },
        max_x: if b.max_x > a.max_x {
            b.max_x
        } else {
            a.max_x
        },
        max_y: if b.max_y > a.max_y {
            b.max_y
        } else {
            a.max_y
        },
    }
}

/// The smallest rectangle that holds every glyph; the empty rectangle at
/// the origin where there is no glyph.
pub open spec fn bounds_of(glyphs: Seq<RenderedGlyph>) -> Rect
    decreases glyphs.len(),
{
    if glyphs.len() == 0 {
        Rect { min_x: 0, min_y: 0, max_x: 0, max_y: 0 }
    } else if glyphs.len() == 1 {
        glyphs[0].spec_bounds()
    } else {
        union(bounds_of(glyphs.drop_last()), glyphs.last().spec_bounds())
    }
}

/// The width and height of a rectangle.
pub open spec fn extent(rect: Rect) -> (i64, i64) {
    (sat(rect.max_x - rect.min_x) as i64, sat(rect.max_y - rect.min_y) as i64)
}

/// Computes `bounds_of`.
pub fn bounding_box(glyphs: &Vec<RenderedGlyph>) -> (rect: Rect)
    ensures
        rect == bounds_of(glyphs@),
{
    if glyphs.len() == 0 {
        return Rect { min_x: 0, min_y: 0, max_x: 0, max_y: 0 };
    }
    let mut sum = glyphs[0].bounds();
    assert(glyphs@.take(1) =~= seq![glyphs@[0]]);
    let mut i: usize = 1;
    while i < glyphs.len()
        invariant
            1 <= i <= glyphs.len(),
            sum == bounds_of(glyphs@.take(i as int)),
        decreases glyphs.len() - i,
    {
        let next = glyphs[i].bounds();
        proof {
            assert(glyphs@.take(i + 1).drop_last() =~= glyphs@.take(i as int));
            assert(glyphs@.take(i + 1).last() == glyphs@[i as int]);
        }
        if next.min_x < sum.min_x {
            sum.min_x = next.min_x;
        }
        if next.min_y < sum.min_y {
            sum.min_y = next.min_y;
        }
        if next.max_x > sum.max_x {
            sum.max_x = next.max_x;
        }
        if next.max_y > sum.max_y {
            sum.max_y = next.max_y;
        }
        i += 1;
    }
    assert(glyphs@.take(glyphs@.len() as int) =~= glyphs@);
    sum
}

/// The size of the rendered text without rendering it: the width and the
/// height of the bounding box of its glyphs, in 1/64 pixel.
pub fn measure_glyphs(glyphs: &Vec<RenderedGlyph>) -> (size: (i64, i64))
    ensures
        size == extent(bounds_of(glyphs@)),
{
    let rect = bounding_box(glyphs);
    (sat_sub(rect.max_x, rect.min_x), sat_sub(rect.max_y, rect.min_y))
}

/// The bounding box holds each glyph.
pub proof fn lemma_bounds_hold_each(glyphs: Seq<RenderedGlyph>, i: int)
    requires
        0 <= i < glyphs.len(),
    ensures
        bounds_of(glyphs).min_x <= glyphs[i].spec_bounds().min_x,
        bounds_of(glyphs).min_y <= glyphs[i].spec_bounds().min_y,
        bounds_of(glyphs).max_x >= glyphs[i].spec_bounds().max_x,
        bounds_of(glyphs).max_y >= glyphs[i].spec_bounds().max_y,
    decreases glyphs.len(),
{
    if glyphs.len() > 1 && i < glyphs.len() - 1 {
        lemma_bounds_hold_each(glyphs.drop_last(), i);
    }
}

/// Further glyphs never shrink the bounding box: the measured size of a
/// text with further glyphs is at least that without them.
pub proof fn lemma_bounds_grow(glyphs: Seq<RenderedGlyph>, more: Seq<RenderedGlyph>)
    requires
        glyphs.len() > 0,
    ensures
        bounds_of(glyphs + more).min_x <= bounds_of(glyphs).min_x,
        bounds_of(glyphs + more).min_y <= bounds_of(glyphs).min_y,
        bounds_of(glyphs + more).max_x >= bounds_of(glyphs).max_x,
        bounds_of(glyphs + more).max_y >= bounds_of(glyphs).max_y,
        extent(bounds_of(glyphs + more)).0 >= extent(bounds_of(glyphs)).0,
        extent(bounds_of(glyphs + more)).1 >= extent(bounds_of(glyphs)).1,
    decreases more.len(),
{
    if more.len() == 0 {
        assert(glyphs + more =~= glyphs);
    } else {
        lemma_bounds_grow(glyphs, more.drop_last());
        assert((glyphs + more).drop_last() =~= glyphs + more.drop_last());
    }
}

/// Whether a rectangle has an inside.
pub open spec fn has_area(rect: Rect) -> bool {
    rect.min_x < rect.max_x && rect.min_y < rect.max_y
}

/// Text that leaves at least one glyph, each with an inside, measures
/// more than nothing in both directions.
pub proof fn lemma_measure_is_positive(glyphs: Seq<RenderedGlyph>)
    requires
        glyphs.len() > 0,
        forall|i: int| 0 <= i < glyphs.len() ==> has_area(#[trigger] glyphs[i].spec_bounds()),
    ensures
        extent(bounds_of(glyphs)).0 > 0,
        extent(bounds_of(glyphs)).1 > 0,
{
    lemma_bounds_hold_each(glyphs, 0);
    assert(has_area(glyphs[0].spec_bounds()));
}

} // verus!
