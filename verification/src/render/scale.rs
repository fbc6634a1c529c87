//! Downscaling of glyph bitmaps by averaging areas.

use crate::render::canvas::{
    lemma_pixel_index, pixel_index, transparent, Canvas, Image, Pixel, MAX_CANVAS_PIXELS,
};
use vstd::prelude::*;

verus! {

/// Sums of the four channels over some pixels.
pub ghost struct ChannelSums {
    pub r: int,
    pub g: int,
    pub b: int,
    pub a: int,
}

/// The sums with one more pixel.
pub open spec fn add_pixel(sums: ChannelSums, pixel: Pixel) -> ChannelSums {
    ChannelSums {
        r: sums.r + pixel.r,
        g: sums.g + pixel.g,
        b: sums.b + pixel.b,
        a: sums.a + pixel.a,
    }
}

/// The sums over the columns `x0` up to `x1` of row `y`, added to `sums`.
pub open spec fn sum_row(src: Image, sums: ChannelSums, y: int, x0: int, x1: int) -> ChannelSums
    decreases x1 - x0,
{
    if x1 <= x0 {
        sums
    } else {
        add_pixel(sum_row(src, sums, y, x0, x1 - 1), src.at(x1 - 1, y))
    }
}

/// The sums over the columns `x0` up to `x1` of the rows `y0` up to `y1`.
pub open spec fn sum_region(src: Image, x0: int, x1: int, y0: int, y1: int) -> ChannelSums
    decreases y1 - y0,
{
    if y1 <= y0 {
        ChannelSums { r: 0, g: 0, b: 0, a: 0 }
    } else {
        sum_row(src, sum_region(src, x0, x1, y0, y1 - 1), y1 - 1, x0, x1)
    }
}

/// The first source column (or row) that maps into target column `d`.
pub open spec fn region_start(d: int, source: int, target: int) -> int {
    d * source / target
}

/// One past the last source column (or row) that maps into target column
/// `d`.
pub open spec fn region_end(d: int, source: int, target: int) -> int {
    let end = ((d + 1) * source + target - 1) / target;
    if end > source {
        source
    } else {
        end
    }
}

/// The pixel in column `dx` of row `dy` of `src` scaled to `width` by
/// `height`: the average, channel by channel and rounded down, of the
/// source pixels whose area maps into it.
pub open spec fn scaled_pixel(src: Image, width: int, height: int, dx: int, dy: int) -> Pixel {
    let x0 = region_start(dx, src.width, width);
    let x1 = region_end(dx, src.width, width);
    let y0 = region_start(dy, src.height, height);
    let y1 = region_end(dy, src.height, height);
    if x1 <= x0 || y1 <= y0 {
        transparent()
    } else {
        let count = (x1 - x0) * (y1 - y0);
        let sums = sum_region(src, x0, x1, y0, y1);
        Pixel {
            r: (sums.r / count) as u8,
            g: (sums.g / count) as u8,
            b: (sums.b / count) as u8,
            a: (sums.a / count) as u8,
        }
    }
}

/// The image `src` scaled to `width` by `height` pixels by averaging
/// areas; an image of that size already is left as it is.
pub open spec fn scaled_image(src: Image, width: int, height: int) -> Image {
    if src.width == width && src.height == height {
        src
    } else {
        Image {
            width,
            height,
            pixels: Seq::new(
                (width * height) as nat,
                |i: int| scaled_pixel(src, width, height, i % width, i / width),
            ),
        }
    }
}

/// Computes `region_start` and `region_end`.
fn region(d: u32, source: u32, target: u32) -> (r: (u32, u32))
    requires
        d < target,
    ensures
        r.0 == region_start(d as int, source as int, target as int),
        r.1 == region_end(d as int, source as int, target as int),
        r.0 <= source,
        r.1 <= source,
{
    assert(0 <= d * source <= target * source && (d + 1) * source <= target * source && 0 <= (d
        + 1) * source) by (nonlinear_arith)
        requires
            0 <= d < target,
            0 <= source,
    ;
    assert(target * source <= 0xffff_ffff * 0xffff_ffff) by (nonlinear_arith)
        requires
            0 <= target <= 0xffff_ffff,
            0 <= source <= 0xffff_ffff,
    ;
    let start: u64 = d as u64 * source as u64 / target as u64;
    let end: u64 = ((d as u64 + 1) * source as u64 + target as u64 - 1) / target as u64;
    assert(d * source / (target as int) <= source) by (nonlinear_arith)
        requires
            0 <= d * source <= target * source,
            target > 0,
    ;
    let end: u64 = if end > source as u64 {
        source as u64
    } else {
        end
    };
    (start as u32, end as u32)
}

/// The sums over a region never exceed 255 for each pixel in it.
proof fn lemma_sum_row_bound(src: Image, sums: ChannelSums, y: int, x0: int, x1: int, n: int)
    requires
        x0 <= x1,
        0 <= sums.r <= 255 * n,
        0 <= sums.g <= 255 * n,
        0 <= sums.b <= 255 * n,
        0 <= sums.a <= 255 * n,
    ensures
        0 <= sum_row(src, sums, y, x0, x1).r <= 255 * (n + x1 - x0),
        0 <= sum_row(src, sums, y, x0, x1).g <= 255 * (n + x1 - x0),
        0 <= sum_row(src, sums, y, x0, x1).b <= 255 * (n + x1 - x0),
        0 <= sum_row(src, sums, y, x0, x1).a <= 255 * (n + x1 - x0),
    decreases x1 - x0,
{
    if x1 > x0 {
        lemma_sum_row_bound(src, sums, y, x0, x1 - 1, n);
    }
}

/// The sums over a region never exceed 255 for each pixel in it.
pub proof fn lemma_sum_region_bound(src: Image, x0: int, x1: int, y0: int, y1: int)
    requires
        x0 <= x1,
        y0 <= y1,
    ensures
        0 <= sum_region(src, x0, x1, y0, y1).r <= 255 * ((x1 - x0) * (y1 - y0)),
        0 <= sum_region(src, x0, x1, y0, y1).g <= 255 * ((x1 - x0) * (y1 - y0)),
        0 <= sum_region(src, x0, x1, y0, y1).b <= 255 * ((x1 - x0) * (y1 - y0)),
        0 <= sum_region(src, x0, x1, y0, y1).a <= 255 * ((x1 - x0) * (y1 - y0)),
    decreases y1 - y0,
{
    if y1 > y0 {
        lemma_sum_region_bound(src, x0, x1, y0, y1 - 1);
        let n = (x1 - x0) * (y1 - 1 - y0);
        assert(n + (x1 - x0) == (x1 - x0) * (y1 - y0)) by (nonlinear_arith)
            requires
                n == (x1 - x0) * (y1 - 1 - y0),
        ;
        lemma_sum_row_bound(src, sum_region(src, x0, x1, y0, y1 - 1), y1 - 1, x0, x1, n);
    } else {
        assert((x1 - x0) * (y1 - y0) == 0) by (nonlinear_arith)
            requires
                y1 - y0 == 0,
        ;
    }
}

/// The average over the source pixels of one target pixel: computes
/// `scaled_pixel`.
fn average(src: &Canvas, width: u32, height: u32, dx: u32, dy: u32) -> (pixel: Pixel)
    requires
        src.well_formed(),
        dx < width,
        dy < height,
    ensures
        pixel == scaled_pixel(src@, width as int, height as int, dx as int, dy as int),
{
    let (x0, x1) = region(dx, src.width(), width);
    let (y0, y1) = region(dy, src.height(), height);
    if x1 <= x0 || y1 <= y0 {
        return Pixel { r: 0, g: 0, b: 0, a: 0 };
    }
    let ghost columns = x1 - x0;
    let mut r_sum: u64 = 0;
    let mut g_sum: u64 = 0;
    let mut b_sum: u64 = 0;
    let mut a_sum: u64 = 0;
    let mut count: u64 = 0;
    let mut sy: u32 = y0;
    proof {
        assert(columns * (y1 - y0) <= src.spec_width() * src.spec_height()) by (nonlinear_arith)
            requires
                0 < columns <= src.spec_width(),
                0 < y1 - y0 <= src.spec_height(),
        ;
    }
    while sy < y1
        invariant
            y0 <= sy <= y1 <= src.spec_height(),
            x0 < x1 <= src.spec_width(),
            columns == x1 - x0,
            src.well_formed(),
            columns * (y1 - y0) <= MAX_CANVAS_PIXELS,
            count == columns * (sy - y0),
            (ChannelSums { r: r_sum as int, g: g_sum as int, b: b_sum as int, a: a_sum as int })
                == sum_region(src@, x0 as int, x1 as int, y0 as int, sy as int),
        decreases y1 - sy,
    {
        let ghost row_start = sum_region(src@, x0 as int, x1 as int, y0 as int, sy as int);
        proof {
            lemma_sum_region_bound(src@, x0 as int, x1 as int, y0 as int, sy as int);
            assert(columns * (sy - y0) + columns <= columns * (y1 - y0)) by (nonlinear_arith)
                requires
                    sy < y1,
                    columns > 0,
            ;
        }
        let mut sx: u32 = x0;
        while sx < x1
            invariant
                x0 <= sx <= x1 <= src.spec_width(),
                y0 <= sy < y1 <= src.spec_height(),
                columns == x1 - x0,
                src.well_formed(),
                count == columns * (sy - y0) + (sx - x0),
                columns * (sy - y0) + columns <= MAX_CANVAS_PIXELS,
                0 <= row_start.r <= 255 * (columns * (sy - y0)),
                0 <= row_start.g <= 255 * (columns * (sy - y0)),
                0 <= row_start.b <= 255 * (columns * (sy - y0)),
                0 <= row_start.a <= 255 * (columns * (sy - y0)),
                (ChannelSums { r: r_sum as int, g: g_sum as int, b: b_sum as int, a: a_sum as int })
                    == sum_row(src@, row_start, sy as int, x0 as int, sx as int),
            decreases x1 - sx,
        {
            proof {
                lemma_sum_row_bound(
                    src@,
                    row_start,
                    sy as int,
                    x0 as int,
                    sx as int,
                    columns * (sy - y0),
                );
            }
            let p = src.get(sx, sy);
            r_sum += p.r as u64;
            g_sum += p.g as u64;
            b_sum += p.b as u64;
            a_sum += p.a as u64;
            count += 1;
            sx += 1;
        }
        proof {
            assert(columns * (sy - y0) + columns == columns * (sy + 1 - y0)) by (nonlinear_arith);
        }
        sy += 1;
    }
    proof {
        lemma_sum_region_bound(src@, x0 as int, x1 as int, y0 as int, y1 as int);
        let n = columns * (y1 - y0);
        assert(n > 0) by (nonlinear_arith)
            requires
                n == columns * (y1 - y0),
                columns > 0,
                y1 - y0 > 0,
        ;
        assert(forall|s: int| 0 <= s <= 255 * n ==> 0 <= #[trigger] (s / n) <= 255) by (nonlinear_arith)
            requires
                n > 0,
        ;
    }
    Pixel {
        r: (r_sum / count) as u8,
        g: (g_sum / count) as u8,
        b: (b_sum / count) as u8,
        a: (a_sum / count) as u8,
    }
}

/// Scales a bitmap to `target_w` by `target_h` pixels by averaging areas.
/// A bitmap that has that size already is copied as it is.
pub fn scale_pixmap(src: &Canvas, target_w: u32, target_h: u32) -> (dst: Canvas)
    requires
        src.well_formed(),
        target_w > 0,
        target_h > 0,
        target_w * target_h <= MAX_CANVAS_PIXELS,
    ensures
        dst.well_formed(),
        dst@ == scaled_image(src@, target_w as int, target_h as int),
{
    let same = src.width() == target_w && src.height() == target_h;
    let mut dst = Canvas::new(target_w, target_h);
    let mut dy: u32 = 0;
    while dy < target_h
        invariant
            dy <= target_h,
            src.well_formed(),
            dst.well_formed(),
            dst.spec_width() == target_w,
            dst.spec_height() == target_h,
            same == (src.spec_width() == target_w && src.spec_height() == target_h),
            forall|x: int, y: int|
                0 <= x < target_w && 0 <= y < dy ==> #[trigger] dst.at(x, y) == if same {
                    src.at(x, y)
                } else {
                    scaled_pixel(src@, target_w as int, target_h as int, x, y)
                },
        decreases target_h - dy,
    {
        let mut dx: u32 = 0;
        while dx < target_w
            invariant
                dx <= target_w,
                dy < target_h,
                src.well_formed(),
                dst.well_formed(),
                dst.spec_width() == target_w,
                dst.spec_height() == target_h,
                same == (src.spec_width() == target_w && src.spec_height() == target_h),
                forall|x: int, y: int|
                    0 <= x < target_w && (0 <= y < dy || (y == dy && x < dx)) ==> #[trigger] dst.at(
                        x,
                        y,
                    ) == if same {
                        src.at(x, y)
                    } else {
                        scaled_pixel(src@, target_w as int, target_h as int, x, y)
                    },
            decreases target_w - dx,
        {
            let pixel = if same {
                src.get(dx, dy)
            } else {
                average(src, target_w, target_h, dx, dy)
            };
            dst.put(dx, dy, pixel);
            dx += 1;
        }
        dy += 1;
    }
    proof {
        let w = target_w as int;
        let expected = scaled_image(src@, w, target_h as int);
        assert forall|i: int| 0 <= i < dst.pixels().len() implies dst.pixels()[i]
            == expected.pixels[i] by {
            vstd::arithmetic::div_mod::lemma_fundamental_div_mod(i, w);
            let x = i % w;
            let y = i / w;
            assert(0 <= x < w) by (nonlinear_arith)
                requires
                    x == i % w,
                    w > 0,
            ;
            assert(0 <= y < target_h) by (nonlinear_arith)
                requires
                    y == i / w,
                    0 <= i < w * target_h,
                    w > 0,
            ;
            assert(i == pixel_index(w, x, y)) by (nonlinear_arith)
                requires
                    i == w * (i / w) + (i % w),
                    x == i % w,
                    y == i / w,
            ;
            assert(dst.at(x, y) == dst.pixels()[i]);
        }
        assert(dst.pixels() =~= expected.pixels);
    }
    dst
}

/// Whether an image holds a pixel for each place and all its pixels are
/// premultiplied.
pub open spec fn premultiplied_image(image: Image) -> bool {
    &&& image.width >= 0
    &&& image.height >= 0
    &&& image.pixels.len() == image.width * image.height
    &&& forall|i: int| 0 <= i < image.pixels.len() ==> (#[trigger] image.pixels[i]).is_premultiplied()
}

/// Over premultiplied pixels no color sum exceeds the alpha sum.
proof fn lemma_sum_row_premultiplied(src: Image, sums: ChannelSums, y: int, x0: int, x1: int)
    requires
        premultiplied_image(src),
        0 <= x0 <= x1 <= src.width,
        0 <= y < src.height,
        sums.r <= sums.a && sums.g <= sums.a && sums.b <= sums.a,
    ensures
        sum_row(src, sums, y, x0, x1).r <= sum_row(src, sums, y, x0, x1).a,
        sum_row(src, sums, y, x0, x1).g <= sum_row(src, sums, y, x0, x1).a,
        sum_row(src, sums, y, x0, x1).b <= sum_row(src, sums, y, x0, x1).a,
    decreases x1 - x0,
{
    if x1 > x0 {
        lemma_sum_row_premultiplied(src, sums, y, x0, x1 - 1);
        lemma_pixel_index(src.width, src.height, x1 - 1, y);
        assert(src.at(x1 - 1, y).is_premultiplied());
    }
}

/// Over premultiplied pixels no color sum exceeds the alpha sum.
proof fn lemma_sum_region_premultiplied(src: Image, x0: int, x1: int, y0: int, y1: int)
    requires
        premultiplied_image(src),
        0 <= x0 <= x1 <= src.width,
        0 <= y0 <= y1 <= src.height,
    ensures
        sum_region(src, x0, x1, y0, y1).r <= sum_region(src, x0, x1, y0, y1).a,
        sum_region(src, x0, x1, y0, y1).g <= sum_region(src, x0, x1, y0, y1).a,
        sum_region(src, x0, x1, y0, y1).b <= sum_region(src, x0, x1, y0, y1).a,
    decreases y1 - y0,
{
    if y1 > y0 {
        lemma_sum_region_premultiplied(src, x0, x1, y0, y1 - 1);
        lemma_sum_row_premultiplied(src, sum_region(src, x0, x1, y0, y1 - 1), y1 - 1, x0, x1);
    }
}

/// Scaling keeps pixels premultiplied: the average of premultiplied pixels
/// is premultiplied.
pub proof fn lemma_scaled_pixel_is_premultiplied(
    src: Image,
    width: int,
    height: int,
    dx: int,
    dy: int,
)
    requires
        premultiplied_image(src),
        0 <= dx < width,
        0 <= dy < height,
    ensures
        scaled_pixel(src, width, height, dx, dy).is_premultiplied(),
{
    let x0 = region_start(dx, src.width, width);
    let x1 = region_end(dx, src.width, width);
    let y0 = region_start(dy, src.height, height);
    let y1 = region_end(dy, src.height, height);
    if !(x1 <= x0 || y1 <= y0) {
        assert(0 <= dx * src.width) by (nonlinear_arith)
            requires
                0 <= dx,
                0 <= src.width,
        ;
        assert(0 <= dy * src.height) by (nonlinear_arith)
            requires
                0 <= dy,
                0 <= src.height,
        ;
        assert(x0 >= 0 && y0 >= 0);
        let count = (x1 - x0) * (y1 - y0);
        assert(count > 0) by (nonlinear_arith)
            requires
                count == (x1 - x0) * (y1 - y0),
                x1 > x0,
                y1 > y0,
        ;
        lemma_sum_region_premultiplied(src, x0, x1, y0, y1);
        lemma_sum_region_bound(src, x0, x1, y0, y1);
        let sums = sum_region(src, x0, x1, y0, y1);
        vstd::arithmetic::div_mod::lemma_div_is_ordered(sums.r, sums.a, count);
        vstd::arithmetic::div_mod::lemma_div_is_ordered(sums.g, sums.a, count);
        vstd::arithmetic::div_mod::lemma_div_is_ordered(sums.b, sums.a, count);
        assert(forall|s: int| 0 <= s <= 255 * count ==> 0 <= #[trigger] (s / count) <= 255)
            by (nonlinear_arith)
            requires
                count > 0,
        ;
    }
}

} // verus!
