use rask::render::canvas::{blend, rgb, Canvas, Pixel, Rgba};
use rask::render::compose::{canvas_size, finish_glyphs};
use rask::render::picture::{canvas_from_rgba, decode_image};
use rask::render::raster::{bounding_box, measure_glyphs, OutlinedGlyph, Rect, RenderedGlyph};
use rask::render::scale::scale_pixmap;

const CLEAR: Pixel = Pixel { r: 0, g: 0, b: 0, a: 0 };

fn px(r: u8, g: u8, b: u8, a: u8) -> Pixel {
    Pixel { r, g, b, a }
}

fn outlined(min_x: i32, min_y: i32, width: u32, height: u32, coverage: Vec<u8>) -> RenderedGlyph {
    RenderedGlyph::Outlined(OutlinedGlyph { min_x, min_y, width, height, coverage })
}

fn bitmap(width: u32, height: u32, pixels: Vec<Pixel>) -> Canvas {
    Canvas::from_pixels(width, height, pixels).unwrap()
}

fn pixels_of(canvas: &Canvas) -> Vec<Pixel> {
    canvas.as_pixels().clone()
}

#[test]
fn colors() {
    assert_eq!(rgb(1, 2, 3), Rgba { r: 1, g: 2, b: 3, a: 255 });
    assert_eq!(Rgba::new(1, 2, 3, 4), Rgba { r: 1, g: 2, b: 3, a: 4 });
}

#[test]
fn blending_without_coverage_changes_nothing() {
    let dst = px(10, 20, 30, 40);
    assert_eq!(blend(dst, rgb(255, 255, 255), 0), dst);
    assert_eq!(blend(CLEAR, rgb(255, 255, 255), 0), CLEAR);
}

#[test]
fn blending_on_transparent_writes_the_premultiplied_source() {
    assert_eq!(blend(CLEAR, rgb(255, 128, 0), 128), px(128, 64, 0, 128));
    assert_eq!(blend(CLEAR, rgb(255, 255, 255), 255), px(255, 255, 255, 255));
    assert_eq!(blend(CLEAR, rgb(200, 100, 50), 1), px(0, 0, 0, 1));
    // The destination's color is dropped where its alpha is zero.
    assert_eq!(blend(px(9, 9, 9, 0), rgb(10, 20, 30), 255), px(10, 20, 30, 255));
}

#[test]
fn blending_source_over() {
    // a = 128 over an opaque black pixel: 128 + 255 * 127 / 255 = 255.
    assert_eq!(blend(px(0, 0, 0, 255), rgb(255, 255, 255), 128), px(128, 128, 128, 255));
    // Over half covered white: channels 128 + 128 * 127 / 255 = 191.
    assert_eq!(blend(px(128, 128, 128, 128), rgb(255, 255, 255), 128), px(191, 191, 191, 191));
    // r = 200 * 100 / 255 = 78; out = 78 + 50 * 155 / 255 = 108.
    assert_eq!(blend(px(50, 60, 70, 80), rgb(200, 0, 255), 100), px(108, 36, 142, 148));
    // The sum is capped.
    assert_eq!(blend(px(255, 255, 255, 255), rgb(255, 255, 255), 1), px(255, 255, 255, 255));
    // Full coverage replaces.
    assert_eq!(blend(px(1, 2, 3, 4), rgb(9, 8, 7), 255), px(9, 8, 7, 255));
}

#[test]
fn the_color_alpha_plays_no_part() {
    assert_eq!(
        blend(CLEAR, Rgba::new(200, 100, 50, 0), 255),
        blend(CLEAR, Rgba::new(200, 100, 50, 255), 255)
    );
}

#[test]
fn canvas_basics() {
    let mut canvas = Canvas::new(3, 2);
    assert_eq!(canvas.width(), 3);
    assert_eq!(canvas.height(), 2);
    assert_eq!(pixels_of(&canvas), vec![CLEAR; 6]);
    canvas.put(2, 1, px(1, 2, 3, 4));
    canvas.put(0, 0, px(5, 6, 7, 8));
    assert_eq!(canvas.get(2, 1), px(1, 2, 3, 4));
    assert_eq!(canvas.get(1, 1), CLEAR);
    assert_eq!(
        pixels_of(&canvas),
        vec![px(5, 6, 7, 8), CLEAR, CLEAR, CLEAR, CLEAR, px(1, 2, 3, 4)]
    );
    assert!(Canvas::from_pixels(2, 2, vec![CLEAR; 3]).is_none());
    assert!(Canvas::from_pixels(0, 5, Vec::new()).is_some());
    assert!(Canvas::from_pixels(1 << 16, 1 << 16, Vec::new()).is_none());
}

#[test]
fn empty_text_gives_a_canvas_of_one_pixel() {
    let glyphs: Vec<RenderedGlyph> = Vec::new();
    assert_eq!(canvas_size(&glyphs), Some((1, 1)));
    let canvas = finish_glyphs(&glyphs, rgb(255, 255, 255));
    assert_eq!((canvas.width(), canvas.height()), (1, 1));
    assert_eq!(pixels_of(&canvas), vec![CLEAR]);
    assert_eq!(measure_glyphs(&glyphs), (0, 0));
}

#[test]
fn bounds_of_glyphs() {
    let glyphs = vec![
        outlined(2, -10, 3, 4, vec![0; 12]),
        RenderedGlyph::Raster { pixmap: Canvas::new(2, 2), x: -96, y: 70 },
    ];
    assert_eq!(
        glyphs[0].bounds(),
        Rect { min_x: 128, min_y: -640, max_x: 320, max_y: -384 }
    );
    assert_eq!(glyphs[1].bounds(), Rect { min_x: -96, min_y: 70, max_x: 32, max_y: 198 });
    assert_eq!(
        bounding_box(&glyphs),
        Rect { min_x: -96, min_y: -640, max_x: 320, max_y: 198 }
    );
    assert_eq!(measure_glyphs(&glyphs), (416, 838));
    // ceil(6.5) + 2 and ceil(13.09..) + 2
    assert_eq!(canvas_size(&glyphs), Some((9, 16)));
}

#[test]
fn measure_of_one_glyph_is_positive() {
    let glyphs = vec![outlined(0, -12, 7, 12, vec![255; 84])];
    assert_eq!(measure_glyphs(&glyphs), (7 * 64, 12 * 64));
}

#[test]
fn more_glyphs_never_measure_less() {
    let one = vec![outlined(0, -12, 7, 12, vec![255; 84])];
    let two = vec![outlined(0, -12, 7, 12, vec![255; 84]), outlined(0, 8, 5, 12, vec![255; 60])];
    let a = measure_glyphs(&one);
    let b = measure_glyphs(&two);
    assert!(b.0 >= a.0);
    assert!(b.1 > a.1);
    assert_eq!(b, (7 * 64, 32 * 64));
}

#[test]
fn huge_bounds_do_not_fit() {
    let glyphs = vec![outlined(0, 0, 1 << 20, 1 << 20, Vec::new())];
    assert_eq!(canvas_size(&glyphs), None);
    let far = vec![
        RenderedGlyph::Raster { pixmap: Canvas::new(1, 1), x: i64::MIN, y: 0 },
        RenderedGlyph::Raster { pixmap: Canvas::new(1, 1), x: i64::MAX, y: 0 },
    ];
    assert_eq!(canvas_size(&far), None);
}

#[test]
fn outlined_glyph_is_drawn_with_padding() {
    // A 2x2 box at (5, -3): the canvas is 4x4 and the box starts at (1, 1).
    let glyphs = vec![outlined(5, -3, 2, 2, vec![255, 128, 0, 1])];
    let canvas = finish_glyphs(&glyphs, rgb(255, 100, 0));
    assert_eq!((canvas.width(), canvas.height()), (4, 4));
    let mut expected = vec![CLEAR; 16];
    expected[5] = px(255, 100, 0, 255);
    expected[6] = px(128, 50, 0, 128);
    expected[9] = CLEAR;
    expected[10] = px(1, 0, 0, 1);
    assert_eq!(pixels_of(&canvas), expected);
}

#[test]
fn overlapping_glyphs_are_blended_in_order() {
    let glyphs = vec![
        outlined(0, 0, 2, 1, vec![128, 128]),
        outlined(1, 0, 2, 1, vec![128, 255]),
    ];
    let canvas = finish_glyphs(&glyphs, rgb(255, 255, 255));
    assert_eq!((canvas.width(), canvas.height()), (5, 3));
    let row: Vec<Pixel> = (0..5).map(|x| canvas.get(x, 1)).collect();
    assert_eq!(
        row,
        vec![
            CLEAR,
            px(128, 128, 128, 128),
            px(191, 191, 191, 191),
            px(255, 255, 255, 255),
            CLEAR,
        ]
    );
    assert_eq!(canvas.get(2, 0), CLEAR);
    assert_eq!(canvas.get(2, 2), CLEAR);
}

#[test]
fn bitmap_glyph_overwrites_what_is_there() {
    let picture = bitmap(2, 1, vec![px(10, 20, 30, 40), CLEAR]);
    let glyphs = vec![
        outlined(0, 0, 3, 1, vec![255, 255, 255]),
        RenderedGlyph::Raster { pixmap: picture, x: 64, y: 0 },
    ];
    let canvas = finish_glyphs(&glyphs, rgb(255, 255, 255));
    assert_eq!((canvas.width(), canvas.height()), (5, 3));
    let row: Vec<Pixel> = (0..5).map(|x| canvas.get(x, 1)).collect();
    assert_eq!(
        row,
        vec![CLEAR, px(255, 255, 255, 255), px(10, 20, 30, 40), CLEAR, CLEAR]
    );
}

#[test]
fn bitmap_glyph_lands_on_the_nearest_pixel_and_is_clipped() {
    // At x = 0.5 px the bitmap lands on pixel 1; the bounding box is 2.5 px
    // wide, so the canvas has 5 columns and column 0 is padding.
    let picture = bitmap(2, 2, vec![px(1, 1, 1, 1), px(2, 2, 2, 2), px(3, 3, 3, 3), px(4, 4, 4, 4)]);
    let glyphs = vec![RenderedGlyph::Raster { pixmap: picture, x: 32, y: -32 }];
    let canvas = finish_glyphs(&glyphs, rgb(0, 0, 0));
    assert_eq!((canvas.width(), canvas.height()), (4, 4));
    // base x = 1 - floor(0.5) = 1, at round(0.5) = 1: column 2.
    // base y = 1 - floor(-0.5) = 2, at round(-0.5) = -1: row 1.
    assert_eq!(canvas.get(2, 1), px(1, 1, 1, 1));
    assert_eq!(canvas.get(3, 1), px(2, 2, 2, 2));
    assert_eq!(canvas.get(2, 2), px(3, 3, 3, 3));
    assert_eq!(canvas.get(3, 2), px(4, 4, 4, 4));
    assert_eq!(canvas.get(1, 1), CLEAR);
    assert_eq!(canvas.get(2, 0), CLEAR);
    assert_eq!(canvas.get(2, 3), CLEAR);
}

#[test]
fn scaling_to_the_same_size_copies() {
    let src = bitmap(2, 2, vec![px(1, 2, 3, 4), px(5, 6, 7, 8), CLEAR, px(9, 9, 9, 9)]);
    let dst = scale_pixmap(&src, 2, 2);
    assert_eq!(pixels_of(&dst), pixels_of(&src));
}

#[test]
fn scaling_down_averages_areas() {
    let src = bitmap(
        4,
        2,
        vec![
            px(10, 0, 0, 100),
            px(20, 0, 0, 200),
            px(1, 2, 3, 4),
            px(2, 3, 4, 5),
            px(30, 0, 0, 50),
            px(41, 0, 0, 51),
            px(3, 4, 5, 6),
            px(5, 6, 7, 8),
        ],
    );
    let dst = scale_pixmap(&src, 2, 1);
    assert_eq!((dst.width(), dst.height()), (2, 1));
    assert_eq!(pixels_of(&dst), vec![px(25, 0, 0, 100), px(2, 3, 4, 5)]);
}

#[test]
fn scaling_to_uneven_sizes_shares_source_pixels() {
    // 3 -> 2: the first target pixel takes sources 0..2, the second 1..3.
    let src = bitmap(3, 1, vec![px(0, 0, 0, 30), px(0, 0, 0, 60), px(0, 0, 0, 90)]);
    let dst = scale_pixmap(&src, 2, 1);
    assert_eq!(pixels_of(&dst), vec![px(0, 0, 0, 45), px(0, 0, 0, 75)]);
}

#[test]
fn scaling_up_repeats_pixels() {
    let src = bitmap(2, 1, vec![px(1, 1, 1, 1), px(2, 2, 2, 2)]);
    let dst = scale_pixmap(&src, 4, 2);
    assert_eq!(
        pixels_of(&dst),
        vec![
            px(1, 1, 1, 1),
            px(1, 1, 1, 1),
            px(2, 2, 2, 2),
            px(2, 2, 2, 2),
            px(1, 1, 1, 1),
            px(1, 1, 1, 1),
            px(2, 2, 2, 2),
            px(2, 2, 2, 2),
        ]
    );
}

#[test]
fn scaling_an_empty_bitmap_gives_transparent_pixels() {
    let src = bitmap(0, 0, Vec::new());
    let dst = scale_pixmap(&src, 2, 2);
    assert_eq!(pixels_of(&dst), vec![CLEAR; 4]);
}

#[test]
fn pixels_from_bytes() {
    let canvas = canvas_from_rgba(2, 1, &vec![1, 2, 3, 4, 5, 6, 7, 8]).unwrap();
    assert_eq!(pixels_of(&canvas), vec![px(1, 2, 3, 4), px(5, 6, 7, 8)]);
    assert!(canvas_from_rgba(2, 1, &vec![1, 2, 3, 4]).is_none());
    assert!(canvas_from_rgba(1, 1, &vec![1, 2, 3, 4, 5]).is_none());
    assert!(canvas_from_rgba(u32::MAX, u32::MAX, &Vec::new()).is_none());
}

#[test]
fn decoding_a_png_file() {
    let mut source = tiny_skia::Pixmap::new(2, 2).unwrap();
    let colors = [
        tiny_skia::PremultipliedColorU8::from_rgba(255, 0, 0, 255).unwrap(),
        tiny_skia::PremultipliedColorU8::from_rgba(0, 128, 0, 128).unwrap(),
        tiny_skia::PremultipliedColorU8::from_rgba(0, 0, 0, 0).unwrap(),
        tiny_skia::PremultipliedColorU8::from_rgba(10, 20, 30, 255).unwrap(),
    ];
    for (pixel, color) in source.pixels_mut().iter_mut().zip(colors.iter()) {
        *pixel = *color;
    }
    let file = source.encode_png().unwrap();
    let canvas = decode_image(&file).unwrap();
    assert_eq!((canvas.width(), canvas.height()), (2, 2));
    assert_eq!(
        pixels_of(&canvas),
        vec![px(255, 0, 0, 255), px(0, 128, 0, 128), CLEAR, px(10, 20, 30, 255)]
    );
    let again = tiny_skia::Pixmap::decode_png(&file).unwrap();
    let expected: Vec<Pixel> = again
        .pixels()
        .iter()
        .map(|p| px(p.red(), p.green(), p.blue(), p.alpha()))
        .collect();
    assert_eq!(pixels_of(&canvas), expected);
}

#[test]
fn decoding_what_is_no_png_file() {
    assert!(decode_image(&Vec::new()).is_none());
    assert!(decode_image(&vec![1, 2, 3, 4, 5, 6, 7, 8]).is_none());
}
