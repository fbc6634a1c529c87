use rask::render::layout::{place_glyphs, GlyphSource, PlacedGlyph, ResolvedChar, ZWSP};
use rask::render::metrics::{
    ceil_to_pixel, floor_to_pixel, round_to_pixel, sat_add, sat_sub, scaled,
};

const PX: i64 = 64;

fn glyph(id: u16, advance: i64) -> ResolvedChar {
    ResolvedChar { glyph: id, source: GlyphSource::Primary, kern: 0, advance, soft_break: false }
}

fn space(advance: i64) -> ResolvedChar {
    ResolvedChar { glyph: 3, source: GlyphSource::Primary, kern: 0, advance, soft_break: true }
}

fn at(id: u16, x: i64, y: i64) -> PlacedGlyph {
    PlacedGlyph { glyph: id, source: GlyphSource::Primary, x, y }
}

#[test]
fn zero_width_space_is_the_break_character() {
    assert_eq!(ZWSP, '\u{200b}');
}

#[test]
fn rounding_is_to_the_nearest_pixel_away_from_zero() {
    assert_eq!(round_to_pixel(0), 0);
    assert_eq!(round_to_pixel(31), 0);
    assert_eq!(round_to_pixel(32), 64);
    assert_eq!(round_to_pixel(95), 64);
    assert_eq!(round_to_pixel(96), 128);
    assert_eq!(round_to_pixel(-31), 0);
    assert_eq!(round_to_pixel(-32), -64);
    assert_eq!(round_to_pixel(-96), -128);
    assert_eq!(round_to_pixel(i64::MAX), i64::MAX);
    assert_eq!(round_to_pixel(i64::MIN), i64::MIN);
}

#[test]
fn floor_and_ceiling_in_pixels() {
    assert_eq!(floor_to_pixel(0), 0);
    assert_eq!(floor_to_pixel(63), 0);
    assert_eq!(floor_to_pixel(64), 1);
    assert_eq!(floor_to_pixel(-1), -1);
    assert_eq!(floor_to_pixel(-64), -1);
    assert_eq!(floor_to_pixel(-65), -2);
    assert_eq!(ceil_to_pixel(0), 0);
    assert_eq!(ceil_to_pixel(1), 1);
    assert_eq!(ceil_to_pixel(64), 1);
    assert_eq!(ceil_to_pixel(65), 2);
    assert_eq!(ceil_to_pixel(-1), 0);
    assert_eq!(ceil_to_pixel(-64), -1);
    assert_eq!(ceil_to_pixel(i64::MIN), -(1i64 << 57));
    assert_eq!(floor_to_pixel(i64::MIN), -(1i64 << 57));
}

#[test]
fn saturating_sums() {
    assert_eq!(sat_add(1, 2), 3);
    assert_eq!(sat_add(i64::MAX, 1), i64::MAX);
    assert_eq!(sat_add(i64::MIN, -1), i64::MIN);
    assert_eq!(sat_sub(i64::MIN, 1), i64::MIN);
    assert_eq!(sat_sub(0, i64::MIN), i64::MAX);
    assert_eq!(sat_sub(5, 7), -2);
}

#[test]
fn scaling_font_units() {
    // 1000 units at 16 px in a font 2000 units high: 8 px.
    assert_eq!(scaled(1000, 16 * 64, 2000), 8 * 64);
    // Rounded to the nearest 1/64 pixel, halves away from zero.
    assert_eq!(scaled(1, 1, 2), 1);
    assert_eq!(scaled(-1, 1, 2), -1);
    assert_eq!(scaled(1, 1, 3), 0);
    assert_eq!(scaled(2, 1, 3), 1);
    assert_eq!(scaled(-600, 18 * 64, 1200), -576);
    // A font without height scales to nothing.
    assert_eq!(scaled(1000, 16 * 64, 0), 0);
    assert_eq!(scaled(1000, 16 * 64, -5), 0);
    assert_eq!(scaled(i32::MAX, u32::MAX, 1), 9223372030412324865);
    assert_eq!(scaled(i32::MIN, u32::MAX, 1), -9223372034707292160);
}

#[test]
fn no_lines_no_glyphs() {
    assert!(place_glyphs(&Vec::new(), 20 * PX, 100 * PX).is_empty());
    assert!(place_glyphs(&vec![Vec::new()], 20 * PX, 100 * PX).is_empty());
    assert!(place_glyphs(&vec![vec![space(4 * PX)]], 20 * PX, 100 * PX).is_empty());
}

#[test]
fn glyphs_follow_each_other_rounded_to_pixels() {
    let line = vec![glyph(10, 10 * PX + 20), glyph(11, 10 * PX + 20), glyph(12, 5 * PX)];
    let placed = place_glyphs(&vec![line], 20 * PX, i64::MAX);
    assert_eq!(
        placed,
        vec![at(10, 0, 0), at(11, 10 * PX, 0), at(12, 21 * PX, 0)]
    );
}

#[test]
fn kerning_moves_the_pen_before_the_glyph() {
    let mut second = glyph(11, 10 * PX);
    second.kern = -2 * PX;
    let mut third = glyph(12, 10 * PX);
    third.kern = PX;
    let placed = place_glyphs(&vec![vec![glyph(10, 10 * PX), second, third]], 20 * PX, i64::MAX);
    assert_eq!(placed, vec![at(10, 0, 0), at(11, 8 * PX, 0), at(12, 19 * PX, 0)]);
}

#[test]
fn spaces_take_room_but_leave_no_glyph() {
    let line = vec![glyph(10, 10 * PX), space(4 * PX), glyph(11, 10 * PX)];
    let placed = place_glyphs(&vec![line], 20 * PX, i64::MAX);
    assert_eq!(placed, vec![at(10, 0, 0), at(11, 14 * PX, 0)]);
}

#[test]
fn line_wraps_at_the_last_space_once_it_overflows() {
    // "ab cd" with 10 px glyphs, 4 px space, limit 30 px: "cd" wraps when
    // "d" ends at 44 px.
    let line = vec![
        glyph(1, 10 * PX),
        glyph(2, 10 * PX),
        space(4 * PX),
        glyph(3, 10 * PX),
        glyph(4, 10 * PX),
    ];
    let placed = place_glyphs(&vec![line], 20 * PX, 30 * PX);
    assert_eq!(
        placed,
        vec![
            at(1, 0, 0),
            at(2, 10 * PX, 0),
            at(3, 0, 20 * PX),
            at(4, 10 * PX, 20 * PX),
        ]
    );
}

#[test]
fn wrap_happens_at_the_glyph_that_overflows() {
    // The glyph after the space overflows at once: it alone moves down.
    let line = vec![glyph(1, 20 * PX), space(4 * PX), glyph(2, 10 * PX), glyph(3, 10 * PX)];
    let placed = place_glyphs(&vec![line], 20 * PX, 30 * PX);
    assert_eq!(placed, vec![at(1, 0, 0), at(2, 0, 20 * PX), at(3, 10 * PX, 20 * PX)]);
}

#[test]
fn text_without_break_is_never_wrapped() {
    let line = vec![glyph(1, 40 * PX), glyph(2, 40 * PX), glyph(3, 40 * PX)];
    let placed = place_glyphs(&vec![line], 20 * PX, 30 * PX);
    assert_eq!(placed, vec![at(1, 0, 0), at(2, 40 * PX, 0), at(3, 80 * PX, 0)]);
}

#[test]
fn a_line_breaks_once_for_each_overflow() {
    // After the wrap the long word still runs past the limit: its glyphs go
    // on to the right, and only the next space offers a new break.
    let line = vec![
        glyph(1, 10 * PX),
        space(4 * PX),
        glyph(2, 20 * PX),
        glyph(3, 20 * PX),
        glyph(4, 20 * PX),
        space(4 * PX),
        glyph(5, 10 * PX),
    ];
    let placed = place_glyphs(&vec![line], 20 * PX, 30 * PX);
    assert_eq!(
        placed,
        vec![
            at(1, 0, 0),
            at(2, 0, 20 * PX),
            at(3, 20 * PX, 20 * PX),
            at(4, 40 * PX, 20 * PX),
            at(5, 0, 40 * PX),
        ]
    );
}

#[test]
fn wrapped_glyphs_take_the_unrounded_line_height() {
    // Line height 20.5 px: wrapped glyphs stand at 20.5, the next line
    // starts at 41 px.
    let height = 20 * PX + 32;
    let lines = vec![
        vec![glyph(1, 20 * PX), space(4 * PX), glyph(2, 20 * PX), glyph(3, 5 * PX)],
        vec![glyph(4, 5 * PX)],
    ];
    let placed = place_glyphs(&lines, height, 30 * PX);
    assert_eq!(
        placed,
        vec![
            at(1, 0, 0),
            at(2, 0, height),
            // Placed after the wrap: at the rounded height.
            at(3, 20 * PX, 21 * PX),
            at(4, 0, 41 * PX),
        ]
    );
}

#[test]
fn lines_are_one_line_height_apart() {
    let lines = vec![vec![glyph(1, 10 * PX)], Vec::new(), vec![glyph(2, 10 * PX)]];
    let placed = place_glyphs(&lines, 20 * PX, i64::MAX);
    assert_eq!(placed, vec![at(1, 0, 0), at(2, 0, 40 * PX)]);
}

#[test]
fn a_second_line_leaves_the_first_alone() {
    let first = vec![glyph(1, 10 * PX), space(4 * PX), glyph(2, 30 * PX)];
    let one = place_glyphs(&vec![first.clone()], 20 * PX, 30 * PX);
    let two = place_glyphs(&vec![first, vec![glyph(3, 10 * PX)]], 20 * PX, 30 * PX);
    assert_eq!(two[..one.len()], one[..]);
    assert_eq!(two.len(), one.len() + 1);
    assert_eq!(two[2], at(3, 0, 40 * PX));
}

#[test]
fn a_break_of_a_line_is_not_carried_to_the_next() {
    let lines = vec![vec![glyph(1, 10 * PX), space(4 * PX)], vec![glyph(2, 50 * PX)]];
    let placed = place_glyphs(&lines, 20 * PX, 30 * PX);
    assert_eq!(placed, vec![at(1, 0, 0), at(2, 0, 20 * PX)]);
}

#[test]
fn positions_saturate() {
    let line = vec![glyph(1, i64::MAX), glyph(2, i64::MAX), glyph(3, 1)];
    let placed = place_glyphs(&vec![line], i64::MAX, i64::MAX);
    assert_eq!(placed[0], at(1, 0, 0));
    assert_eq!(placed[1], at(2, i64::MAX, 0));
    assert_eq!(placed[2], at(3, i64::MAX, 0));
}

#[test]
fn glyph_sources_are_kept() {
    let line = vec![
        ResolvedChar {
            glyph: 7,
            source: GlyphSource::Emoji,
            kern: 0,
            advance: 10 * PX,
            soft_break: false,
        },
        ResolvedChar {
            glyph: 9,
            source: GlyphSource::Fallback(2),
            kern: 0,
            advance: 10 * PX,
            soft_break: false,
        },
    ];
    let placed = place_glyphs(&vec![line], 20 * PX, i64::MAX);
    assert_eq!(placed[0].source, GlyphSource::Emoji);
    assert_eq!(placed[1].source, GlyphSource::Fallback(2));
    assert_eq!(placed[1].x, 10 * PX);
}
