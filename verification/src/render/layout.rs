//! Line layout: placing resolved characters on lines, with kerning already
//! folded into each character and soft wrapping at break opportunities.

use crate::render::metrics::{round_px, round_to_pixel, sat, sat_add, sat_sub};
use vstd::prelude::*;

verus! {

/// The zero-width space, which offers a break like a plain space does.
pub const ZWSP: char = '\u{200b}';

/// Which font a glyph was taken from.
#[derive(Clone, Copy, Debug, PartialEq, Eq, Structural)]
pub enum GlyphSource {
    /// The primary text font; also the source of its placeholder glyph.
    Primary,
    /// The emoji font.
    Emoji,
    /// The fallback font found for the character, by its place in the list
    /// of fallback lookups of the text.
    Fallback(usize),
}

/// One character of a line after font resolution, with its metrics in
/// 1/64 pixel.
#[derive(Clone, Copy, Debug, PartialEq, Eq, Structural)]
pub struct ResolvedChar {
    /// The glyph that stands for the character in its font.
    pub glyph: u16,
    /// The font that the glyph belongs to.
    pub source: GlyphSource,
    /// Kerning against the character before it; zero where none applies.
    pub kern: i64,
    /// The horizontal advance of the glyph.
    pub advance: i64,
    /// Whether a line may be broken here (a space or zero-width space).
    /// Such a character takes room but leaves no glyph.
    pub soft_break: bool,
}

/// A glyph with its position in 1/64 pixel.
#[derive(Clone, Copy, Debug, PartialEq, Eq, Structural)]
pub struct PlacedGlyph {
    pub glyph: u16,
    pub source: GlyphSource,
    pub x: i64,
    pub y: i64,
}

/// The state of layout inside a line.
pub ghost struct Cursor {
    /// The glyphs placed so far, those of earlier lines included.
    pub glyphs: Seq<PlacedGlyph>,
    /// Where the next character starts.
    pub x: i64,
    /// The top of the current line; it moves down when the line wraps.
    pub y: i64,
    /// The number of glyphs that stood before the last break opportunity,
    /// if the line has one that was not used yet.
    pub soft_break: Option<int>,
}

/// The glyphs from index `from` on moved left by `dx` and put at height `y`.
pub open spec fn shift_from(glyphs: Seq<PlacedGlyph>, from: int, dx: int, y: i64) -> Seq<
    PlacedGlyph,
> {
    Seq::new(
        glyphs.len(),
        |j: int|
            if j >= from {
                PlacedGlyph { x: sat(glyphs[j].x - dx) as i64, y, ..glyphs[j] }
            } else {
                glyphs[j]
            },
    )
}

/// Layout of one character.
///
/// Kerning moves the pen first, the glyph is put at the pen rounded to whole
/// pixels, and the pen advances. A break opportunity leaves no glyph and is
/// remembered. A visible character that ends right of `max_width` while a
/// break opportunity is open wraps the line there: everything after the
/// break moves to the start of a new line, once.
pub open spec fn place_char(cur: Cursor, rc: ResolvedChar, line_height: i64, max_width: i64) -> Cursor {
    let x1 = sat(cur.x + rc.kern) as i64;
    let x2 = sat(x1 + rc.advance) as i64;
    if rc.soft_break {
        Cursor { x: x2, soft_break: Some(cur.glyphs.len() as int), ..cur }
    } else {
        let glyph = PlacedGlyph {
            glyph: rc.glyph,
            source: rc.source,
            x: sat(round_px(x1 as int)) as i64,
            y: sat(round_px(cur.y as int)) as i64,
        };
        let glyphs = cur.glyphs.push(glyph);
        if x2 > max_width && cur.soft_break is Some {
            let first = cur.soft_break->0;
            let y1 = sat(cur.y + line_height) as i64;
            let dx = glyphs[first].x;
            Cursor {
                glyphs: shift_from(glyphs, first, dx as int, y1),
                x: sat(x2 - dx) as i64,
                y: y1,
                soft_break: None,
            }
        } else {
            Cursor { glyphs, x: x2, ..cur }
        }
    }
}

/// Layout of the characters of a line, one after the other.
pub open spec fn place_chars(
    cur: Cursor,
    line: Seq<ResolvedChar>,
    line_height: i64,
    max_width: i64,
) -> Cursor
    decreases line.len(),
{
    if line.len() == 0 {
        cur
    } else {
        place_char(
            place_chars(cur, line.drop_last(), line_height, max_width),
            line.last(),
            line_height,
            max_width,
        )
    }
}

/// The state in which a line starts at height `y`.
pub open spec fn line_start(glyphs: Seq<PlacedGlyph>, y: i64) -> Cursor {
    Cursor { glyphs, x: 0, y, soft_break: None }
}

/// Layout of whole lines from the top: the glyphs, and the height at which
/// the next line would start. Every line ends one line height below where
/// it stood last, wrapped or not.
pub open spec fn place_lines(lines: Seq<Seq<ResolvedChar>>, line_height: i64, max_width: i64) -> (
    Seq<PlacedGlyph>,
    i64,
)
    decreases lines.len(),
{
    if lines.len() == 0 {
        (Seq::empty(), 0i64)
    } else {
        let before = place_lines(lines.drop_last(), line_height, max_width);
        let end = place_chars(line_start(before.0, before.1), lines.last(), line_height, max_width);
        (end.glyphs, sat(end.y + line_height) as i64)
    }
}

/// The glyphs of a text laid out from the top.
pub open spec fn layout_of(lines: Seq<Seq<ResolvedChar>>, line_height: i64, max_width: i64) -> Seq<
    PlacedGlyph,
> {
    place_lines(lines, line_height, max_width).0
}

/// The lines of a vector of lines, each as a sequence.
pub open spec fn rows(lines: Seq<Vec<ResolvedChar>>) -> Seq<Seq<ResolvedChar>> {
    Seq::new(lines.len(), |i: int| lines[i]@)
}

/// Lays out resolved lines: computes `layout_of`.
pub fn place_glyphs(lines: &Vec<Vec<ResolvedChar>>, line_height: i64, max_width: i64) -> (glyphs:
    Vec<PlacedGlyph>)
    ensures
        glyphs@ == layout_of(rows(lines@), line_height, max_width),
{
    let mut glyphs: Vec<PlacedGlyph> = Vec::new();
    let mut y: i64 = 0;
    let mut li: usize = 0;
    while li < lines.len()
        invariant
            li <= lines.len(),
            (glyphs@, y) == place_lines(rows(lines@).take(li as int), line_height, max_width),
        decreases lines.len() - li,
    {
        let line = &lines[li];
        let ghost start = line_start(glyphs@, y);
        let mut x: i64 = 0;
        let mut soft_break: Option<usize> = None;
        let mut ci: usize = 0;
        while ci < line.len()
            invariant
                ci <= line.len(),
                soft_break matches Some(i) ==> i <= glyphs.len(),
                (Cursor {
                    glyphs: glyphs@,
                    x,
                    y,
                    soft_break: match soft_break {
                        Some(i) => Some(i as int),
                        None => None,
                    },
                }) == place_chars(start, line@.take(ci as int), line_height, max_width),
            decreases line.len() - ci,
        {
            let rc = line[ci];
            let ghost before = place_chars(start, line@.take(ci as int), line_height, max_width);
            proof {
                assert(line@.take(ci + 1).drop_last() =~= line@.take(ci as int));
                assert(line@.take(ci + 1).last() == rc);
            }
            let x1 = sat_add(x, rc.kern);
            let x2 = sat_add(x1, rc.advance);
            if rc.soft_break {
                soft_break = Some(glyphs.len());
                x = x2;
            } else {
                glyphs.push(
                    PlacedGlyph {
                        glyph: rc.glyph,
                        source: rc.source,
                        x: round_to_pixel(x1),
                        y: round_to_pixel(y),
                    },
                );
                let mut wrapped = false;
                if x2 > max_width {
                    if let Some(first) = soft_break {
                        let y1 = sat_add(y, line_height);
                        let dx = glyphs[first].x;
                        let ghost pushed = glyphs@;
                        let mut j: usize = first;
                        while j < glyphs.len()
                            invariant
                                first <= j <= glyphs.len(),
                                glyphs.len() == pushed.len(),
                                forall|k: int|
                                    0 <= k < glyphs.len() ==> glyphs@[k] == if first <= k < j {
                                        shift_from(pushed, first as int, dx as int, y1)[k]
                                    } else {
                                        pushed[k]
                                    },
                            decreases glyphs.len() - j,
                        {
                            let g = glyphs[j];
                            glyphs.set(j, PlacedGlyph { x: sat_sub(g.x, dx), y: y1, ..g });
                            j += 1;
                        }
                        assert(glyphs@ =~= shift_from(pushed, first as int, dx as int, y1));
                        x = sat_sub(x2, dx);
                        y = y1;
                        soft_break = None;
                        wrapped = true;
                    }
                }
                if !wrapped {
                    x = x2;
                }
            }
            ci += 1;
        }
        proof {
            assert(line@.take(line@.len() as int) =~= line@);
            assert(rows(lines@).take(li + 1).drop_last() =~= rows(lines@).take(li as int));
            assert(rows(lines@).take(li + 1).last() == line@);
        }
        y = sat_add(y, line_height);
        li += 1;
    }
    proof {
        assert(rows(lines@).take(lines@.len() as int) =~= rows(lines@));
    }
    glyphs
}

/// Whether `cur` was reached from a line start with `before` glyphs: the
/// glyphs of `before` are untouched and an open break lies behind them.
pub open spec fn extends(before: Seq<PlacedGlyph>, cur: Cursor) -> bool {
    &&& before.len() <= cur.glyphs.len()
    &&& cur.glyphs.subrange(0, before.len() as int) == before
    &&& cur.soft_break matches Some(i) ==> before.len() <= i <= cur.glyphs.len()
}

/// Laying out more characters never touches the glyphs of earlier lines.
pub proof fn lemma_place_chars_extends(
    before: Seq<PlacedGlyph>,
    cur: Cursor,
    line: Seq<ResolvedChar>,
    line_height: i64,
    max_width: i64,
)
    requires
        extends(before, cur),
    ensures
        extends(before, place_chars(cur, line, line_height, max_width)),
    decreases line.len(),
{
    if line.len() > 0 {
        lemma_place_chars_extends(before, cur, line.drop_last(), line_height, max_width);
        let mid = place_chars(cur, line.drop_last(), line_height, max_width);
        let end = place_char(mid, line.last(), line_height, max_width);
        assert(end.glyphs.subrange(0, before.len() as int) =~= mid.glyphs.subrange(
            0,
            before.len() as int,
        ));
    }
}

/// The layout of a text starts with the layout of the same text without its
/// last line: a further line changes nothing above it.
pub proof fn lemma_layout_extends(
    lines: Seq<Seq<ResolvedChar>>,
    line: Seq<ResolvedChar>,
    line_height: i64,
    max_width: i64,
)
    ensures
        layout_of(lines, line_height, max_width).len() <= layout_of(
            lines.push(line),
            line_height,
            max_width,
        ).len(),
        layout_of(lines.push(line), line_height, max_width).subrange(
            0,
            layout_of(lines, line_height, max_width).len() as int,
        ) == layout_of(lines, line_height, max_width),
{
    let before = place_lines(lines, line_height, max_width);
    assert(lines.push(line).drop_last() =~= lines);
    assert(before.0.subrange(0, before.0.len() as int) =~= before.0);
    lemma_place_chars_extends(
        before.0,
        line_start(before.0, before.1),
        line,
        line_height,
        max_width,
    );
}

/// A line without a break opportunity is never wrapped, however far it runs
/// past the wrap width: each of its characters leaves one glyph, all at the
/// height at which the line started.
pub proof fn lemma_no_break_no_wrap(
    cur: Cursor,
    line: Seq<ResolvedChar>,
    line_height: i64,
    max_width: i64,
)
    requires
        cur.soft_break is None,
        forall|i: int| 0 <= i < line.len() ==> !line[i].soft_break,
    ensures
        ({
            let end = place_chars(cur, line, line_height, max_width);
            &&& end.y == cur.y
            &&& end.soft_break is None
            &&& end.glyphs.len() == cur.glyphs.len() + line.len()
            &&& end.glyphs.subrange(0, cur.glyphs.len() as int) == cur.glyphs
            &&& forall|j: int|
                cur.glyphs.len() <= j < end.glyphs.len() ==> (#[trigger] end.glyphs[j]).y == sat(
                    round_px(cur.y as int),
                ) && end.glyphs[j].glyph == line[j - cur.glyphs.len()].glyph
        }),
    decreases line.len(),
{
    if line.len() > 0 {
        let front = line.drop_last();
        lemma_no_break_no_wrap(cur, front, line_height, max_width);
        let mid = place_chars(cur, front, line_height, max_width);
        let end = place_char(mid, line.last(), line_height, max_width);
        assert(!line[line.len() - 1].soft_break);
        assert(end.glyphs.subrange(0, cur.glyphs.len() as int) =~= mid.glyphs.subrange(
            0,
            cur.glyphs.len() as int,
        ));
        assert forall|j: int| cur.glyphs.len() <= j < end.glyphs.len() implies (
        #[trigger] end.glyphs[j]).y == sat(round_px(cur.y as int)) && end.glyphs[j].glyph == line[j
            - cur.glyphs.len()].glyph by {
            if j < mid.glyphs.len() {
                assert(end.glyphs[j] == mid.glyphs[j]);
                assert(front[j - cur.glyphs.len()] == line[j - cur.glyphs.len()]);
            }
        }
    } else {
        assert(cur.glyphs.subrange(0, cur.glyphs.len() as int) =~= cur.glyphs);
    }
}

/// A text of one line without a break opportunity keeps all its glyphs on
/// the first line, whatever the wrap width.
pub proof fn lemma_unbreakable_text_is_one_line(
    line: Seq<ResolvedChar>,
    line_height: i64,
    max_width: i64,
)
    requires
        forall|i: int| 0 <= i < line.len() ==> !line[i].soft_break,
    ensures
        layout_of(seq![line], line_height, max_width).len() == line.len(),
        forall|j: int|
            0 <= j < line.len() ==> (#[trigger] layout_of(seq![line], line_height, max_width)[j]).y
                == 0,
{
    let lines = seq![line];
    assert(lines.drop_last() =~= Seq::<Seq<ResolvedChar>>::empty());
    assert(lines.last() == line);
    let none = place_lines(lines.drop_last(), line_height, max_width);
    assert(none == (Seq::<PlacedGlyph>::empty(), 0i64));
    let start = line_start(Seq::empty(), 0i64);
    lemma_no_break_no_wrap(start, line, line_height, max_width);
    assert(round_px(0) == 0);
    assert(place_lines(lines, line_height, max_width).0 == place_chars(
        start,
        line,
        line_height,
        max_width,
    ).glyphs);
}

/// A text without lines has no glyphs.
pub proof fn lemma_empty_text_has_no_glyphs(line_height: i64, max_width: i64)
    ensures
        layout_of(Seq::empty(), line_height, max_width) == Seq::<PlacedGlyph>::empty(),
{
}

/// A wrap moves the glyphs after the break to the start of the next line:
/// the first of them lands at the left edge, one line height down.
pub proof fn lemma_wrap_starts_new_line(
    cur: Cursor,
    rc: ResolvedChar,
    line_height: i64,
    max_width: i64,
)
    requires
        !rc.soft_break,
        cur.soft_break matches Some(i) && 0 <= i <= cur.glyphs.len(),
        sat(sat(cur.x + rc.kern) + rc.advance) > max_width,
    ensures
        ({
            let end = place_char(cur, rc, line_height, max_width);
            let first = cur.soft_break->0;
            &&& end.soft_break is None
            &&& end.y == sat(cur.y + line_height)
            &&& end.glyphs.len() == cur.glyphs.len() + 1
            &&& end.glyphs[first].x == 0
            &&& forall|j: int| first <= j < end.glyphs.len() ==> (#[trigger] end.glyphs[j]).y == end.y
            &&& forall|j: int| 0 <= j < first ==> end.glyphs[j] == cur.glyphs[j]
        }),
{
}

/// The characters of a line that leave a glyph: those that offer no break.
pub open spec fn visible(line: Seq<ResolvedChar>) -> Seq<ResolvedChar> {
    line.filter(|rc: ResolvedChar| !rc.soft_break)
}

/// Every character that offers no break leaves exactly one glyph, wrapped
/// or not, and the glyphs stand in the order of their characters.
pub proof fn lemma_one_glyph_per_visible_char(
    cur: Cursor,
    line: Seq<ResolvedChar>,
    line_height: i64,
    max_width: i64,
)
    ensures
        ({
            let end = place_chars(cur, line, line_height, max_width);
            &&& end.glyphs.len() == cur.glyphs.len() + visible(line).len()
            &&& forall|j: int|
                0 <= j < visible(line).len() ==> (#[trigger] end.glyphs[cur.glyphs.len() + j]).glyph
                    == visible(line)[j].glyph && end.glyphs[cur.glyphs.len() + j].source
                    == visible(line)[j].source
        }),
    decreases line.len(),
{
    reveal(Seq::filter);
    if line.len() > 0 {
        let front = line.drop_last();
        lemma_one_glyph_per_visible_char(cur, front, line_height, max_width);
        let mid = place_chars(cur, front, line_height, max_width);
        let end = place_char(mid, line.last(), line_height, max_width);
        let start = cur.glyphs.len() as int;
        assert forall|j: int| 0 <= j < visible(line).len() implies (#[trigger] end.glyphs[start
            + j]).glyph == visible(line)[j].glyph && end.glyphs[start + j].source
            == visible(line)[j].source by {
            if j < visible(front).len() {
                assert(mid.glyphs[start + j].glyph == visible(front)[j].glyph);
                assert(end.glyphs[start + j].glyph == mid.glyphs[start + j].glyph);
                assert(end.glyphs[start + j].source == mid.glyphs[start + j].source);
            }
        }
    }
}

} // verus!
