//! Fonts and text: resolving each character to a glyph of the primary,
//! emoji or a fallback font, and laying the result out.

use crate::render::chars::chars_of;
use crate::render::face::{
    advance_units, ascent_units, copy_of, face_height, glyph_id, glyph_index, h_advance_unscaled,
    height_units, is_font, kern_units, kern_unscaled, line_gap_units, line_gap_unscaled, FontFace,
};
use crate::render::fallback::contents_of;
use crate::render::fonts::{next_candidate, suits, FontRole, SystemFontEntry};
use crate::render::layout::{
    layout_of, lemma_layout_extends, lemma_unbreakable_text_is_one_line, place_glyphs, rows,
    GlyphSource, PlacedGlyph, ResolvedChar, ZWSP,
};
use crate::render::metrics::{sat, sat_add, scale_units, scaled};
use vstd::prelude::*;

verus! {

/// The font size at scale 1, in pixels.
pub const BASE_FONT_SIZE: u32 = 18;

/// The primary text font with the emoji font, if there is one, at a size.
pub struct Font {
    primary: FontFace,
    emoji: Option<FontFace>,
    px_scale: u32,
}

/// The advance of `glyph` in the font file `data` at `px` units of size.
pub open spec fn scaled_advance(data: Seq<u8>, glyph: u16, px: u32) -> i64 {
    sat(scale_units(advance_units(data, glyph) as int, px as int, height_units(data))) as i64
}

/// The kerning between two glyphs of the font file `data` at `px` units of
/// size.
pub open spec fn scaled_kern(data: Seq<u8>, first: u16, second: u16, px: u32) -> i64 {
    sat(scale_units(kern_units(data, first, second) as int, px as int, height_units(data))) as i64
}

/// The ascent of the font file `data` at `px` units of size.
pub open spec fn scaled_ascent(data: Seq<u8>, px: u32) -> i64 {
    sat(scale_units(ascent_units(data) as int, px as int, height_units(data))) as i64
}

/// The distance between the tops of two lines set in the font file `data`
/// at `px` units of size: the font's height, which is its size, and its
/// line gap.
pub open spec fn line_height_of(data: Seq<u8>, px: u32) -> i64 {
    sat(px + sat(scale_units(line_gap_units(data) as int, px as int, height_units(data)))) as i64
}

/// Whether a line may be broken at `c`.
pub open spec fn is_soft_break(c: char) -> bool {
    c == ' ' || c == ZWSP
}

/// What font resolution carries from one character to the next.
pub ghost struct Resolver {
    /// How many characters so far were in neither the primary nor the emoji
    /// font; each of them took the next entry of the fallback list.
    pub fallbacks_used: int,
    /// The glyph of the character before, if it was set in the primary
    /// font; kerning applies only between two such glyphs.
    pub last_primary: Option<u16>,
}

/// The fonts that text is set in, as plain values.
pub ghost struct FontModel {
    /// The primary font file.
    pub primary: Seq<u8>,
    /// The emoji font file, if one is loaded.
    pub emoji: Option<Seq<u8>>,
    /// The size in 1/64 pixel.
    pub px: u32,
}

/// Whether `c` is in neither the primary nor the emoji font, so that a
/// fallback font is looked for.
pub open spec fn needs_fallback(font: FontModel, c: char) -> bool {
    &&& glyph_index(font.primary, c) == 0
    &&& font.emoji matches Some(e) ==> glyph_index(e, c) == 0
}

/// A character set in the primary font, kerned against the primary glyph
/// before it. The placeholder glyph 0 is set this way too.
pub open spec fn primary_char(font: FontModel, last: Option<u16>, glyph: u16, c: char) -> ResolvedChar {
    ResolvedChar {
        glyph,
        source: GlyphSource::Primary,
        kern: match last {
            Some(before) => scaled_kern(font.primary, before, glyph, font.px),
            None => 0,
        },
        advance: scaled_advance(font.primary, glyph, font.px),
        soft_break: is_soft_break(c),
    }
}

/// A character set in another font than the primary: no kerning.
pub open spec fn other_char(data: Seq<u8>, px: u32, source: GlyphSource, c: char) -> ResolvedChar {
    ResolvedChar {
        glyph: glyph_index(data, c),
        source,
        kern: 0,
        advance: scaled_advance(data, glyph_index(data, c), px),
        soft_break: is_soft_break(c),
    }
}

/// Font resolution of one character: the primary font if it has the
/// character, else the emoji font if it has it, else the fallback font
/// found for it, else the placeholder glyph of the primary font.
pub open spec fn resolve_char(
    font: FontModel,
    fallbacks: Seq<Option<Seq<u8>>>,
    st: Resolver,
    c: char,
) -> (ResolvedChar, Resolver) {
    let in_primary = glyph_index(font.primary, c);
    if in_primary != 0 {
        (
            primary_char(font, st.last_primary, in_primary, c),
            Resolver { last_primary: Some(in_primary), ..st },
        )
    } else if !needs_fallback(font, c) {
        (
            other_char(font.emoji->0, font.px, GlyphSource::Emoji, c),
            Resolver { last_primary: None, ..st },
        )
    } else {
        let k = st.fallbacks_used;
        if 0 <= k < fallbacks.len() && fallbacks[k] is Some {
            (
                other_char(fallbacks[k]->0, font.px, GlyphSource::Fallback(k as usize), c),
                Resolver { fallbacks_used: k + 1, last_primary: None },
            )
        } else {
            (
                primary_char(font, st.last_primary, 0, c),
                Resolver { fallbacks_used: k + 1, last_primary: Some(0u16) },
            )
        }
    }
}

/// Font resolution of the characters of a line, one after the other.
pub open spec fn resolve_chars(
    font: FontModel,
    fallbacks: Seq<Option<Seq<u8>>>,
    st: Resolver,
    line: Seq<char>,
) -> (Seq<ResolvedChar>, Resolver)
    decreases line.len(),
{
    if line.len() == 0 {
        (Seq::empty(), st)
    } else {
        let front = resolve_chars(font, fallbacks, st, line.drop_last());
        let last = resolve_char(font, fallbacks, front.1, line.last());
        (front.0.push(last.0), last.1)
    }
}

/// Font resolution of whole lines. Kerning starts anew on every line; the
/// fallback list is used up across lines.
pub open spec fn resolve_lines(
    font: FontModel,
    fallbacks: Seq<Option<Seq<u8>>>,
    lines: Seq<Seq<char>>,
) -> (Seq<Seq<ResolvedChar>>, int)
    decreases lines.len(),
{
    if lines.len() == 0 {
        (Seq::empty(), 0)
    } else {
        let front = resolve_lines(font, fallbacks, lines.drop_last());
        let st = Resolver { fallbacks_used: front.1, last_primary: None };
        let line = resolve_chars(font, fallbacks, st, lines.last());
        (front.0.push(line.0), line.1.fallbacks_used)
    }
}

/// The index of the first line feed in `text`, or its length.
pub open spec fn line_end(text: Seq<char>) -> int
    decreases text.len(),
{
    if text.len() == 0 || text[0] == '\n' {
        0
    } else {
        1 + line_end(text.drop_first())
    }
}

/// `line` without a carriage return at its end.
pub open spec fn strip_cr(line: Seq<char>) -> Seq<char> {
    if line.len() > 0 && line.last() == '\r' {
        line.drop_last()
    } else {
        line
    }
}

/// The lines of a text. A line ends at a line feed, or at a carriage return
/// followed by one; neither belongs to the line. What follows the last line
/// feed is a line only if it is not empty.
pub open spec fn split_lines(text: Seq<char>) -> Seq<Seq<char>>
    decreases text.len(),
{
    if text.len() == 0 {
        Seq::empty()
    } else {
        let end = line_end(text);
        if end < 0 || end >= text.len() {
            seq![text]
        } else {
            seq![strip_cr(text.subrange(0, end))] + split_lines(
                text.subrange(end + 1, text.len() as int),
            )
        }
    }
}

/// What `line_end` returns: the index of the first line feed.
pub proof fn lemma_line_end(text: Seq<char>)
    ensures
        0 <= line_end(text) <= text.len(),
        line_end(text) < text.len() ==> text[line_end(text)] == '\n',
        forall|j: int| 0 <= j < line_end(text) ==> text[j] != '\n',
    decreases text.len(),
{
    if text.len() == 0 || text[0] == '\n' {
    } else {
        let rest = text.drop_first();
        lemma_line_end(rest);
        assert forall|j: int| 0 <= j < line_end(text) implies text[j] != '\n' by {
            if j > 0 {
                assert(rest[j - 1] == text[j]);
            }
        }
    }
}

/// The lines of a vector of lines, each as a sequence.
pub open spec fn char_rows(lines: Seq<Vec<char>>) -> Seq<Seq<char>> {
    Seq::new(lines.len(), |i: int| lines[i]@)
}

/// Splits a text into its lines: computes `split_lines`.
pub fn lines_of(text: &str) -> (lines: Vec<Vec<char>>)
    ensures
        char_rows(lines@) == split_lines(text@),
{
    let chars = chars_of(text);
    let mut lines: Vec<Vec<char>> = Vec::new();
    let mut start: usize = 0;
    assert(chars@.subrange(0, chars@.len() as int) =~= chars@);
    while start < chars.len()
        invariant
            start <= chars.len(),
            char_rows(lines@) + split_lines(chars@.subrange(start as int, chars@.len() as int))
                == split_lines(chars@),
        decreases chars.len() - start,
    {
        let ghost rest = chars@.subrange(start as int, chars@.len() as int);
        proof {
            lemma_line_end(rest);
        }
        let mut end: usize = start;
        while end < chars.len() && chars[end] != '\n'
            invariant
                start <= end <= chars.len(),
                forall|j: int| start <= j < end ==> chars@[j] != '\n',
            decreases chars.len() - end,
        {
            end += 1;
        }
        proof {
            let e = line_end(rest);
            if e < end - start {
                assert(rest[e] == chars@[start + e]);
            } else if e > end - start {
                assert(rest[end - start] == chars@[end as int]);
            }
            assert(e == end - start);
        }
        let whole = end == chars.len();
        let stop: usize = if !whole && end > start && chars[end - 1] == '\r' {
            end - 1
        } else {
            end
        };
        let mut line: Vec<char> = Vec::new();
        let mut k: usize = start;
        while k < stop
            invariant
                start <= k <= stop <= chars.len(),
                line@ == chars@.subrange(start as int, k as int),
            decreases stop - k,
        {
            line.push(chars[k]);
            k += 1;
            assert(line@ =~= chars@.subrange(start as int, k as int));
        }
        let ghost before = char_rows(lines@);
        lines.push(line);
        proof {
            let piece = rest.subrange(0, end - start);
            assert(piece =~= chars@.subrange(start as int, end as int));
            if whole {
                assert(rest.subrange(0, rest.len() as int) =~= rest);
                assert(line@ =~= rest);
                assert(char_rows(lines@) =~= before + seq![rest]);
                assert(chars@.subrange(chars@.len() as int, chars@.len() as int) =~= Seq::<
                    char,
                >::empty());
                assert(before + seq![rest] + Seq::<Seq<char>>::empty() =~= before + seq![rest]);
            } else {
                if piece.len() > 0 {
                    assert(piece.last() == chars@[end - 1]);
                }
                assert(line@ =~= strip_cr(piece));
                assert(char_rows(lines@) =~= before + seq![strip_cr(piece)]);
                let tail = rest.subrange(end - start + 1, rest.len() as int);
                assert(tail =~= chars@.subrange(end + 1, chars@.len() as int));
                assert(before + (seq![strip_cr(piece)] + split_lines(tail)) =~= (before
                    + seq![strip_cr(piece)]) + split_lines(tail));
            }
        }
        start = if whole {
            end
        } else {
            end + 1
        };
    }
    proof {
        assert(chars@.subrange(chars@.len() as int, chars@.len() as int) =~= Seq::<char>::empty());
        assert(char_rows(lines@) + Seq::<Seq<char>>::empty() =~= char_rows(lines@));
    }
    lines
}

/// The characters of `line` that need a fallback font, in order.
pub open spec fn missing_in_line(font: FontModel, line: Seq<char>) -> Seq<char> {
    line.filter(|c: char| needs_fallback(font, c))
}

/// The characters of `lines` that need a fallback font, in order.
pub open spec fn missing_in(font: FontModel, lines: Seq<Seq<char>>) -> Seq<char>
    decreases lines.len(),
{
    if lines.len() == 0 {
        Seq::empty()
    } else {
        missing_in(font, lines.drop_last()) + missing_in_line(font, lines.last())
    }
}

/// The font files of a list of fallback fonts.
pub open spec fn files_of(fallbacks: Seq<Option<FontFace>>) -> Seq<Option<Seq<u8>>> {
    Seq::new(
        fallbacks.len(),
        |i: int|
            match fallbacks[i] {
                Some(face) => Some(face.data()),
                None => None,
            },
    )
}

/// The advance of a glyph at a size.
fn face_advance(face: &FontFace, glyph: u16, px: u32) -> (r: i64)
    ensures
        r == scaled_advance(face.data(), glyph, px),
{
    scaled(h_advance_unscaled(face, glyph) as i32, px, face_height(face))
}

/// The kerning between two glyphs at a size.
fn face_kern(face: &FontFace, first: u16, second: u16, px: u32) -> (r: i64)
    ensures
        r == scaled_kern(face.data(), first, second, px),
{
    scaled(kern_unscaled(face, first, second) as i32, px, face_height(face))
}

impl Font {
    /// The fonts and the size as plain values.
    pub closed spec fn model(&self) -> FontModel {
        FontModel {
            primary: self.primary.data(),
            emoji: match self.emoji {
                Some(face) => Some(face.data()),
                None => None,
            },
            px: self.px_scale,
        }
    }

    /// The fonts at the base size of 18 pixels times `scale`, where `scale`
    /// counts 1/64: 64 is the plain size, 128 twice that.
    pub fn load(primary: FontFace, emoji: Option<FontFace>, scale: u32) -> (font: Font)
        ensures
            font.model().primary == primary.data(),
            font.model().emoji == match emoji {
                Some(face) => Some(face.data()),
                None => None,
            },
            font.model().px == if BASE_FONT_SIZE * scale <= u32::MAX {
                BASE_FONT_SIZE * scale
            } else {
                u32::MAX as int
            },
    {
        assert(BASE_FONT_SIZE == 18);
        let wide: u64 = 18 * (scale as u64);
        let px_scale: u32 = if wide <= u32::MAX as u64 {
            wide as u32
        } else {
            u32::MAX
        };
        Font { primary, emoji, px_scale }
    }

    /// The fonts at a size given in 1/64 pixel.
    pub fn load_with_size(primary: FontFace, emoji: Option<FontFace>, size: u32) -> (font: Font)
        ensures
            font.model().primary == primary.data(),
            font.model().emoji == match emoji {
                Some(face) => Some(face.data()),
                None => None,
            },
            font.model().px == size,
    {
        Font { primary, emoji, px_scale: size }
    }

    /// The size in 1/64 pixel.
    pub fn px_scale(&self) -> (px: u32)
        ensures
            px == self.model().px,
    {
        self.px_scale
    }

    /// The primary font.
    pub fn primary(&self) -> (face: &FontFace)
        ensures
            face.data() == self.model().primary,
    {
        &self.primary
    }

    /// The emoji font, if one is loaded.
    pub fn emoji(&self) -> (face: Option<&FontFace>)
        ensures
            match face {
                Some(f) => self.model().emoji == Some(f.data()),
                None => self.model().emoji is None,
            },
    {
        self.emoji.as_ref()
    }

    /// The face that glyphs of `source` are drawn from, given the fallback
    /// fonts that the text was laid out with.
    pub fn face_of<'a>(&'a self, source: GlyphSource, fallbacks: &'a Vec<Option<FontFace>>) -> (face:
        Option<&'a FontFace>)
        ensures
            match source {
                GlyphSource::Primary => face matches Some(f) && f.data() == self.model().primary,
                GlyphSource::Emoji => match face {
                    Some(f) => self.model().emoji == Some(f.data()),
                    None => self.model().emoji is None,
                },
                GlyphSource::Fallback(k) => match face {
                    Some(f) => k < fallbacks.len() && files_of(fallbacks@)[k as int] == Some(
                        f.data(),
                    ),
                    None => k >= fallbacks.len() || files_of(fallbacks@)[k as int] is None,
                },
            },
    {
        match source {
            GlyphSource::Primary => Some(&self.primary),
            GlyphSource::Emoji => self.emoji.as_ref(),
            GlyphSource::Fallback(k) => if k < fallbacks.len() {
                fallbacks[k].as_ref()
            } else {
                None
            },
        }
    }

    /// The distance between the tops of two lines.
    pub fn line_height(&self) -> (h: i64)
        ensures
            h == line_height_of(self.model().primary, self.model().px),
    {
        let gap = scaled(
            line_gap_unscaled(&self.primary) as i32,
            self.px_scale,
            face_height(&self.primary),
        );
        sat_add(self.px_scale as i64, gap)
    }

    /// Whether `c` is in neither the primary nor the emoji font.
    pub fn lacks(&self, c: char) -> (r: bool)
        ensures
            r == needs_fallback(self.model(), c),
    {
        if self.primary.has_glyph(c) {
            return false;
        }
        match &self.emoji {
            Some(face) => !face.has_glyph(c),
            None => true,
        }
    }

    /// The characters of `text` that are in neither the primary nor the
    /// emoji font, in the order in which layout will ask for them. Line
    /// ends are no characters of the text.
    pub fn missing_chars(&self, text: &str) -> (missing: Vec<char>)
        ensures
            missing@ == missing_in(self.model(), split_lines(text@)),
    {
        let lines = lines_of(text);
        let mut missing: Vec<char> = Vec::new();
        let mut li: usize = 0;
        while li < lines.len()
            invariant
                li <= lines.len(),
                missing@ == missing_in(self.model(), char_rows(lines@).take(li as int)),
            decreases lines.len() - li,
        {
            let line = &lines[li];
            let ghost before = missing@;
            let mut ci: usize = 0;
            while ci < line.len()
                invariant
                    ci <= line.len(),
                    missing@ == before + missing_in_line(self.model(), line@.take(ci as int)),
                decreases line.len() - ci,
            {
                let c = line[ci];
                proof {
                    reveal(Seq::filter);
                    assert(line@.take(ci + 1).drop_last() =~= line@.take(ci as int));
                    assert(line@.take(ci + 1).last() == c);
                }
                if self.lacks(c) {
                    missing.push(c);
                    assert(missing@ =~= before + missing_in_line(
                        self.model(),
                        line@.take(ci + 1),
                    ));
                }
                ci += 1;
            }
            proof {
                assert(line@.take(line@.len() as int) =~= line@);
                assert(char_rows(lines@).take(li + 1).drop_last() =~= char_rows(lines@).take(
                    li as int,
                ));
                assert(char_rows(lines@).take(li + 1).last() == line@);
            }
            li += 1;
        }
        proof {
            assert(char_rows(lines@).take(lines@.len() as int) =~= char_rows(lines@));
        }
        missing
    }

    /// Resolves every character of `text` to a glyph with its metrics, line
    /// by line. `fallbacks` holds, for each character that `missing_chars`
    /// lists, the fallback font that was found for it, or nothing.
    pub fn resolve(&self, text: &str, fallbacks: &Vec<Option<FontFace>>) -> (resolved: Vec<
        Vec<ResolvedChar>,
    >)
        ensures
            rows(resolved@) == resolve_lines(
                self.model(),
                files_of(fallbacks@),
                split_lines(text@),
            ).0,
    {
        let lines = lines_of(text);
        let ghost font = self.model();
        let ghost files = files_of(fallbacks@);
        let mut resolved: Vec<Vec<ResolvedChar>> = Vec::new();
        let mut used: usize = 0;
        let mut li: usize = 0;
        while li < lines.len()
            invariant
                li <= lines.len(),
                font == self.model(),
                files == files_of(fallbacks@),
                rows(resolved@) == resolve_lines(font, files, char_rows(lines@).take(li as int)).0,
                used <= fallbacks.len(),
                used == vstd::math::min(
                    resolve_lines(font, files, char_rows(lines@).take(li as int)).1,
                    fallbacks.len() as int,
                ),
                resolve_lines(font, files, char_rows(lines@).take(li as int)).1 >= 0,
            decreases lines.len() - li,
        {
            let line = &lines[li];
            let ghost start = Resolver {
                fallbacks_used: resolve_lines(font, files, char_rows(lines@).take(li as int)).1,
                last_primary: None,
            };
            let mut out: Vec<ResolvedChar> = Vec::new();
            let mut last: Option<u16> = None;
            let mut ci: usize = 0;
            while ci < line.len()
                invariant
                    ci <= line.len(),
                    font == self.model(),
                    files == files_of(fallbacks@),
                    out@ == resolve_chars(font, files, start, line@.take(ci as int)).0,
                    last == resolve_chars(font, files, start, line@.take(ci as int)).1.last_primary,
                    used <= fallbacks.len(),
                    used == vstd::math::min(
                        resolve_chars(font, files, start, line@.take(ci as int)).1.fallbacks_used,
                        fallbacks.len() as int,
                    ),
                    resolve_chars(font, files, start, line@.take(ci as int)).1.fallbacks_used >= 0,
                decreases line.len() - ci,
            {
                let c = line[ci];
                proof {
                    assert(line@.take(ci + 1).drop_last() =~= line@.take(ci as int));
                    assert(line@.take(ci + 1).last() == c);
                }
                let soft_break = c == ' ' || c == ZWSP;
                let in_primary = glyph_id(&self.primary, c);
                let mut placeholder = false;
                let mut rc = ResolvedChar {
                    glyph: in_primary,
                    source: GlyphSource::Primary,
                    kern: 0,
                    advance: 0,
                    soft_break,
                };
                if in_primary == 0 {
                    let mut in_emoji = false;
                    if let Some(face) = &self.emoji {
                        let id = glyph_id(face, c);
                        if id != 0 {
                            in_emoji = true;
                            rc.glyph = id;
                            rc.source = GlyphSource::Emoji;
                            rc.advance = face_advance(face, id, self.px_scale);
                        }
                    }
                    if !in_emoji {
                        placeholder = true;
                        if used < fallbacks.len() {
                            if let Some(face) = &fallbacks[used] {
                                let id = glyph_id(face, c);
                                placeholder = false;
                                rc.glyph = id;
                                rc.source = GlyphSource::Fallback(used);
                                rc.advance = face_advance(face, id, self.px_scale);
                            }
                            used += 1;
                        }
                    }
                }
                if in_primary != 0 || placeholder {
                    if let Some(before) = last {
                        rc.kern = face_kern(&self.primary, before, in_primary, self.px_scale);
                    }
                    rc.advance = face_advance(&self.primary, in_primary, self.px_scale);
                    last = Some(in_primary);
                } else {
                    last = None;
                }
                out.push(rc);
                ci += 1;
            }
            proof {
                assert(line@.take(line@.len() as int) =~= line@);
                assert(char_rows(lines@).take(li + 1).drop_last() =~= char_rows(lines@).take(
                    li as int,
                ));
                assert(char_rows(lines@).take(li + 1).last() == line@);
            }
            let ghost before = rows(resolved@);
            resolved.push(out);
            assert(rows(resolved@) =~= before.push(out@));
            li += 1;
        }
        proof {
            assert(char_rows(lines@).take(lines@.len() as int) =~= char_rows(lines@));
        }
        resolved
    }

    /// Lays `text` out: resolves its characters and places the glyphs, lines
    /// wrapping at break opportunities once they run past `max_width`.
    pub fn layout(&self, text: &str, fallbacks: &Vec<Option<FontFace>>, max_width: i64) -> (glyphs:
        Vec<PlacedGlyph>)
        ensures
            glyphs@ == text_layout(self.model(), files_of(fallbacks@), text@, max_width),
    {
        let resolved = self.resolve(text, fallbacks);
        place_glyphs(&resolved, self.line_height(), max_width)
    }
}

/// The glyphs of `text` set in `font`, with their positions.
pub open spec fn text_layout(
    font: FontModel,
    fallbacks: Seq<Option<Seq<u8>>>,
    text: Seq<char>,
    max_width: i64,
) -> Seq<PlacedGlyph> {
    layout_of(
        resolve_lines(font, fallbacks, split_lines(text)).0,
        line_height_of(font.primary, font.px),
        max_width,
    )
}

/// The glyphs of lines of text set in `font`, with their positions.
pub open spec fn lines_layout(
    font: FontModel,
    fallbacks: Seq<Option<Seq<u8>>>,
    lines: Seq<Seq<char>>,
    max_width: i64,
) -> Seq<PlacedGlyph> {
    layout_of(
        resolve_lines(font, fallbacks, lines).0,
        line_height_of(font.primary, font.px),
        max_width,
    )
}

/// Font resolution gives one resolved character for each character, and a
/// break opportunity exactly for spaces and zero-width spaces.
pub proof fn lemma_resolve_chars_shape(
    font: FontModel,
    fallbacks: Seq<Option<Seq<u8>>>,
    st: Resolver,
    line: Seq<char>,
)
    ensures
        resolve_chars(font, fallbacks, st, line).0.len() == line.len(),
        forall|i: int|
            0 <= i < line.len() ==> (#[trigger] resolve_chars(
                font,
                fallbacks,
                st,
                line,
            ).0[i]).soft_break == is_soft_break(line[i]),
    decreases line.len(),
{
    if line.len() > 0 {
        lemma_resolve_chars_shape(font, fallbacks, st, line.drop_last());
        let front = resolve_chars(font, fallbacks, st, line.drop_last());
        let all = resolve_chars(font, fallbacks, st, line);
        assert forall|i: int| 0 <= i < line.len() implies (#[trigger] all.0[i]).soft_break
            == is_soft_break(line[i]) by {
            if i < line.len() - 1 {
                assert(all.0[i] == front.0[i]);
                assert(line.drop_last()[i] == line[i]);
            }
        }
    }
}

/// Empty text has no glyphs.
pub proof fn lemma_empty_text_has_no_glyphs(
    font: FontModel,
    fallbacks: Seq<Option<Seq<u8>>>,
    max_width: i64,
)
    ensures
        text_layout(font, fallbacks, Seq::empty(), max_width) == Seq::<PlacedGlyph>::empty(),
{
}

/// Text without a break opportunity is never wrapped: a text of one line
/// without spaces keeps a glyph for each character, all on the first line,
/// however narrow the wrap width is.
pub proof fn lemma_unbreakable_text_is_not_wrapped(
    font: FontModel,
    fallbacks: Seq<Option<Seq<u8>>>,
    text: Seq<char>,
    max_width: i64,
)
    requires
        text.len() > 0,
        forall|i: int| 0 <= i < text.len() ==> text[i] != '\n' && !is_soft_break(#[trigger] text[i]),
    ensures
        text_layout(font, fallbacks, text, max_width).len() == text.len(),
        forall|j: int|
            0 <= j < text.len() ==> (#[trigger] text_layout(font, fallbacks, text, max_width)[j]).y
                == 0,
{
    lemma_line_end(text);
    if line_end(text) < text.len() {
        assert(!is_soft_break(text[line_end(text)]));
    }
    assert(split_lines(text) =~= seq![text]);
    let lines = split_lines(text);
    assert(lines.drop_last() =~= Seq::<Seq<char>>::empty());
    assert(lines.last() == text);
    let st = Resolver { fallbacks_used: 0, last_primary: None };
    let line = resolve_chars(font, fallbacks, st, text).0;
    assert(resolve_lines(font, fallbacks, lines.drop_last()) == (
        Seq::<Seq<ResolvedChar>>::empty(),
        0int,
    ));
    assert(resolve_lines(font, fallbacks, lines).0 =~= seq![line]);
    lemma_resolve_chars_shape(font, fallbacks, st, text);
    assert forall|i: int| 0 <= i < line.len() implies !line[i].soft_break by {
        assert(!is_soft_break(text[i]));
    }
    lemma_unbreakable_text_is_one_line(line, line_height_of(font.primary, font.px), max_width);
}

/// A further line leaves the glyphs of the lines before it where they
/// are: the layout of a text starts with the layout of the text without
/// its last line.
pub proof fn lemma_further_line_extends_layout(
    font: FontModel,
    fallbacks: Seq<Option<Seq<u8>>>,
    lines: Seq<Seq<char>>,
    line: Seq<char>,
    max_width: i64,
)
    ensures
        lines_layout(font, fallbacks, lines, max_width).len() <= lines_layout(
            font,
            fallbacks,
            lines.push(line),
            max_width,
        ).len(),
        lines_layout(font, fallbacks, lines.push(line), max_width).subrange(
            0,
            lines_layout(font, fallbacks, lines, max_width).len() as int,
        ) == lines_layout(font, fallbacks, lines, max_width),
{
    assert(lines.push(line).drop_last() =~= lines);
    let front = resolve_lines(font, fallbacks, lines);
    let st = Resolver { fallbacks_used: front.1, last_primary: None };
    lemma_layout_extends(
        front.0,
        resolve_chars(font, fallbacks, st, line).0,
        line_height_of(font.primary, font.px),
        max_width,
    );
}

/// Layout depends on nothing but the font files, the size, the fallback
/// fonts, the text and the wrap width: two fonts loaded from the same files
/// at the same size lay the same text out alike.
pub proof fn lemma_same_fonts_same_layout(
    first: Font,
    second: Font,
    fallbacks: Seq<Option<Seq<u8>>>,
    text: Seq<char>,
    max_width: i64,
)
    requires
        first.model() == second.model(),
    ensures
        text_layout(first.model(), fallbacks, text, max_width) == text_layout(
            second.model(),
            fallbacks,
            text,
            max_width,
        ),
{
}

/// A character that no font has is set as the placeholder glyph of the
/// primary font.
pub proof fn lemma_unknown_char_is_placeholder(
    font: FontModel,
    fallbacks: Seq<Option<Seq<u8>>>,
    st: Resolver,
    c: char,
)
    requires
        needs_fallback(font, c),
        !(0 <= st.fallbacks_used < fallbacks.len()) || fallbacks[st.fallbacks_used] is None,
    ensures
        resolve_char(font, fallbacks, st, c).0.glyph == 0,
        resolve_char(font, fallbacks, st, c).0.source == GlyphSource::Primary,
{
}

/// A character that only a fallback font has is set in that font, with the
/// glyph that the font has for it, and without kerning.
pub proof fn lemma_fallback_char_uses_fallback_font(
    font: FontModel,
    fallbacks: Seq<Option<Seq<u8>>>,
    st: Resolver,
    c: char,
)
    requires
        needs_fallback(font, c),
        0 <= st.fallbacks_used < fallbacks.len(),
        st.fallbacks_used <= usize::MAX,
        fallbacks[st.fallbacks_used] is Some,
    ensures
        resolve_char(font, fallbacks, st, c).0.glyph == glyph_index(
            fallbacks[st.fallbacks_used]->0,
            c,
        ),
        resolve_char(font, fallbacks, st, c).0.source == GlyphSource::Fallback(
            st.fallbacks_used as usize,
        ),
        resolve_char(font, fallbacks, st, c).0.kern == 0,
{
}

/// Font resolution takes one entry of the fallback list for each character
/// of the line that is in neither the primary nor the emoji font.
pub proof fn lemma_one_fallback_per_missing_char(
    font: FontModel,
    fallbacks: Seq<Option<Seq<u8>>>,
    st: Resolver,
    line: Seq<char>,
)
    ensures
        resolve_chars(font, fallbacks, st, line).1.fallbacks_used == st.fallbacks_used
            + missing_in_line(font, line).len(),
    decreases line.len(),
{
    reveal(Seq::filter);
    if line.len() > 0 {
        lemma_one_fallback_per_missing_char(font, fallbacks, st, line.drop_last());
    }
}

/// Layout takes as many entries of the fallback list as `missing_chars`
/// lists characters: the list of fallback fonts and the list of missing
/// characters go together entry by entry.
pub proof fn lemma_fallbacks_match_missing_chars(
    font: FontModel,
    fallbacks: Seq<Option<Seq<u8>>>,
    lines: Seq<Seq<char>>,
)
    ensures
        resolve_lines(font, fallbacks, lines).1 == missing_in(font, lines).len(),
    decreases lines.len(),
{
    if lines.len() > 0 {
        lemma_fallbacks_match_missing_chars(font, fallbacks, lines.drop_last());
        let front = resolve_lines(font, fallbacks, lines.drop_last());
        lemma_one_fallback_per_missing_char(
            font,
            fallbacks,
            Resolver { fallbacks_used: front.1, last_primary: None },
            lines.last(),
        );
    }
}

/// A character that needs a fallback font is set with the entry of the
/// fallback list that stands where the character stands among the missing
/// characters of the line.
pub proof fn lemma_fallback_of_a_char(
    font: FontModel,
    fallbacks: Seq<Option<Seq<u8>>>,
    st: Resolver,
    line: Seq<char>,
    c: char,
)
    requires
        needs_fallback(font, c),
        0 <= st.fallbacks_used,
        st.fallbacks_used + missing_in_line(font, line).len() < fallbacks.len(),
        fallbacks.len() <= usize::MAX,
        fallbacks[st.fallbacks_used + missing_in_line(font, line).len()] is Some,
    ensures
        missing_in_line(font, line.push(c)) == missing_in_line(font, line).push(c),
        resolve_chars(font, fallbacks, st, line.push(c)).0.last().source == GlyphSource::Fallback(
            (st.fallbacks_used + missing_in_line(font, line).len()) as usize,
        ),
{
    reveal(Seq::filter);
    assert(line.push(c).drop_last() =~= line);
    lemma_one_fallback_per_missing_char(font, fallbacks, st, line);
}

/// Whether candidate `i` may serve in `role` and its file is a font.
pub open spec fn loadable(
    fonts: Seq<SystemFontEntry>,
    files: Seq<Option<Seq<u8>>>,
    role: FontRole,
    i: int,
) -> bool {
    &&& 0 <= i < fonts.len()
    &&& suits(role, fonts[i].path@)
    &&& i < files.len()
    &&& files[i] matches Some(data) && is_font(data)
}

/// The first candidate at or after `from` that may serve in `role` and
/// whose file is a font.
pub open spec fn first_loadable(
    fonts: Seq<SystemFontEntry>,
    files: Seq<Option<Seq<u8>>>,
    role: FontRole,
    from: int,
) -> Option<int>
    decreases fonts.len() - from,
{
    if from < 0 || from >= fonts.len() {
        None
    } else if loadable(fonts, files, role, from) {
        Some(from)
    } else {
        first_loadable(fonts, files, role, from + 1)
    }
}

/// The font for a role where the files of the candidates were read
/// already: the first candidate that suits the role and parses.
fn load_font(fonts: &Vec<SystemFontEntry>, files: &Vec<Option<Vec<u8>>>, role: FontRole) -> (face:
    Option<FontFace>)
    ensures
        match first_loadable(fonts@, contents_of(files@), role, 0) {
            Some(i) => face matches Some(f) && Some(f.data()) == contents_of(files@)[i],
            None => face is None,
        },
{
    let ghost contents = contents_of(files@);
    let mut from: usize = 0;
    loop
        invariant
            contents == contents_of(files@),
            first_loadable(fonts@, contents, role, 0) == first_loadable(
                fonts@,
                contents,
                role,
                from as int,
            ),
        decreases fonts.len() - from,
    {
        let index = match next_candidate(fonts, role, from) {
            Some(index) => index,
            None => {
                proof {
                    lemma_no_candidate_nothing_loadable(fonts@, contents, role, from as int);
                }
                return None;
            },
        };
        proof {
            lemma_skip_unsuited(fonts@, contents, role, from as int, index as int);
        }
        if index < files.len() {
            if let Some(bytes) = copy_of(&files[index]) {
                if let Some(face) = FontFace::parse(bytes) {
                    return Some(face);
                }
            }
        }
        from = index + 1;
    }
}

/// Candidates that do not suit the role are not loadable.
proof fn lemma_skip_unsuited(
    fonts: Seq<SystemFontEntry>,
    files: Seq<Option<Seq<u8>>>,
    role: FontRole,
    from: int,
    to: int,
)
    requires
        0 <= from <= to <= fonts.len(),
        forall|j: int| from <= j < to ==> !suits(role, #[trigger] fonts[j].path@),
    ensures
        first_loadable(fonts, files, role, from) == first_loadable(fonts, files, role, to),
    decreases to - from,
{
    if from < to {
        lemma_skip_unsuited(fonts, files, role, from + 1, to);
    }
}

/// Where no candidate suits the role, none is loadable.
proof fn lemma_no_candidate_nothing_loadable(
    fonts: Seq<SystemFontEntry>,
    files: Seq<Option<Seq<u8>>>,
    role: FontRole,
    from: int,
)
    requires
        0 <= from,
        forall|j: int| from <= j < fonts.len() ==> !suits(role, #[trigger] fonts[j].path@),
    ensures
        first_loadable(fonts, files, role, from) is None,
    decreases fonts.len() - from,
{
    if from < fonts.len() {
        lemma_no_candidate_nothing_loadable(fonts, files, role, from + 1);
    }
}

impl Font {
    /// Loads the best available text font (not emoji) where the files of
    /// the candidates were read already: the first candidate that is no
    /// emoji, color or symbol font and parses; the bundled font where none
    /// does. Nothing only if the bundled font is no font.
    pub fn load_text_font(
        fonts: &Vec<SystemFontEntry>,
        files: &Vec<Option<Vec<u8>>>,
        bundled: Vec<u8>,
    ) -> (face: Option<FontFace>)
        ensures
            match first_loadable(fonts@, contents_of(files@), FontRole::Text, 0) {
                Some(i) => face matches Some(f) && Some(f.data()) == contents_of(files@)[i],
                None => if is_font(bundled@) {
                    face matches Some(f) && f.data() == bundled@
                } else {
                    face is None
                },
            },
    {
        match load_font(fonts, files, FontRole::Text) {
            Some(face) => Some(face),
            None => FontFace::parse(bundled),
        }
    }

    /// Loads an emoji font if available, where the files of the candidates
    /// were read already: the first candidate that is an emoji or color
    /// font and parses.
    pub fn load_emoji_font(fonts: &Vec<SystemFontEntry>, files: &Vec<Option<Vec<u8>>>) -> (face:
        Option<FontFace>)
        ensures
            match first_loadable(fonts@, contents_of(files@), FontRole::Emoji, 0) {
                Some(i) => face matches Some(f) && Some(f.data()) == contents_of(files@)[i],
                None => face is None,
            },
    {
        load_font(fonts, files, FontRole::Emoji)
    }
}

} // verus!
