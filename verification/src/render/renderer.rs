//! Rendering a text: from placed glyphs to rendered ones, their measure,
//! and the finished canvas.

use crate::render::canvas::{rgb, Canvas, Image, Rgba, MAX_CANVAS_PIXELS};
use crate::render::compose::{
    all_well_formed, base_offset, canvas_height, canvas_width, finish_glyphs, fits_canvas,
    pixel_after,
};
use crate::render::face::{
    ascent_unscaled, face_height, glyph_image, glyph_raster_image2, FontFace,
};
use crate::render::layout::{GlyphSource, PlacedGlyph};
use crate::render::metrics::{div_round, div_rounded, sat, sat_add, sat_sub, scale_units, scaled};
use crate::render::picture::{decode_image, decoded_image};
use crate::render::raster::{bounds_of, extent, measure_glyphs, OutlinedGlyph, RenderedGlyph};
use crate::render::scale::{scale_pixmap, scaled_image};
use crate::render::text::{files_of, scaled_ascent, text_layout, Font, FontModel};
use vstd::prelude::*;

verus! {

/// The value of a rendered glyph.
pub ghost enum Rendered {
    Outlined { min_x: i32, min_y: i32, width: u32, height: u32, coverage: Seq<u8> },
    Raster { image: Image, x: i64, y: i64 },
}

impl View for OutlinedGlyph {
    type V = Rendered;

    open spec fn view(&self) -> Rendered {
        Rendered::Outlined {
            min_x: self.min_x,
            min_y: self.min_y,
            width: self.width,
            height: self.height,
            coverage: self.coverage@,
        }
    }
}

impl View for RenderedGlyph {
    type V = Rendered;

    open spec fn view(&self) -> Rendered {
        match self {
            RenderedGlyph::Outlined(outlined) => outlined@,
            RenderedGlyph::Raster { pixmap, x, y } => Rendered::Raster {
                image: pixmap@,
                x: *x,
                y: *y,
            },
        }
    }
}

/// The values of a list of rendered glyphs.
pub open spec fn rendered_views(glyphs: Seq<RenderedGlyph>) -> Seq<Rendered> {
    Seq::new(glyphs.len(), |i: int| glyphs[i]@)
}

/// The values of a list of outlines, those left out that do not have one
/// coverage value for each pixel of their box.
pub open spec fn outline_views(outlines: Seq<Option<OutlinedGlyph>>) -> Seq<Option<Rendered>> {
    Seq::new(
        outlines.len(),
        |i: int|
            match outlines[i] {
                Some(outlined) => if outlined.well_formed() {
                    Some(outlined@)
                } else {
                    None
                },
                None => None,
            },
    )
}

/// The font file that glyphs of `source` are drawn from.
pub open spec fn source_file(font: FontModel, fallbacks: Seq<Option<Seq<u8>>>, source: GlyphSource) -> Option<
    Seq<u8>,
> {
    match source {
        GlyphSource::Primary => Some(font.primary),
        GlyphSource::Emoji => font.emoji,
        GlyphSource::Fallback(k) => if k < fallbacks.len() {
            fallbacks[k as int]
        } else {
            None
        },
    }
}

/// The pixels per em at which a font is asked for a stored picture: the
/// size in whole pixels, at most 65535.
pub open spec fn picture_ppem(px: u32) -> u16 {
    if px / 64 > 65535 {
        65535u16
    } else {
        (px / 64) as u16
    }
}

/// A length of a stored picture, drawn for `ppem` pixels per em, at `px`
/// units of size: rounded to whole pixels, and one pixel at least.
pub open spec fn picture_length(length: u16, px: u32, ppem: u16) -> int {
    let scaled = div_round(length * px, 64 * ppem);
    if scaled < 1 {
        1
    } else {
        scaled
    }
}

/// The bitmap glyph that the font file `data` has for `glyph` at `px`
/// units of size: its stored picture, if that is a PNG file that decodes,
/// scaled to the size and put at the glyph position moved by the picture's
/// origin and up by the font's ascent. Anything else gives no glyph.
pub open spec fn raster_glyph(data: Seq<u8>, px: u32, glyph: PlacedGlyph) -> Option<Rendered> {
    match glyph_image(data, glyph.glyph, picture_ppem(px)) {
        Some(picture) => if picture.is_png && picture.pixels_per_em > 0 {
            let width = picture_length(picture.width, px, picture.pixels_per_em);
            let height = picture_length(picture.height, px, picture.pixels_per_em);
            match decoded_image(picture.data) {
                Some(image) => if width * height <= MAX_CANVAS_PIXELS {
                    Some(
                        Rendered::Raster {
                            image: scaled_image(image, width, height),
                            x: sat(
                                glyph.x + sat(
                                    scale_units(
                                        picture.origin_x as int,
                                        px as int,
                                        picture.pixels_per_em as int,
                                    ),
                                ),
                            ) as i64,
                            y: sat(
                                sat(glyph.y - scaled_ascent(data, px)) + sat(
                                    scale_units(
                                        picture.origin_y as int,
                                        px as int,
                                        picture.pixels_per_em as int,
                                    ),
                                ),
                            ) as i64,
                        },
                    )
                } else {
                    None
                },
                None => None,
            }
        } else {
            None
        },
        None => None,
    }
}

/// The rendered form of a placed glyph: its outline where it has one, else
/// its bitmap, else nothing.
pub open spec fn rendered_glyph(
    font: FontModel,
    fallbacks: Seq<Option<Seq<u8>>>,
    glyph: PlacedGlyph,
    outline: Option<Rendered>,
) -> Option<Rendered> {
    match outline {
        Some(outlined) => Some(outlined),
        None => match source_file(font, fallbacks, glyph.source) {
            Some(data) => raster_glyph(data, font.px, glyph),
            None => None,
        },
    }
}

/// The rendered forms of placed glyphs, in order; glyphs without a form
/// are left out. `outlines` holds one entry for each glyph.
pub open spec fn rendered_glyphs(
    font: FontModel,
    fallbacks: Seq<Option<Seq<u8>>>,
    placed: Seq<PlacedGlyph>,
    outlines: Seq<Option<Rendered>>,
) -> Seq<Rendered>
    decreases placed.len(),
{
    if placed.len() == 0 {
        Seq::empty()
    } else {
        let front = rendered_glyphs(font, fallbacks, placed.drop_last(), outlines);
        let outline = if placed.len() <= outlines.len() {
            outlines[placed.len() - 1]
        } else {
            None
        };
        match rendered_glyph(font, fallbacks, placed.last(), outline) {
            Some(glyph) => front.push(glyph),
            None => front,
        }
    }
}

/// Computes `picture_length`.
fn picture_size(length: u16, px: u32, ppem: u16) -> (r: u64)
    requires
        ppem > 0,
    ensures
        r == picture_length(length, px, ppem),
        r >= 1,
{
    assert(0 <= length * px <= 0xffff * 0xffff_ffff) by (nonlinear_arith)
        requires
            0 <= length <= 0xffff,
            0 <= px <= 0xffff_ffff,
    ;
    let n: i128 = length as i128 * px as i128;
    let d: i128 = 64 * ppem as i128;
    let q = div_rounded(n, d);
    if q < 1 {
        1
    } else {
        q as u64
    }
}

/// A text with the settings it is rendered with.
pub struct TextRenderer<'a> {
    font: &'a Font,
    text: &'a str,
    color: Rgba,
    max_width: i64,
}

impl Font {
    /// The bitmap form of a placed glyph of the font `face`: computes
    /// `raster_glyph`.
    pub fn raster_glyph(&self, face: &FontFace, glyph: &PlacedGlyph) -> (r: Option<RenderedGlyph>)
        ensures
            match r {
                Some(g) => g.well_formed() && raster_glyph(face.data(), self.model().px, *glyph)
                    == Some(g@),
                None => raster_glyph(face.data(), self.model().px, *glyph) is None,
            },
    {
        let px = self.px_scale();
        let ppem: u16 = if px / 64 > 65535 {
            65535
        } else {
            (px / 64) as u16
        };
        let picture = match glyph_raster_image2(face, glyph.glyph, ppem) {
            Some(picture) => picture,
            None => {
                return None;
            },
        };
        if !picture.is_png || picture.pixels_per_em == 0 {
            return None;
        }
        let width = picture_size(picture.width, px, picture.pixels_per_em);
        let height = picture_size(picture.height, px, picture.pixels_per_em);
        let source = match decode_image(&picture.data) {
            Some(source) => source,
            None => {
                return None;
            },
        };
        if width > MAX_CANVAS_PIXELS as u64 || height > MAX_CANVAS_PIXELS as u64 {
            proof {
                assert(width * height > MAX_CANVAS_PIXELS) by (nonlinear_arith)
                    requires
                        width >= 1,
                        height >= 1,
                        width > MAX_CANVAS_PIXELS || height > MAX_CANVAS_PIXELS,
                ;
            }
            return None;
        }
        assert(width * height <= 0x1000_0000 * 0x1000_0000) by (nonlinear_arith)
            requires
                0 <= width <= 0x1000_0000,
                0 <= height <= 0x1000_0000,
        ;
        if width * height > MAX_CANVAS_PIXELS as u64 {
            return None;
        }
        let pixmap = scale_pixmap(&source, width as u32, height as u32);
        let ascent = scaled(ascent_unscaled(face) as i32, px, face_height(face));
        let dx = scaled(picture.origin_x as i32, px, picture.pixels_per_em as i32);
        let dy = scaled(picture.origin_y as i32, px, picture.pixels_per_em as i32);
        Some(
            RenderedGlyph::Raster {
                pixmap,
                x: sat_add(glyph.x, dx),
                y: sat_add(sat_sub(glyph.y, ascent), dy),
            },
        )
    }

    /// The rendered form of a placed glyph, given its outline if it has
    /// one: computes `rendered_glyph`. An outline that does not have one
    /// coverage value for each pixel of its box counts as none.
    pub fn resolve_glyph(
        &self,
        glyph: &PlacedGlyph,
        fallbacks: &Vec<Option<FontFace>>,
        outline: Option<OutlinedGlyph>,
    ) -> (r: Option<RenderedGlyph>)
        ensures
            match r {
                Some(g) => g.well_formed() && rendered_glyph(
                    self.model(),
                    files_of(fallbacks@),
                    *glyph,
                    outline_views(seq![outline])[0],
                ) == Some(g@),
                None => rendered_glyph(
                    self.model(),
                    files_of(fallbacks@),
                    *glyph,
                    outline_views(seq![outline])[0],
                ) is None,
            },
    {
        if let Some(outlined) = outline {
            assert(0 <= outlined.width * outlined.height <= 0xffff_ffff * 0xffff_ffff)
                by (nonlinear_arith)
                requires
                    0 <= outlined.width <= 0xffff_ffff,
                    0 <= outlined.height <= 0xffff_ffff,
            ;
            if outlined.coverage.len() as u64 == outlined.width as u64 * outlined.height as u64 {
                return Some(RenderedGlyph::Outlined(outlined));
            }
        }
        match self.face_of(glyph.source, fallbacks) {
            Some(face) => self.raster_glyph(face, glyph),
            None => None,
        }
    }

    /// A renderer for `text` in white without a wrap width.
    pub fn render<'a>(&'a self, text: &'a str) -> (renderer: TextRenderer<'a>)
        ensures
            renderer.font() == self,
            renderer.text() == text@,
            renderer.color() == (Rgba { r: 255, g: 255, b: 255, a: 255 }),
            renderer.max_width() == i64::MAX,
    {
        TextRenderer { font: self, text, color: rgb(255, 255, 255), max_width: i64::MAX }
    }
}

impl<'a> TextRenderer<'a> {
    /// The font that the text is set in.
    pub closed spec fn font(&self) -> &Font {
        self.font
    }

    /// The text.
    pub closed spec fn text(&self) -> Seq<char> {
        self.text@
    }

    /// The text color.
    pub closed spec fn color(&self) -> Rgba {
        self.color
    }

    /// The width past which lines wrap, in 1/64 pixel.
    pub closed spec fn max_width(&self) -> i64 {
        self.max_width
    }

    /// The same renderer with another text color.
    pub fn with_color(self, color: Rgba) -> (renderer: Self)
        ensures
            renderer.color() == color,
            renderer.font() == self.font(),
            renderer.text() == self.text(),
            renderer.max_width() == self.max_width(),
    {
        Self { color, ..self }
    }

    /// The same renderer with another wrap width, in 1/64 pixel.
    pub fn with_max_width(self, max_width: i64) -> (renderer: Self)
        ensures
            renderer.max_width() == max_width,
            renderer.font() == self.font(),
            renderer.text() == self.text(),
            renderer.color() == self.color(),
    {
        Self { max_width, ..self }
    }

    /// The characters of the text for which a fallback font is looked for,
    /// in the order in which `layout` takes their fonts.
    pub fn missing_chars(&self) -> (missing: Vec<char>)
        ensures
            missing@ == crate::render::text::missing_in(
                self.font().model(),
                crate::render::text::split_lines(self.text()),
            ),
    {
        self.font.missing_chars(self.text)
    }

    /// Lays the text out with soft wrapping and a font for each glyph.
    pub fn layout(&self, fallbacks: &Vec<Option<FontFace>>) -> (glyphs: Vec<PlacedGlyph>)
        ensures
            glyphs@ == text_layout(
                self.font().model(),
                files_of(fallbacks@),
                self.text(),
                self.max_width(),
            ),
    {
        self.font.layout(self.text, fallbacks, self.max_width)
    }

    /// Turns placed glyphs into rendered ones, outlines first and bitmaps
    /// where a glyph has no outline: computes `rendered_glyphs`.
    pub fn resolve_glyphs(
        &self,
        placed: &Vec<PlacedGlyph>,
        fallbacks: &Vec<Option<FontFace>>,
        outlines: Vec<Option<OutlinedGlyph>>,
    ) -> (glyphs: Vec<RenderedGlyph>)
        ensures
            all_well_formed(glyphs@),
            rendered_views(glyphs@) == rendered_glyphs(
                self.font().model(),
                files_of(fallbacks@),
                placed@,
                outline_views(outlines@),
            ),
    {
        let ghost font = self.font.model();
        let ghost files = files_of(fallbacks@);
        let ghost views = outline_views(outlines@);
        let ghost given = outlines@;
        let mut glyphs: Vec<RenderedGlyph> = Vec::new();
        let mut i: usize = 0;
        for outline in it: outlines.into_iter()
            invariant
                it.seq() == given,
                i == vstd::math::min(it.index() as int, placed.len() as int),
                font == self.font.model(),
                files == files_of(fallbacks@),
                views == outline_views(given),
                all_well_formed(glyphs@),
                rendered_views(glyphs@) == rendered_glyphs(font, files, placed@.take(i as int), views),
        {
            if i < placed.len() {
                let ghost before = rendered_views(glyphs@);
                proof {
                    assert(placed@.take(i + 1).drop_last() =~= placed@.take(i as int));
                    assert(placed@.take(i + 1).last() == placed@[i as int]);
                    assert(outline_views(seq![outline])[0] == views[i as int]);
                }
                match self.font.resolve_glyph(&placed[i], fallbacks, outline) {
                    Some(glyph) => {
                        glyphs.push(glyph);
                        assert(rendered_views(glyphs@) =~= before.push(glyph@));
                    },
                    None => {},
                }
                i += 1;
            }
        }
        let ghost done = i;
        while i < placed.len()
            invariant
                done <= i <= placed.len(),
                done == vstd::math::min(given.len() as int, placed.len() as int),
                font == self.font.model(),
                files == files_of(fallbacks@),
                views == outline_views(given),
                all_well_formed(glyphs@),
                rendered_views(glyphs@) == rendered_glyphs(font, files, placed@.take(i as int), views),
            decreases placed.len() - i,
        {
            let ghost before = rendered_views(glyphs@);
            proof {
                assert(placed@.take(i + 1).drop_last() =~= placed@.take(i as int));
                assert(placed@.take(i + 1).last() == placed@[i as int]);
                assert(outline_views(seq![None::<OutlinedGlyph>])[0] is None);
            }
            match self.font.resolve_glyph(&placed[i], fallbacks, None) {
                Some(glyph) => {
                    glyphs.push(glyph);
                    assert(rendered_views(glyphs@) =~= before.push(glyph@));
                },
                None => {},
            }
            i += 1;
        }
        proof {
            assert(placed@.take(placed@.len() as int) =~= placed@);
        }
        glyphs
    }

    /// The size of the rendered text without rendering it, in 1/64 pixel:
    /// the width and the height of the bounding box of its glyphs.
    pub fn measure(&self, glyphs: &Vec<RenderedGlyph>) -> (size: (i64, i64))
        ensures
            size == extent(bounds_of(glyphs@)),
    {
        measure_glyphs(glyphs)
    }

    /// Renders the glyphs of the text in the text color and returns the
    /// canvas that holds them.
    pub fn finish(self, glyphs: &Vec<RenderedGlyph>) -> (canvas: Canvas)
        requires
            all_well_formed(glyphs@),
            fits_canvas(glyphs@),
        ensures
            canvas.well_formed(),
            canvas.spec_width() == canvas_width(glyphs@),
            canvas.spec_height() == canvas_height(glyphs@),
            glyphs@.len() == 0 ==> canvas.spec_width() == 1 && canvas.spec_height() == 1,
            forall|px: int, py: int|
                canvas.holds(px, py) ==> #[trigger] canvas.at(px, py) == pixel_after(
                    glyphs@,
                    base_offset(bounds_of(glyphs@).min_x),
                    base_offset(bounds_of(glyphs@).min_y),
                    self.color(),
                    px,
                    py,
                ),
    {
        finish_glyphs(glyphs, self.color)
    }
}

/// A further glyph leaves the rendered forms of the glyphs before it as
/// they are: rendering is done glyph by glyph.
pub proof fn lemma_rendering_extends(
    font: FontModel,
    fallbacks: Seq<Option<Seq<u8>>>,
    placed: Seq<PlacedGlyph>,
    glyph: PlacedGlyph,
    outlines: Seq<Option<Rendered>>,
)
    ensures
        rendered_glyphs(font, fallbacks, placed, outlines).len() <= rendered_glyphs(
            font,
            fallbacks,
            placed.push(glyph),
            outlines,
        ).len(),
        rendered_glyphs(font, fallbacks, placed.push(glyph), outlines).subrange(
            0,
            rendered_glyphs(font, fallbacks, placed, outlines).len() as int,
        ) == rendered_glyphs(font, fallbacks, placed, outlines),
{
    let front = rendered_glyphs(font, fallbacks, placed, outlines);
    assert(placed.push(glyph).drop_last() =~= placed);
    let all = rendered_glyphs(font, fallbacks, placed.push(glyph), outlines);
    assert(all.subrange(0, front.len() as int) =~= front);
}

/// A glyph with an outline is rendered from its outline, whatever font it
/// is from.
pub proof fn lemma_outline_comes_first(
    font: FontModel,
    fallbacks: Seq<Option<Seq<u8>>>,
    glyph: PlacedGlyph,
    outline: Rendered,
)
    ensures
        rendered_glyph(font, fallbacks, glyph, Some(outline)) == Some(outline),
{
}

} // verus!
