//! Parsed font files. The parsing and the tables are those of `ab_glyph`;
//! what this library relies on is named here and nowhere proved.

use ab_glyph::FontArc;
use ab_glyph::InvalidFont;
use vstd::prelude::*;

verus! {

/// `ab_glyph::FontArc`: a parsed font behind a shared pointer.
#[verifier::external_type_specification]
#[verifier::external_body]
pub struct ExFontArc(FontArc);

/// `ab_glyph::InvalidFont`: the error for bytes that are no font.
#[verifier::external_type_specification]
#[verifier::external_body]
pub struct ExInvalidFont(InvalidFont);

/// The bytes of the font file that a parsed font holds.
pub uninterp spec fn font_data(font: FontArc) -> Seq<u8>;

/// Whether `data` parses as a font file.
pub uninterp spec fn is_font(data: Seq<u8>) -> bool;

/// The glyph that the font file `data` has for `c`; 0 where it has none.
pub uninterp spec fn glyph_index(data: Seq<u8>, c: char) -> u16;

/// The horizontal advance of `glyph` in the font file `data`, in font units.
pub uninterp spec fn advance_units(data: Seq<u8>, glyph: u16) -> u16;

/// The kerning between two glyphs of the font file `data`, in font units.
pub uninterp spec fn kern_units(data: Seq<u8>, first: u16, second: u16) -> i16;

/// The ascent of the font file `data`, in font units.
pub uninterp spec fn ascent_units(data: Seq<u8>) -> i16;

/// The descent of the font file `data`, in font units; negative below the
/// baseline.
pub uninterp spec fn descent_units(data: Seq<u8>) -> i16;

/// The line gap of the font file `data`, in font units.
pub uninterp spec fn line_gap_units(data: Seq<u8>) -> i16;

/// The pre-rendered image that the font file `data` has for `glyph` when
/// asked for `ppem` pixels per em.
pub uninterp spec fn glyph_image(data: Seq<u8>, glyph: u16, ppem: u16) -> Option<GlyphImageView>;

/// A pre-rendered image of a glyph as its font stores it.
pub struct GlyphImage {
    /// Offset of the image from the glyph origin, in image pixels.
    pub origin_x: i16,
    pub origin_y: i16,
    /// Size of the image in pixels, as the font states it.
    pub width: u16,
    pub height: u16,
    /// The pixels per em for which the image was drawn.
    pub pixels_per_em: u16,
    /// Whether the image data is a PNG file.
    pub is_png: bool,
    /// The encoded image.
    pub data: Vec<u8>,
}

/// The value of a `GlyphImage`.
pub ghost struct GlyphImageView {
    pub origin_x: i16,
    pub origin_y: i16,
    pub width: u16,
    pub height: u16,
    pub pixels_per_em: u16,
    pub is_png: bool,
    pub data: Seq<u8>,
}

impl View for GlyphImage {
    type V = GlyphImageView;

    open spec fn view(&self) -> GlyphImageView {
        GlyphImageView {
            origin_x: self.origin_x,
            origin_y: self.origin_y,
            width: self.width,
            height: self.height,
            pixels_per_em: self.pixels_per_em,
            is_png: self.is_png,
            data: self.data@,
        }
    }
}

/// A parsed font file. Every value comes from `FontFace::parse`.
pub struct FontFace {
    arc: FontArc,
}

/// `FontArc::try_from_vec`: succeeds exactly on what `is_font` names, and
/// the font keeps the bytes it was made from.
#[verifier::external_body]
fn try_from_vec(data: Vec<u8>) -> (r: Result<FontArc, InvalidFont>)
    ensures
        r is Ok <==> is_font(data@),
        r matches Ok(font) ==> font_data(font) == data@,
{
    FontArc::try_from_vec(data)
}

/// `Clone` of `FontArc`: another handle to the same font.
#[verifier::external_body]
fn clone_arc(font: &FontArc) -> (r: FontArc)
    ensures
        font_data(r) == font_data(*font),
{
    font.clone()
}

/// `Font::glyph_id`: the glyph of a character, by name.
#[verifier::external_body]
pub(crate) fn glyph_id(face: &FontFace, c: char) -> (id: u16)
    ensures
        id == glyph_index(face.data(), c),
{
    ab_glyph::Font::glyph_id(&face.arc, c).0
}

/// `Font::h_advance_unscaled`: a 16-bit table entry, by name.
#[verifier::external_body]
pub(crate) fn h_advance_unscaled(face: &FontFace, glyph: u16) -> (units: u16)
    ensures
        units == advance_units(face.data(), glyph),
{
    ab_glyph::Font::h_advance_unscaled(&face.arc, ab_glyph::GlyphId(glyph)) as u16
}

/// `Font::kern_unscaled`: a 16-bit table entry, by name.
#[verifier::external_body]
pub(crate) fn kern_unscaled(face: &FontFace, first: u16, second: u16) -> (units: i16)
    ensures
        units == kern_units(face.data(), first, second),
{
    ab_glyph::Font::kern_unscaled(&face.arc, ab_glyph::GlyphId(first), ab_glyph::GlyphId(second))
        as i16
}

/// `Font::ascent_unscaled`: a 16-bit header field, by name.
#[verifier::external_body]
pub(crate) fn ascent_unscaled(face: &FontFace) -> (units: i16)
    ensures
        units == ascent_units(face.data()),
{
    ab_glyph::Font::ascent_unscaled(&face.arc) as i16
}

/// `Font::descent_unscaled`: a 16-bit header field, by name.
#[verifier::external_body]
pub(crate) fn descent_unscaled(face: &FontFace) -> (units: i16)
    ensures
        units == descent_units(face.data()),
{
    ab_glyph::Font::descent_unscaled(&face.arc) as i16
}

/// `Font::line_gap_unscaled`: a 16-bit header field, by name.
#[verifier::external_body]
pub(crate) fn line_gap_unscaled(face: &FontFace) -> (units: i16)
    ensures
        units == line_gap_units(face.data()),
{
    ab_glyph::Font::line_gap_unscaled(&face.arc) as i16
}

/// `Font::glyph_raster_image2`: the stored image of a glyph, by name.
#[verifier::external_body]
pub(crate) fn glyph_raster_image2(face: &FontFace, glyph: u16, ppem: u16) -> (r: Option<GlyphImage>)
    ensures
        r matches Some(img) ==> glyph_image(face.data(), glyph, ppem) == Some(img@),
        r is None ==> glyph_image(face.data(), glyph, ppem) is None,
{
    let img = ab_glyph::Font::glyph_raster_image2(&face.arc, ab_glyph::GlyphId(glyph), ppem)?;
    Some(
        GlyphImage {
            origin_x: img.origin.x as i16,
            origin_y: img.origin.y as i16,
            width: img.width,
            height: img.height,
            pixels_per_em: img.pixels_per_em,
            is_png: matches!(img.format, ab_glyph::GlyphImageFormat::Png),
            data: img.data.to_vec(),
        },
    )
}

impl FontFace {
    /// The bytes of the font file.
    pub closed spec fn data(&self) -> Seq<u8> {
        font_data(self.arc)
    }

    /// Parses a font file. Returns nothing where the bytes are no font.
    pub fn parse(data: Vec<u8>) -> (r: Option<FontFace>)
        ensures
            r is Some <==> is_font(data@),
            r matches Some(face) ==> face.data() == data@,
    {
        match try_from_vec(data) {
            Ok(arc) => Some(FontFace { arc }),
            Err(_) => None,
        }
    }

    /// Another handle to the same font.
    pub fn share(&self) -> (r: FontFace)
        ensures
            r.data() == self.data(),
    {
        FontFace { arc: clone_arc(&self.arc) }
    }

    /// The parsed font, for drawing its outlines.
    pub fn handle(&self) -> (r: &FontArc)
        ensures
            font_data(*r) == self.data(),
    {
        &self.arc
    }

    /// Whether the font has a glyph for `c`.
    pub fn has_glyph(&self, c: char) -> (r: bool)
        ensures
            r == (glyph_index(self.data(), c) != 0),
    {
        glyph_id(self, c) != 0
    }
}

/// The height of a font file in font units: ascent minus descent.
pub open spec fn height_units(data: Seq<u8>) -> int {
    ascent_units(data) - descent_units(data)
}

/// The height of a font in font units: computes `height_units`.
pub(crate) fn face_height(face: &FontFace) -> (h: i32)
    ensures
        h == height_units(face.data()),
{
    let ascent: i32 = ascent_unscaled(face) as i32;
    let descent: i32 = descent_unscaled(face) as i32;
    ascent - descent
}

/// A copy of what was read from a file.
pub fn copy_of(data: &Option<Vec<u8>>) -> (copy: Option<Vec<u8>>)
    ensures
        match (data, copy) {
            (Some(bytes), Some(copied)) => bytes@ == copied@,
            (None, None) => true,
            _ => false,
        },
{
    match data {
        Some(bytes) => {
            let mut copied: Vec<u8> = Vec::with_capacity(bytes.len());
            let mut i: usize = 0;
            while i < bytes.len()
                invariant
                    i <= bytes.len(),
                    copied@ == bytes@.take(i as int),
                decreases bytes.len() - i,
            {
                copied.push(bytes[i]);
                i += 1;
                assert(copied@ =~= bytes@.take(i as int));
            }
            assert(bytes@.take(bytes@.len() as int) =~= bytes@);
            Some(copied)
        },
        None => None,
    }
}

} // verus!
