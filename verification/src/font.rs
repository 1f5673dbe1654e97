//! Font state and the boundary to the font engine.
//!
//! `FontOptions` holds the raw bytes of a font face together with the point
//! size at which glyphs are rasterized.  The library never reads the file
//! system: callers load the bytes and hand them in.

use vstd::prelude::*;

use crate::layout::char_at;
use crate::sfnt::name_storage_safe;
use crate::sfnt::spec_name_storage_safe;

verus! {

/// Declares fontdue's `Font` so a parsed face can sit in a field.
#[verifier::external_type_specification]
#[verifier::external_body]
pub struct ExFont(fontdue::Font);

/// Whether the font engine accepts `bytes` as a well-formed font face.
pub uninterp spec fn font_parses(bytes: Seq<u8>) -> bool;

/// Whether the library accepts `bytes` as a font: the naming table must
/// pass the `sfnt` bounds check, without which the engine's name decoding
/// could read out of bounds, and the engine must parse the face.
pub open spec fn font_ok(bytes: Seq<u8>) -> bool {
    spec_name_storage_safe(bytes) && font_parses(bytes)
}

/// The glyph index the face parsed from `bytes` assigns to `glyph`;
/// index 0 is the face's "missing glyph" slot.
pub uninterp spec fn glyph_index_of(bytes: Seq<u8>, glyph: char) -> u16;

/// The raster the font engine produces for `glyph` at `size` points from
/// the face parsed out of `bytes`: a function of those arguments alone.
pub uninterp spec fn raster_of(bytes: Seq<u8>, glyph: char, size: u16) -> GlyphRaster;

/// Largest accepted point size.  The bound keeps the rasterizer's canvas
/// allocation (roughly `size * size` samples per glyph) within reason.
pub const MAX_POINT_SIZE: u16 = 4096;

/// Point size used by `FontOptions::new` until `with_size` overrides it.
pub const DEFAULT_POINT_SIZE: u16 = 16;

/// One rasterized glyph: an 8-bit coverage bitmap over the glyph's own
/// bounding box, row-major from the top-left corner, together with the
/// pen advance the glyph asks for.
pub struct GlyphBitmap {
    pub width: usize,
    pub height: usize,
    pub advance: usize,
    pub coverage: Vec<u8>,
}

/// Mathematical image of a `GlyphBitmap`.
pub ghost struct GlyphRaster {
    pub width: nat,
    pub height: nat,
    pub advance: nat,
    pub coverage: Seq<u8>,
}

impl View for GlyphBitmap {
    type V = GlyphRaster;

    open spec fn view(&self) -> GlyphRaster {
        GlyphRaster {
            width: self.width as nat,
            height: self.height as nat,
            advance: self.advance as nat,
            coverage: self.coverage@,
        }
    }
}

impl GlyphRaster {
    /// One coverage sample per cell of the bounding box.
    pub open spec fn wf(self) -> bool {
        self.coverage.len() == self.width * self.height
    }

    /// A raster with no ink: an empty bounding box and the given advance.
    pub open spec fn spec_empty(advance: nat) -> GlyphRaster {
        GlyphRaster { width: 0, height: 0, advance, coverage: Seq::empty() }
    }
}

impl GlyphBitmap {
    /// One coverage sample per cell of the bounding box.
    pub open spec fn wf(self) -> bool {
        self@.wf()
    }

    /// A bitmap with no ink: used for characters the font cannot draw,
    /// which still move the pen by a fallback advance.
    pub fn empty(advance: usize) -> (r: GlyphBitmap)
        ensures
            r@ == GlyphRaster::spec_empty(advance as nat),
            r.wf(),
    {
        let r = GlyphBitmap { width: 0, height: 0, advance, coverage: Vec::new() };
        proof {
            assert(r@.coverage =~= Seq::empty());
        }
        r
    }
}

/// The active font face and size: raw font-file bytes plus a point size.
pub struct FontOptions {
    pub font_bytes: Vec<u8>,
    pub size: u16,
}

/// Mathematical image of a `FontOptions`: the byte sequence and the size.
pub ghost struct FontView {
    pub bytes: Seq<u8>,
    pub size: u16,
}

impl View for FontOptions {
    type V = FontView;

    open spec fn view(&self) -> FontView {
        FontView { bytes: self.font_bytes@, size: self.size }
    }
}

impl FontOptions {
    /// A positive point size no larger than the rasterizer bound.
    pub open spec fn wf(self) -> bool {
        1 <= self.size <= MAX_POINT_SIZE
    }

    /// Font state over the given bytes at the default point size.
    pub fn new(font_bytes: Vec<u8>) -> (r: Self)
        ensures
            r@.bytes == font_bytes@,
            r@.size == DEFAULT_POINT_SIZE,
            r.wf(),
    {
        FontOptions { font_bytes, size: DEFAULT_POINT_SIZE }
    }

    /// The same font at another point size.
    pub fn with_size(self, size: u16) -> (r: Self)
        requires
            1 <= size <= MAX_POINT_SIZE,
        ensures
            r@.bytes == self@.bytes,
            r@.size == size,
            r.wf(),
    {
        FontOptions { font_bytes: self.font_bytes, size }
    }

    /// A value-equal copy of this font state.
    pub fn duplicate(&self) -> (r: Self)
        ensures
            r@ == self@,
    {
        FontOptions { font_bytes: clone_bytes(&self.font_bytes), size: self.size }
    }
}

/// A value-equal copy of a byte vector.
fn clone_bytes(v: &Vec<u8>) -> (r: Vec<u8>)
    ensures
        r@ == v@,
{
    let mut bytes: Vec<u8> = Vec::new();
    let n = v.len();
    while bytes.len() < n
        invariant
            bytes@.len() <= n,
            n == v@.len(),
            bytes@ == v@.take(bytes@.len() as int),
        decreases n - bytes@.len(),
    {
        let i = bytes.len();
        bytes.push(v[i]);
        proof {
            assert(bytes@ =~= v@.take(bytes@.len() as int));
        }
    }
    proof {
        assert(bytes@ =~= v@);
    }
    bytes
}

/// A parsed font face together with the bytes it was parsed from.
///
/// The fields are private and only `parse_font_bytes` builds a value, so
/// `face` always is the font engine's parse of `source`, and the
/// contracts of the rasterization calls may speak of the bytes.
pub struct LoadedFont {
    face: fontdue::Font,
    source: Vec<u8>,
}

impl LoadedFont {
    /// The bytes this face was parsed from.
    pub closed spec fn bytes(self) -> Seq<u8> {
        self.source@
    }
}

/// Relies on fontdue's `Font::from_bytes` with default settings: it
/// returns a face exactly when the bytes are a well-formed font, and the
/// face it returns depends on the bytes alone.  Its name decoding reads
/// the full-name record with unchecked indexing, so the bytes must first
/// have passed the `sfnt` naming-table bounds check.
#[verifier::external_body]
fn parse_face(bytes: &Vec<u8>) -> (r: Option<fontdue::Font>)
    requires
        spec_name_storage_safe(bytes@),
    ensures
        r.is_some() == font_parses(bytes@),
{
    fontdue::Font::from_bytes(bytes.as_slice(), fontdue::FontSettings::default()).ok()
}

/// Parse `bytes` as a font face: `None` exactly when the library rejects
/// them as malformed — an unsafe naming table, or a face the font engine
/// does not accept.
pub(crate) fn parse_font_bytes(bytes: &Vec<u8>) -> (r: Option<LoadedFont>)
    ensures
        match r {
            Some(f) => font_ok(bytes@) && f.bytes() == bytes@,
            None => !font_ok(bytes@),
        },
{
    if !name_storage_safe(bytes) {
        return None;
    }
    match parse_face(bytes) {
        Some(face) => Some(LoadedFont { face, source: clone_bytes(bytes) }),
        None => None,
    }
}

/// Relies on fontdue's `Font::lookup_glyph_index`: the index depends on
/// the face and the character alone, and is 0 exactly when the face has
/// no glyph for the character.
#[verifier::external_body]
pub(crate) fn lookup_glyph_index(font: &LoadedFont, glyph: char) -> (i: u16)
    ensures
        i == glyph_index_of(font.bytes(), glyph),
{
    font.face.lookup_glyph_index(glyph)
}

/// Relies on fontdue's `Font::rasterize`: for a fixed face, character
/// and positive size, the metrics and the coverage bitmap depend on
/// those arguments alone, and the bitmap holds exactly `width * height`
/// samples, row-major from the top-left corner of the glyph's bounding
/// box.
#[verifier::external_body]
pub(crate) fn rasterize_glyph(font: &LoadedFont, glyph: char, size: u16) -> (r: GlyphBitmap)
    requires
        1 <= size <= MAX_POINT_SIZE,
    ensures
        r@ == raster_of(font.bytes(), glyph, size),
        r.wf(),
{
    let (metrics, coverage) = font.face.rasterize(glyph, size.into());
    GlyphBitmap {
        width: metrics.width,
        height: metrics.height,
        advance: metrics.advance_width as usize,
        coverage,
    }
}

/// The pen advance used for a character the face cannot draw: half the
/// point size, rounded up.
pub open spec fn spec_fallback_advance(size: u16) -> nat {
    (((size + 1) / 2) as nat)
}

/// The pen advance used for a character the face cannot draw: half the
/// point size, rounded up.
pub fn fallback_advance(size: u16) -> (r: usize)
    ensures
        r as nat == spec_fallback_advance(size),
{
    ((size as usize) + 1) / 2
}

/// The raster the renderer uses for one character of a string: the font
/// engine's raster when the face has a glyph for it; an inkless raster
/// with the fallback advance when it does not; and an inkless raster
/// with no advance for the newline hard break, which layout never draws.
pub open spec fn spec_shaped(bytes: Seq<u8>, size: u16, c: char) -> GlyphRaster {
    if c == '\n' {
        GlyphRaster::spec_empty(0)
    } else if glyph_index_of(bytes, c) == 0 {
        GlyphRaster::spec_empty(spec_fallback_advance(size))
    } else {
        raster_of(bytes, c, size)
    }
}

/// The rasters for every character of `chars`, in order.
pub open spec fn spec_rasters(bytes: Seq<u8>, size: u16, chars: Seq<char>) -> Seq<GlyphRaster> {
    Seq::new(chars.len(), |i: int| spec_shaped(bytes, size, char_at(chars, i)))
}

/// The pen advances for every character of `chars`, in order.
pub open spec fn spec_advances(bytes: Seq<u8>, size: u16, chars: Seq<char>) -> Seq<usize> {
    Seq::new(chars.len(), |i: int| spec_shaped(bytes, size, char_at(chars, i)).advance as usize)
}

} // verus!
