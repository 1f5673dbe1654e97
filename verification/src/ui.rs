//! The drawing surface: a fixed grid of packed 32-bit colors, primitive
//! pixel writes, glyph and string rendering, and a raw-byte export for a
//! presentation layer.

use vstd::prelude::*;

use crate::font::FontOptions;
use crate::font::GlyphBitmap;
use crate::font::GlyphRaster;
use crate::font::font_ok;
use crate::font::glyph_index_of;
use crate::font::raster_of;
use crate::font::spec_advances;
use crate::font::spec_rasters;
use crate::font::spec_shaped;
use crate::font::fallback_advance;
use crate::font::lookup_glyph_index;
use crate::font::parse_font_bytes;
use crate::font::rasterize_glyph;
use crate::layout::PositionedGlyph;
use crate::layout::char_at;
use crate::layout::glyph_at;
use crate::layout::glyphs_wf;
use crate::layout::layout_glyphs;
use crate::layout::lemma_layout_from_glyphs_wf;
use crate::layout::spec_layout;

verus! {

/// The blank sentinel every pixel holds after creation and after `reset`.
pub const BLANK_PIXEL: u32 = 0;

/// The opaque foreground color written wherever a glyph covers a pixel.
pub const FOREGROUND_PIXEL: u32 = 0xFFFF_FFFF;

/// Everything that can go wrong in the library.
#[derive(Clone, Copy, Debug, PartialEq, Eq, Structural)]
pub enum UiError {
    /// A surface was requested with a zero or unrepresentably large side.
    InvalidDimensions,
    /// The active font bytes are not a well-formed font.
    InvalidFontData,
    /// The active font has no outline for the requested character.
    GlyphRasterizationFailed,
    /// A pixel write lies outside the surface.
    OutOfBounds,
}

/// The drawing surface and the renderer state that works on it.
pub struct UI {
    /// Packed colors, row-major: the pixel at `(x, y)` is entry `y * width + x`.
    pub framebuffer: Vec<u32>,
    pub width: usize,
    pub height: usize,
    /// The font used by the glyph and string calls.
    pub font_options: FontOptions,
    /// The font restored by `reset` at the end of every frame.
    pub default_font: FontOptions,
}

/// `n` pixels, all blank.
pub open spec fn spec_blank(n: nat) -> Seq<u32> {
    Seq::new(n, |i: int| BLANK_PIXEL)
}

/// Byte `k` of the packed color `p`, least-significant first.
pub open spec fn spec_byte_of(p: u32, k: int) -> u8 {
    if k == 0 {
        (p % 256) as u8
    } else if k == 1 {
        ((p / 256) % 256) as u8
    } else if k == 2 {
        ((p / 65536) % 256) as u8
    } else {
        ((p / 16777216) % 256) as u8
    }
}

/// `pixels` reinterpreted as raw bytes: four per pixel, least-significant
/// byte first.
pub open spec fn spec_export(pixels: Seq<u32>) -> Seq<u8> {
    Seq::new(pixels.len() * 4, |j: int| spec_byte_of(pixels[j / 4], j % 4))
}

/// The coverage sample of `g` at bitmap row `row` and column `col`, read
/// row-major with `g`'s own width as the wrap boundary; zero outside the
/// bitmap.
pub open spec fn spec_cov_at(g: GlyphRaster, row: int, col: int) -> u8 {
    let k = row * g.width + col;
    if 0 <= k < g.coverage.len() {
        g.coverage[k]
    } else {
        0
    }
}

/// Whether the glyph `g`, overlaid with its top-left corner at
/// `(px, py)`, puts ink on the surface pixel `(x, y)`: the pixel lies in
/// the glyph's bounding box and the coverage sample there is positive.
pub open spec fn spec_covered(g: GlyphRaster, px: int, py: int, x: int, y: int) -> bool {
    &&& px <= x < px + g.width
    &&& py <= y < py + g.height
    &&& spec_cov_at(g, y - py, x - px) > 0
}

/// `fb` (a row-major grid of width `w`) after overlaying `g` at
/// `(px, py)`: every covered in-bounds pixel becomes the opaque
/// foreground color, every other pixel keeps its value.  Samples that
/// fall outside the grid have no pixel here and are thereby skipped.
pub open spec fn spec_overlay(fb: Seq<u32>, w: int, g: GlyphRaster, px: int, py: int) -> Seq<u32> {
    Seq::new(
        fb.len(),
        |i: int|
            if spec_covered(g, px, py, i % w, i / w) {
                FOREGROUND_PIXEL
            } else {
                fb[i]
            },
    )
}

/// `fb` after overlaying only the samples of `g` that come before bitmap
/// row `row`, or in row `row` before column `col`, in row-major order:
/// the intermediate states of the overlay loop.
pub open spec fn spec_overlay_partial(
    fb: Seq<u32>,
    w: int,
    g: GlyphRaster,
    px: int,
    py: int,
    row: int,
    col: int,
) -> Seq<u32> {
    Seq::new(
        fb.len(),
        |i: int|
            if spec_covered(g, px, py, i % w, i / w) && (i / w - py < row || (i / w - py == row
                && i % w - px < col)) {
                FOREGROUND_PIXEL
            } else {
                fb[i]
            },
    )
}

/// A freshly created surface exports only blank bytes: `create` ensures
/// every pixel is the blank sentinel, and exporting such a framebuffer
/// yields `width * height * 4` bytes, every one zero.
pub proof fn lemma_blank_export(width: usize, height: usize)
    ensures
        spec_export(spec_blank((width * height) as nat)).len() == width * height * 4,
        forall|j: int|
            0 <= j < width * height * 4 ==> #[trigger] spec_export(
                spec_blank((width * height) as nat),
            )[j] == 0,
{
    let n = (width * height) as nat;
    assert forall|j: int| 0 <= j < width * height * 4 implies spec_export(spec_blank(n))[j]
        == 0 by {
        assert(0 <= j / 4 < n);
        assert(spec_blank(n)[j / 4] == BLANK_PIXEL);
        assert(0 <= j % 4 < 4);
        assert(spec_byte_of(BLANK_PIXEL, j % 4) == 0);
    }
}

/// The raster at `i`, or an inkless raster when `i` lies outside
/// `rasters`: a total stand-in for `rasters[i]` inside recursive spec
/// functions.
pub open spec fn raster_at(rasters: Seq<GlyphRaster>, i: int) -> GlyphRaster {
    if 0 <= i < rasters.len() {
        rasters[i]
    } else {
        GlyphRaster::spec_empty(0)
    }
}

/// `fb` after overlaying, first to last, each glyph of `glyphs` with the
/// raster its `index` picks out of `rasters`.
pub open spec fn spec_overlay_all(
    fb: Seq<u32>,
    w: int,
    glyphs: Seq<PositionedGlyph>,
    rasters: Seq<GlyphRaster>,
) -> Seq<u32>
    decreases glyphs.len(),
{
    if glyphs.len() <= 0 {
        fb
    } else {
        let g = glyph_at(glyphs, 0);
        spec_overlay_all(
            spec_overlay(fb, w, raster_at(rasters, g.index as int), g.x as int, g.y as int),
            w,
            glyphs.drop_first(),
            rasters,
        )
    }
}

/// Peeling the last glyph off an overlay sequence: overlaying
/// `glyphs.push(g)` is overlaying `glyphs`, then `g`.
pub proof fn lemma_overlay_all_push(
    fb: Seq<u32>,
    w: int,
    glyphs: Seq<PositionedGlyph>,
    rasters: Seq<GlyphRaster>,
    g: PositionedGlyph,
)
    ensures
        spec_overlay_all(fb, w, glyphs.push(g), rasters) == spec_overlay(
            spec_overlay_all(fb, w, glyphs, rasters),
            w,
            raster_at(rasters, g.index as int),
            g.x as int,
            g.y as int,
        ),
    decreases glyphs.len(),
{
    if glyphs.len() == 0 {
        assert(glyphs.push(g).drop_first() =~= Seq::<PositionedGlyph>::empty());
        assert(glyph_at(glyphs.push(g), 0) == g);
        let once = spec_overlay(fb, w, raster_at(rasters, g.index as int), g.x as int, g.y as int);
        assert(spec_overlay_all(once, w, Seq::<PositionedGlyph>::empty(), rasters) == once);
        assert(spec_overlay_all(fb, w, Seq::<PositionedGlyph>::empty(), rasters) == fb);
    } else {
        let g0 = glyph_at(glyphs, 0);
        assert(glyph_at(glyphs.push(g), 0) == g0);
        assert(glyphs.push(g).drop_first() =~= glyphs.drop_first().push(g));
        lemma_overlay_all_push(
            spec_overlay(fb, w, raster_at(rasters, g0.index as int), g0.x as int, g0.y as int),
            w,
            glyphs.drop_first(),
            rasters,
            g,
        );
    }
}

/// The whole text pipeline as one function: `fb` after laying out
/// `chars` anchored at `(x, y)`, with per-character advances taken from
/// the face in `bytes` at `size` points, line height `size`, wrap width
/// `w` and bottom edge `h`, and overlaying each laid-out glyph's raster.
pub open spec fn spec_render_string(
    fb: Seq<u32>,
    w: int,
    h: int,
    bytes: Seq<u8>,
    size: u16,
    chars: Seq<char>,
    x: int,
    y: int,
) -> Seq<u32> {
    spec_overlay_all(
        fb,
        w,
        spec_layout(chars, spec_advances(bytes, size, chars), x, y, size as int, w, h),
        spec_rasters(bytes, size, chars),
    )
}

impl UI {
    /// Structural soundness: positive sides, a framebuffer of exactly
    /// `width * height` pixels whose byte export fits in memory, and
    /// well-formed font state.
    pub open spec fn wf(self) -> bool {
        &&& 1 <= self.width
        &&& 1 <= self.height
        &&& self.width * self.height * 4 <= usize::MAX
        &&& self.framebuffer@.len() == self.width * self.height
        &&& self.font_options.wf()
        &&& self.default_font.wf()
    }

    /// A blank `width` by `height` surface whose active font and per-frame
    /// default font are both `default_font`.
    ///
    /// Rejects a zero side, or sides whose byte export would not fit in
    /// `usize`, with `InvalidDimensions`; succeeds on every other request.
    pub fn new(width: usize, height: usize, default_font: FontOptions) -> (r: Result<UI, UiError>)
        requires
            default_font.wf(),
        ensures
            match r {
                Ok(ui) => {
                    &&& 1 <= width && 1 <= height
                    &&& width * height * 4 <= usize::MAX
                    &&& ui.wf()
                    &&& ui.width == width && ui.height == height
                    &&& ui.framebuffer@ == spec_blank((width * height) as nat)
                    &&& ui.font_options@ == default_font@
                    &&& ui.default_font@ == default_font@
                },
                Err(e) => {
                    &&& e == UiError::InvalidDimensions
                    &&& (width == 0 || height == 0 || width * height * 4 > usize::MAX)
                },
            },
    {
        if width == 0 || height == 0 {
            return Err(UiError::InvalidDimensions);
        }
        let n = match width.checked_mul(height) {
            Some(n) => n,
            None => {
                return Err(UiError::InvalidDimensions);
            },
        };
        if n.checked_mul(4).is_none() {
            return Err(UiError::InvalidDimensions);
        }
        let framebuffer = blank_framebuffer(n);
        let font_options = default_font.duplicate();
        Ok(UI { framebuffer, width, height, font_options, default_font })
    }

    /// Replace the active font; the per-frame default is untouched.
    pub fn set_font(&mut self, font_options: &FontOptions)
        requires
            font_options.wf(),
        ensures
            *final(self) == (UI { font_options: final(self).font_options, ..*old(self) }),
            final(self).font_options@ == font_options@,
            final(self).font_options.wf(),
    {
        self.font_options = font_options.duplicate();
    }

    /// The pixel at `(x, y)`.
    pub fn pixel_at(&self, x: usize, y: usize) -> (r: u32)
        requires
            self.wf(),
            x < self.width,
            y < self.height,
        ensures
            r == self.framebuffer@[y * self.width + x],
    {
        let i = pixel_index(self.width, self.height, x, y);
        self.framebuffer[i]
    }

    /// Write `colour` at `(x, y)`.
    ///
    /// In bounds: exactly that entry changes.  Out of bounds: the call
    /// fails with `OutOfBounds` and no pixel changes.
    pub fn place_pixel(&mut self, x: usize, y: usize, colour: u32) -> (r: Result<(), UiError>)
        requires
            old(self).wf(),
        ensures
            final(self).wf(),
            *final(self) == (UI { framebuffer: final(self).framebuffer, ..*old(self) }),
            match r {
                Ok(()) => {
                    &&& x < old(self).width && y < old(self).height
                    &&& final(self).framebuffer@ == old(self).framebuffer@.update(
                        y * old(self).width + x,
                        colour,
                    )
                },
                Err(e) => {
                    &&& e == UiError::OutOfBounds
                    &&& (x >= old(self).width || y >= old(self).height)
                    &&& final(self).framebuffer@ == old(self).framebuffer@
                },
            },
    {
        if x >= self.width || y >= self.height {
            return Err(UiError::OutOfBounds);
        }
        let i = pixel_index(self.width, self.height, x, y);
        self.framebuffer.set(i, colour);
        Ok(())
    }

    /// Rasterize `glyph` with the active font and overlay it with its
    /// top-left corner at `(x, y)`.
    ///
    /// Fails with `InvalidFontData` when the library rejects the active
    /// font bytes (`font_ok`), and with `GlyphRasterizationFailed` when
    /// the face has no glyph for the character; in both cases no pixel
    /// changes.
    pub fn write_glyph(&mut self, glyph: char, x: u32, y: u32) -> (r: Result<(), UiError>)
        requires
            old(self).wf(),
        ensures
            final(self).wf(),
            final(self).width == old(self).width,
            final(self).height == old(self).height,
            final(self).font_options == old(self).font_options,
            final(self).default_font == old(self).default_font,
            match r {
                Ok(()) => {
                    &&& font_ok(old(self).font_options@.bytes)
                    &&& glyph_index_of(old(self).font_options@.bytes, glyph) != 0
                    &&& final(self).framebuffer@ == spec_overlay(
                        old(self).framebuffer@,
                        old(self).width as int,
                        raster_of(
                            old(self).font_options@.bytes,
                            glyph,
                            old(self).font_options@.size,
                        ),
                        x as int,
                        y as int,
                    )
                },
                Err(e) => {
                    &&& final(self).framebuffer@ == old(self).framebuffer@
                    &&& (e == UiError::InvalidFontData <==> !font_ok(
                        old(self).font_options@.bytes,
                    ))
                    &&& (e == UiError::GlyphRasterizationFailed <==> font_ok(
                        old(self).font_options@.bytes,
                    ) && glyph_index_of(old(self).font_options@.bytes, glyph) == 0)
                    &&& (e == UiError::InvalidFontData || e == UiError::GlyphRasterizationFailed)
                },
            },
    {
        let font = match parse_font_bytes(&self.font_options.font_bytes) {
            Some(f) => f,
            None => {
                return Err(UiError::InvalidFontData);
            },
        };
        if lookup_glyph_index(&font, glyph) == 0 {
            return Err(UiError::GlyphRasterizationFailed);
        }
        let bitmap = rasterize_glyph(&font, glyph, self.font_options.size);
        self.overlay_u8_bitmap_onto_framebuffer(&bitmap, x as usize, y as usize);
        Ok(())
    }

    /// Lay out `text` anchored at `(x, y)` with the active font and
    /// overlay every laid-out glyph, wrapping at the surface's width and
    /// omitting lines at or below its height.
    ///
    /// Characters the face cannot draw leave no ink and advance the pen
    /// by the fallback width; a newline forces a line break.  Fails with
    /// `InvalidFontData`, leaving every pixel unchanged, exactly when the
    /// library rejects the active font bytes (`font_ok`).
    #[verifier::loop_isolation(false)]
    pub fn write_string(&mut self, text: &str, x: u32, y: u32) -> (r: Result<(), UiError>)
        requires
            old(self).wf(),
        ensures
            final(self).wf(),
            final(self).width == old(self).width,
            final(self).height == old(self).height,
            final(self).font_options == old(self).font_options,
            final(self).default_font == old(self).default_font,
            match r {
                Ok(()) => {
                    &&& font_ok(old(self).font_options@.bytes)
                    &&& final(self).framebuffer@ == spec_render_string(
                        old(self).framebuffer@,
                        old(self).width as int,
                        old(self).height as int,
                        old(self).font_options@.bytes,
                        old(self).font_options@.size,
                        text@,
                        x as int,
                        y as int,
                    )
                },
                Err(e) => {
                    &&& e == UiError::InvalidFontData
                    &&& !font_ok(old(self).font_options@.bytes)
                    &&& final(self).framebuffer@ == old(self).framebuffer@
                },
            },
    {
        let ghost bytes = self.font_options.font_bytes@;
        let font = match parse_font_bytes(&self.font_options.font_bytes) {
            Some(f) => f,
            None => {
                return Err(UiError::InvalidFontData);
            },
        };
        let size = self.font_options.size;
        let n = text.unicode_len();
        let mut chars: Vec<char> = Vec::new();
        proof {
            assert(chars@ =~= text@.take(0));
        }
        let mut i: usize = 0;
        while i < n
            invariant
                i <= n,
                chars@ == text@.take(i as int),
            decreases n - i,
        {
            let c = text.get_char(i);
            chars.push(c);
            proof {
                assert(chars@ =~= text@.take(i as int + 1));
            }
            i = i + 1;
        }
        proof {
            assert(chars@ =~= text@);
        }
        let mut bitmaps: Vec<GlyphBitmap> = Vec::new();
        let mut advances: Vec<usize> = Vec::new();
        let mut i: usize = 0;
        while i < chars.len()
            invariant
                i <= chars@.len(),
                bitmaps@.len() == i as int,
                advances@.len() == i as int,
                forall|k: int|
                    0 <= k < i as int ==> (#[trigger] bitmaps@[k])@ == spec_shaped(
                        bytes,
                        size,
                        chars@[k],
                    ) && bitmaps@[k].wf(),
                forall|k: int|
                    0 <= k < i as int ==> (#[trigger] advances@[k]) as nat == spec_shaped(
                        bytes,
                        size,
                        chars@[k],
                    ).advance,
            decreases chars@.len() - i,
        {
            let c = chars[i];
            if c == '\n' {
                bitmaps.push(GlyphBitmap::empty(0));
                advances.push(0);
            } else if lookup_glyph_index(&font, c) == 0 {
                let adv = fallback_advance(size);
                bitmaps.push(GlyphBitmap::empty(adv));
                advances.push(adv);
            } else {
                let b = rasterize_glyph(&font, c, size);
                let adv = b.advance;
                bitmaps.push(b);
                advances.push(adv);
            }
            i = i + 1;
        }
        let line_height = size as usize;
        let glyphs = layout_glyphs(
            &chars,
            &advances,
            x as usize,
            y as usize,
            line_height,
            self.width,
            self.height,
        );
        let ghost w = old(self).width as int;
        let ghost h = old(self).height as int;
        let ghost lay = spec_layout(
            chars@,
            spec_advances(bytes, size, chars@),
            x as int,
            y as int,
            size as int,
            w,
            h,
        );
        let ghost rasters = spec_rasters(bytes, size, chars@);
        let ghost fb0 = self.framebuffer@;
        proof {
            assert(advances@ =~= spec_advances(bytes, size, chars@));
            assert(glyphs@ == lay);
            lemma_layout_from_glyphs_wf(
                chars@,
                advances@,
                0,
                x as int,
                y as int,
                x as int,
                size as int,
                w,
                h,
            );
            assert(glyphs_wf(lay, chars@, h));
            assert(lay.take(0) =~= Seq::<PositionedGlyph>::empty());
        }
        let mut k: usize = 0;
        while k < glyphs.len()
            invariant
                k <= glyphs@.len(),
                self.wf(),
                self.width == old(self).width,
                self.height == old(self).height,
                self.font_options == old(self).font_options,
                self.default_font == old(self).default_font,
                self.framebuffer@ == spec_overlay_all(fb0, w, lay.take(k as int), rasters),
            decreases glyphs@.len() - k,
        {
            let pg = glyphs[k];
            proof {
                assert(lay[k as int] == pg);
                assert(0 <= pg.index < chars@.len());
            }
            self.overlay_u8_bitmap_onto_framebuffer(&bitmaps[pg.index], pg.x, pg.y);
            proof {
                assert(bitmaps@[pg.index as int]@ == spec_shaped(
                    bytes,
                    size,
                    chars@[pg.index as int],
                ));
                assert(char_at(chars@, pg.index as int) == chars@[pg.index as int]);
                assert(raster_at(rasters, pg.index as int) == bitmaps@[pg.index as int]@);
                lemma_overlay_all_push(fb0, w, lay.take(k as int), rasters, pg);
                assert(lay.take(k as int + 1) =~= lay.take(k as int).push(pg));
                assert(self.framebuffer@ == spec_overlay_all(
                    fb0,
                    w,
                    lay.take(k as int + 1),
                    rasters,
                ));
            }
            k = k + 1;
        }
        proof {
            assert(lay.take(glyphs@.len() as int) =~= lay);
        }
        Ok(())
    }

    /// The framebuffer reinterpreted as raw bytes, least-significant byte
    /// of each packed color first, length `width * height * 4`.
    ///
    /// The same bit pattern leaves unchanged: byte `4 * i + k` of the
    /// result is byte `k` of pixel `i`, with no color translation.
    pub fn export_bytes(&self) -> (r: Vec<u8>)
        requires
            self.wf(),
        ensures
            r@ == spec_export(self.framebuffer@),
            r@.len() == self.width * self.height * 4,
    {
        let n = self.framebuffer.len();
        let mut out: Vec<u8> = Vec::new();
        let mut i: usize = 0;
        while i < n
            invariant
                n == self.framebuffer@.len(),
                i <= n,
                out@.len() == i * 4,
                forall|j: int|
                    0 <= j < out@.len() ==> out@[j] == spec_byte_of(
                        self.framebuffer@[j / 4],
                        j % 4,
                    ),
            decreases n - i,
        {
            let p = self.framebuffer[i];
            let ghost base = (i * 4) as int;
            out.push((p % 256) as u8);
            out.push(((p / 256) % 256) as u8);
            out.push(((p / 65536) % 256) as u8);
            out.push(((p / 16777216) % 256) as u8);
            proof {
                assert forall|j: int| 0 <= j < out@.len() implies out@[j] == spec_byte_of(
                    self.framebuffer@[j / 4],
                    j % 4,
                ) by {
                    if j >= base {
                        assert(j / 4 == i as int && j % 4 == j - base) by (nonlinear_arith)
                            requires
                                base == i * 4,
                                base <= j < base + 4,
                        ;
                    }
                }
            }
            i = i + 1;
        }
        proof {
            assert(out@ =~= spec_export(self.framebuffer@));
        }
        out
    }

    /// One frame's handoff: export the framebuffer's bytes, then reset the
    /// surface and the font for the next frame.
    pub fn draw(&mut self) -> (r: Vec<u8>)
        requires
            old(self).wf(),
        ensures
            final(self).wf(),
            r@ == spec_export(old(self).framebuffer@),
            r@.len() == old(self).width * old(self).height * 4,
            final(self).width == old(self).width,
            final(self).height == old(self).height,
            final(self).framebuffer@ == spec_blank((old(self).width * old(self).height) as nat),
            final(self).font_options@ == old(self).default_font@,
            final(self).default_font@ == old(self).default_font@,
    {
        let bytes = self.export_bytes();
        self.reset();
        bytes
    }

    /// Overlay one glyph bitmap onto the framebuffer with its top-left
    /// corner at `(posx, posy)`.
    ///
    /// Samples are read row-major with the bitmap's own width as the wrap
    /// boundary.  Every positive sample whose destination lies inside the
    /// surface turns that pixel into the opaque foreground color; samples
    /// outside the surface, on either axis, are skipped, never written.
    #[verifier::loop_isolation(false)]
    pub fn overlay_u8_bitmap_onto_framebuffer(
        &mut self,
        bitmap: &GlyphBitmap,
        posx: usize,
        posy: usize,
    )
        requires
            old(self).wf(),
            bitmap.wf(),
        ensures
            final(self).wf(),
            final(self).width == old(self).width,
            final(self).height == old(self).height,
            final(self).font_options == old(self).font_options,
            final(self).default_font == old(self).default_font,
            final(self).framebuffer@ == spec_overlay(
                old(self).framebuffer@,
                old(self).width as int,
                bitmap@,
                posx as int,
                posy as int,
            ),
    {
        let ghost fb0 = self.framebuffer@;
        let ghost w = self.width as int;
        let ghost g = bitmap@;
        let ghost px = posx as int;
        let ghost py = posy as int;
        let bw = bitmap.width;
        let bh = bitmap.height;
        proof {
            assert(self.framebuffer@ =~= spec_overlay_partial(fb0, w, g, px, py, 0, 0));
        }
        let mut row: usize = 0;
        while row < bh
            invariant
                row <= bh,
                self.width == old(self).width,
                self.height == old(self).height,
                self.font_options == old(self).font_options,
                self.default_font == old(self).default_font,
                self.framebuffer@.len() == fb0.len(),
                self.framebuffer@ == spec_overlay_partial(fb0, w, g, px, py, row as int, 0),
            decreases bh - row,
        {
            let mut col: usize = 0;
            while col < bw
                invariant
                    col <= bw,
                    row < bh,
                    self.width == old(self).width,
                    self.height == old(self).height,
                    self.font_options == old(self).font_options,
                    self.default_font == old(self).default_font,
                    self.framebuffer@.len() == fb0.len(),
                    self.framebuffer@ == spec_overlay_partial(
                        fb0,
                        w,
                        g,
                        px,
                        py,
                        row as int,
                        col as int,
                    ),
                decreases bw - col,
            {
                let clen = bitmap.coverage.len();
                proof {
                    assert(row * bw + col < clen) by (nonlinear_arith)
                        requires
                            row < bh,
                            col < bw,
                            clen == bw * bh,
                    ;
                }
                let k = row * bw + col;
                let sample = bitmap.coverage[k];
                let in_x = posx < self.width && col < self.width - posx;
                let in_y = posy < self.height && row < self.height - posy;
                if sample > 0 && in_x && in_y {
                    let x = posx + col;
                    let y = posy + row;
                    let j = pixel_index(self.width, self.height, x, y);
                    let ghost fbp = self.framebuffer@;
                    self.framebuffer.set(j, FOREGROUND_PIXEL);
                    proof {
                        vstd::arithmetic::div_mod::lemma_fundamental_div_mod_converse(
                            j as int,
                            w,
                            py + row,
                            px + col,
                        );
                        assert forall|i: int| 0 <= i < fb0.len() implies self.framebuffer@[i]
                            == spec_overlay_partial(fb0, w, g, px, py, row as int, col as int + 1)[i] by {
                            vstd::arithmetic::div_mod::lemma_fundamental_div_mod(i, w);
                            vstd::arithmetic::div_mod::lemma_mod_bound(i, w);
                            if i == j as int {
                                assert(j as int % w == px + col);
                                assert(j as int / w == py + row);
                                assert(spec_cov_at(g, row as int, col as int) == sample);
                                assert(spec_covered(g, px, py, i % w, i / w));
                                assert(self.framebuffer@[i] == FOREGROUND_PIXEL);
                                assert(spec_overlay_partial(fb0, w, g, px, py, row as int, col as int + 1)[i] == FOREGROUND_PIXEL);
                            } else {
                                assert(self.framebuffer@[i] == fbp[i]);
                                assert(fbp[i] == spec_overlay_partial(fb0, w, g, px, py, row as int, col as int)[i]);
                                if spec_covered(g, px, py, i % w, i / w) && i / w - py == row && i % w - px == col {
                                    assert(i == w * (i / w) + i % w);
                                    assert(i / w == py + row);
                                    assert(i % w == px + col);
                                    assert(w * (i / w) == w * (py + row));
                                    assert(w * (py + row) == (py + row) * w) by (nonlinear_arith);
                                    assert(j as int == (py + row) * w + (px + col));
                                    assert(i == j as int);
                                }
                                assert(spec_overlay_partial(fb0, w, g, px, py, row as int, col as int + 1)[i]
                                    == spec_overlay_partial(fb0, w, g, px, py, row as int, col as int)[i]);
                            }
                        }
                        assert(self.framebuffer@ =~= spec_overlay_partial(
                            fb0,
                            w,
                            g,
                            px,
                            py,
                            row as int,
                            col as int + 1,
                        ));
                    }
                } else {
                    proof {
                        let h = self.height as int;
                        assert forall|i: int| 0 <= i < fb0.len() implies self.framebuffer@[i]
                            == spec_overlay_partial(fb0, w, g, px, py, row as int, col as int + 1)[i] by {
                            vstd::arithmetic::div_mod::lemma_fundamental_div_mod(i, w);
                            vstd::arithmetic::div_mod::lemma_mod_bound(i, w);
                            let q = i / w;
                            let rr = i % w;
                            assert(q < h) by (nonlinear_arith)
                                requires
                                    i == w * q + rr,
                                    0 <= rr < w,
                                    0 <= i < w * h,
                                    1 <= w,
                            ;
                        }
                        assert(self.framebuffer@ =~= spec_overlay_partial(
                            fb0,
                            w,
                            g,
                            px,
                            py,
                            row as int,
                            col as int + 1,
                        ));
                    }
                }
                col = col + 1;
            }
            proof {
                assert(self.framebuffer@ =~= spec_overlay_partial(
                    fb0,
                    w,
                    g,
                    px,
                    py,
                    row as int + 1,
                    0,
                ));
            }
            row = row + 1;
        }
        proof {
            assert(self.framebuffer@ =~= spec_overlay(fb0, w, g, px, py));
        }
    }

    /// Rewrite every pixel to the blank sentinel and restore the default
    /// font, whatever was drawn before.
    pub fn reset(&mut self)
        requires
            old(self).wf(),
        ensures
            final(self).wf(),
            final(self).width == old(self).width,
            final(self).height == old(self).height,
            final(self).framebuffer@ == spec_blank((old(self).width * old(self).height) as nat),
            final(self).font_options@ == old(self).default_font@,
            final(self).default_font@ == old(self).default_font@,
    {
        let n = self.width * self.height;
        self.framebuffer = blank_framebuffer(n);
        self.font_options = self.default_font.duplicate();
    }
}

/// The row-major framebuffer entry of the in-bounds pixel `(x, y)`.
pub fn pixel_index(width: usize, height: usize, x: usize, y: usize) -> (i: usize)
    requires
        x < width,
        y < height,
        width * height * 4 <= usize::MAX,
    ensures
        i == y * width + x,
        i < width * height,
{
    proof {
        assert(y * width + x < width * height) by (nonlinear_arith)
            requires
                x < width,
                y < height,
        ;
    }
    y * width + x
}

/// `n` blank pixels.
fn blank_framebuffer(n: usize) -> (r: Vec<u32>)
    ensures
        r@ == spec_blank(n as nat),
{
    let mut fb: Vec<u32> = Vec::new();
    while fb.len() < n
        invariant
            fb@.len() <= n,
            forall|i: int| 0 <= i < fb@.len() ==> fb@[i] == BLANK_PIXEL,
        decreases n - fb@.len(),
    {
        fb.push(BLANK_PIXEL);
    }
    proof {
        assert(fb@ =~= spec_blank(n as nat));
    }
    fb
}

} // verus!
