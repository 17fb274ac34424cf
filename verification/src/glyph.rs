use vstd::prelude::*;

verus! {

/// Classification of a character's cached glyph record.
///
/// `NotContained`: the font has no glyph for the character and the character
/// is not Unicode whitespace. `Whitespace`: the character is whitespace (it
/// advances the layout but draws nothing). `Default`: a visible glyph with a
/// region in the atlas.
#[derive(Clone, Copy, Debug, PartialEq, Eq, Structural)]
pub enum GlyphKind {
    NotContained,
    Whitespace,
    Default,
}

/// A pixel-aligned region of the atlas canvas. A renderer divides the four
/// corners by the atlas dimensions to obtain normalized texture coordinates.
#[derive(Clone, Copy, Debug, PartialEq, Eq, Structural)]
pub struct AtlasRect {
    pub x: u32,
    pub y: u32,
    pub w: u32,
    pub h: u32,
}

impl AtlasRect {
    /// The region lies inside an `atlas_w` by `atlas_h` canvas and is not empty,
    /// so all four normalized corner coordinates lie in `[0, 1]` with the minima
    /// strictly below the maxima.
    pub open spec fn valid_in(self, atlas_w: int, atlas_h: int) -> bool {
        &&& 0 < self.w
        &&& 0 < self.h
        &&& self.x + self.w <= atlas_w
        &&& self.y + self.h <= atlas_h
    }

    pub open spec fn is_zero(self) -> bool {
        self == (AtlasRect { x: 0, y: 0, w: 0, h: 0 })
    }

    /// The region covers the canvas cell `(px, py)`.
    pub open spec fn covers(self, px: int, py: int) -> bool {
        &&& self.x <= px < self.x + self.w
        &&& self.y <= py < self.y + self.h
    }

    /// The cell lies on the `pad`-wide border of the region: inside the region
    /// but not `pad` or more cells away from each of its edges.
    pub open spec fn on_border(self, pad: int, px: int, py: int) -> bool {
        &&& self.covers(px, py)
        &&& !(self.x + pad <= px < self.x + self.w - pad && self.y + pad <= py < self.y + self.h
            - pad)
    }

    pub fn zero() -> (r: AtlasRect)
        ensures
            r.is_zero(),
    {
        AtlasRect { x: 0, y: 0, w: 0, h: 0 }
    }
}

/// One cached glyph record. Geometry is in pixels at the configured font size,
/// already inflated by the pad on every side; the advance is carried as the bit
/// pattern of the 32-bit binary floating value the rasterizer reported, and is
/// never touched by the padding.
#[derive(Clone, Copy, Debug, PartialEq, Eq, Structural)]
pub struct GlyphInfo {
    pub kind: GlyphKind,
    /// Left edge of the rendered quad relative to the pen position, minus the pad.
    pub xmin: i64,
    /// Bottom edge of the rendered quad relative to the baseline, minus the pad.
    pub ymin: i64,
    /// Quad width: raw bitmap width plus twice the pad.
    pub width: u64,
    /// Quad height: raw bitmap height plus twice the pad.
    pub height: u64,
    /// Bit pattern of the 32-bit horizontal advance; opaque to this crate.
    pub advance_bits: u32,
    /// Region of the atlas holding the glyph's bitmap; zero unless `kind` is `Default`.
    pub rect: AtlasRect,
}

impl GlyphInfo {
    /// The record a character gets when the font has no glyph for it.
    pub open spec fn spec_not_contained() -> GlyphInfo {
        GlyphInfo {
            kind: GlyphKind::NotContained,
            xmin: 0,
            ymin: 0,
            width: 0,
            height: 0,
            advance_bits: 0,
            rect: AtlasRect { x: 0, y: 0, w: 0, h: 0 },
        }
    }

    pub fn not_contained() -> (r: GlyphInfo)
        ensures
            r == GlyphInfo::spec_not_contained(),
    {
        GlyphInfo {
            kind: GlyphKind::NotContained,
            xmin: 0,
            ymin: 0,
            width: 0,
            height: 0,
            advance_bits: 0,
            rect: AtlasRect::zero(),
        }
    }

    /// The record of a whitespace character: only the advance is kept.
    pub open spec fn spec_whitespace(advance_bits: u32) -> GlyphInfo {
        GlyphInfo {
            kind: GlyphKind::Whitespace,
            xmin: 0,
            ymin: 0,
            width: 0,
            height: 0,
            advance_bits: advance_bits,
            rect: AtlasRect { x: 0, y: 0, w: 0, h: 0 },
        }
    }

    pub fn whitespace(advance_bits: u32) -> (r: GlyphInfo)
        ensures
            r == GlyphInfo::spec_whitespace(advance_bits),
    {
        GlyphInfo {
            kind: GlyphKind::Whitespace,
            xmin: 0,
            ymin: 0,
            width: 0,
            height: 0,
            advance_bits: advance_bits,
            rect: AtlasRect::zero(),
        }
    }

    /// A record is well formed with respect to the atlas dimensions: only a
    /// `Default` record carries geometry, and its atlas region is a real,
    /// in-bounds region.
    pub open spec fn wf(self, atlas_w: int, atlas_h: int) -> bool {
        match self.kind {
            GlyphKind::NotContained => self == GlyphInfo::spec_not_contained(),
            GlyphKind::Whitespace => self == GlyphInfo::spec_whitespace(self.advance_bits),
            GlyphKind::Default => self.rect.valid_in(atlas_w, atlas_h),
        }
    }
}

} // verus!
