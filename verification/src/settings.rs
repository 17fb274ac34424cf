use vstd::prelude::*;

verus! {

/// Configuration of a font cache, immutable once the cache is created.
///
/// The cache never interprets 32-bit binary floating values; where the
/// rasterizer's interface uses one, this crate carries its bit pattern.
#[derive(Clone, Copy, Debug, PartialEq, Eq, Structural)]
pub struct SdfFontSettings {
    /// Font size in pixels that glyphs are rasterized at.
    pub font_size: u32,
    /// Padding in pixels added to each of the four sides of a glyph's bitmap.
    pub pad_size: u32,
    /// Bit pattern of the distance-field radius. A pattern of positive or
    /// negative zero disables the distance-field pass: the raw grayscale
    /// bitmap is stored instead.
    pub sdf_radius_bits: u32,
    /// Atlas canvas width in pixels; expected to be a power of two.
    pub atlas_width: u32,
    /// Atlas canvas height in pixels; expected to be a power of two.
    pub atlas_height: u32,
    /// Whether the cache is warmed with a fixed ASCII working set on creation.
    pub initialize_with_default_glyphs: bool,
}

impl SdfFontSettings {
    /// The distance-field pass is off exactly when the radius is (positive or
    /// negative) zero.
    pub open spec fn spec_sdf_disabled(self) -> bool {
        self.sdf_radius_bits == 0u32 || self.sdf_radius_bits == 0x8000_0000u32
    }

    pub fn sdf_disabled(&self) -> (r: bool)
        ensures
            r == self.spec_sdf_disabled(),
    {
        self.sdf_radius_bits == 0u32 || self.sdf_radius_bits == 0x8000_0000u32
    }

    /// Limits the atlas allocator imposes on the canvas: each side fits in 16
    /// bits and is nonzero, and the total area fits in a signed 32-bit value.
    pub open spec fn wf(self) -> bool {
        &&& 1 <= self.atlas_width <= 0xFFFF
        &&& 1 <= self.atlas_height <= 0xFFFF
        &&& self.atlas_width * self.atlas_height <= 0x7FFF_FFFF
    }

    /// Runtime check for `wf`, for callers that receive settings from outside.
    pub fn check(&self) -> (r: bool)
        ensures
            r == self.wf(),
    {
        if self.atlas_width < 1 || self.atlas_width > 0xFFFF {
            return false;
        }
        if self.atlas_height < 1 || self.atlas_height > 0xFFFF {
            return false;
        }
        assert((self.atlas_width as u64) * (self.atlas_height as u64) <= 0xFFFF * 0xFFFF)
            by (nonlinear_arith)
            requires
                self.atlas_width <= 0xFFFF,
                self.atlas_height <= 0xFFFF,
        ;
        (self.atlas_width as u64) * (self.atlas_height as u64) <= 0x7FFF_FFFF
    }
}

/// Horizontal line metrics of the font at the configured size, resolved once
/// at construction. Each field is the bit pattern of a 32-bit binary floating
/// value, carried opaquely.
#[derive(Clone, Copy, Debug, PartialEq, Eq, Structural)]
pub struct LineMetrics {
    pub ascent_bits: u32,
    pub descent_bits: u32,
    pub line_gap_bits: u32,
}

} // verus!
