//! An on-demand glyph atlas cache.
//!
//! Given a font and a character, the cache classifies the character, packs its
//! (optionally distance-field encoded) bitmap into a shared single-channel
//! atlas canvas, records placement and metrics, and keeps a pairwise kerning
//! cache that is complete over the set of characters seen so far. Rasterizing,
//! distance-field encoding and the font's pair-positioning table are outside
//! collaborators: their results enter through plain values and through the
//! trusted declarations in the modules below.

pub mod cache;
pub mod fontcheck;
pub mod glyph;
pub mod image;
pub mod kerning;
pub mod placer;
pub mod settings;

pub use cache::AtlasError;
pub use cache::EncodedBitmap;
pub use cache::GlyphSource;
pub use cache::RasterInput;
pub use cache::SdfFont;
pub use cache::default_glyph_chars;
pub use cache::image_matches;
pub use cache::MAX_PLACED_GLYPHS;
pub use cache::lemma_advance_independent_of_settings;
pub use cache::lemma_canvas_zero_outside_regions;
pub use cache::lemma_coverage_classification;
pub use cache::lemma_dirty_flag_protocol;
pub use cache::lemma_pad_border_zero;
pub use cache::lemma_padding_invariant;
pub use cache::record_matches;
pub use cache::spec_placement_refused;
pub use cache::spec_store_dims;
pub use cache::SdfGlyph;
pub use cache::lemma_unresolved_pair_kerns_zero;
pub use fontcheck::FontError;
pub use fontcheck::glyph_is_in_font;
pub use fontcheck::validate_font_bytes;
pub use glyph::AtlasRect;
pub use glyph::GlyphInfo;
pub use glyph::GlyphKind;
pub use image::AtlasImage;
pub use kerning::KernSource;
pub use kerning::PairKernSource;
pub use settings::LineMetrics;
pub use settings::SdfFontSettings;
