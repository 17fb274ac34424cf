use vstd::prelude::*;

use std::collections::HashMap;

use crate::fontcheck::FontError;
use crate::fontcheck::char_is_whitespace;
use crate::fontcheck::is_unicode_whitespace;
use crate::fontcheck::parses_as_font;
use crate::fontcheck::validate_font_bytes;
use crate::glyph::AtlasRect;
use crate::glyph::GlyphInfo;
use crate::glyph::GlyphKind;
use crate::image::AtlasImage;
use crate::kerning::KernSource;
use crate::kerning::PairKernSource;
use crate::kerning::kern_map_after;
use crate::kerning::lemma_kern_map_after_backward;
use crate::kerning::lemma_kern_map_after_domain;
use crate::kerning::lemma_kern_map_after_forward;
use crate::kerning::lemma_kern_map_after_untouched;
use crate::kerning::lemma_pair_key_injective;
use crate::kerning::lookup_or_zero;
use crate::kerning::pair_key;
use crate::kerning::resolve_or_zero;
use crate::kerning::spec_pair_key;
use crate::placer::alloc_outcome;
use crate::placer::allocator_allocate;
use crate::placer::allocator_new;
use crate::placer::canvas_of;
use crate::placer::claimed_of;
use crate::placer::record_count;
use crate::settings::LineMetrics;
use crate::settings::SdfFontSettings;

verus! {

broadcast use vstd::std_specs::hash::group_hash_axioms;

/// One cached glyph: the public record plus the allocator's handle on its
/// atlas region, kept so that a later eviction pass could free the region.
pub struct SdfGlyph {
    pub info: GlyphInfo,
    pub alloc_id: Option<etagere::AllocId>,
}

/// The distance-field encoding of a padded glyph bitmap, as the encoder
/// returned it.
pub struct EncodedBitmap {
    /// Row-major single-channel bytes.
    pub bytes: Vec<u8>,
    pub width: u32,
    pub height: u32,
}

impl EncodedBitmap {
    pub open spec fn wf(self) -> bool {
        self.bytes@.len() == self.width * self.height
    }
}

/// What the rasterizer reports for a character the font has a glyph for.
pub struct RasterInput {
    /// Row-major grayscale coverage bitmap.
    pub bitmap: Vec<u8>,
    /// Width of `bitmap` in pixels.
    pub width: u32,
    /// Height of `bitmap` in pixels.
    pub height: u32,
    /// Left edge of the unpadded quad relative to the pen position, in pixels.
    pub xmin: i32,
    /// Bottom edge of the unpadded quad relative to the baseline, in pixels.
    pub ymin: i32,
    /// Bit pattern of the 32-bit horizontal advance.
    pub advance_bits: u32,
    /// The distance-field encoding of the bitmap; supplied exactly when the
    /// cache was configured with a nonzero distance-field radius.
    pub encoded: Option<EncodedBitmap>,
}

impl RasterInput {
    pub open spec fn wf(self, need_encoded: bool) -> bool {
        &&& self.bitmap@.len() == self.width * self.height
        &&& need_encoded ==> self.encoded is Some
        &&& match self.encoded {
            Some(e) => e.wf(),
            None => true,
        }
    }
}

/// What is known about a requested character before its record is made:
/// either the font has no glyph for it, or the rasterizer's output.
pub enum GlyphSource {
    NotInFont,
    Raster(RasterInput),
}

/// The atlas has no room left for the glyph's rectangle. The cache does not
/// grow, evict or retry: this is a deployment misconfiguration (the atlas is
/// too small for the character set in use) and callers are expected to treat
/// it as fatal.
#[derive(Clone, Copy, Debug, PartialEq, Eq, Structural)]
pub enum AtlasError {
    Full,
}

/// How a freshly made record must relate to the request that produced it.
///
/// The atlas region's position is the allocator's choice and is bounded, not
/// pinned; everything else is pinned exactly.
pub open spec fn record_matches(
    settings: SdfFontSettings,
    ch: char,
    source: GlyphSource,
    g: GlyphInfo,
) -> bool {
    match source {
        GlyphSource::NotInFont => g == if is_unicode_whitespace(ch) {
            GlyphInfo::spec_whitespace(0u32)
        } else {
            GlyphInfo::spec_not_contained()
        },
        GlyphSource::Raster(ri) => if is_unicode_whitespace(ch) {
            g == GlyphInfo::spec_whitespace(ri.advance_bits)
        } else {
            &&& g.kind is Default
            &&& g.xmin == ri.xmin - settings.pad_size
            &&& g.ymin == ri.ymin - settings.pad_size
            &&& g.width == ri.width + 2 * settings.pad_size
            &&& g.height == ri.height + 2 * settings.pad_size
            &&& g.advance_bits == ri.advance_bits
            &&& g.rect.valid_in(settings.atlas_width as int, settings.atlas_height as int)
            &&& (settings.spec_sdf_disabled() ==> g.rect.w == ri.width + 2 * settings.pad_size
                && g.rect.h == ri.height + 2 * settings.pad_size)
            &&& (!settings.spec_sdf_disabled() ==> match ri.encoded {
                Some(e) => g.rect.w == e.width && g.rect.h == e.height,
                None => false,
            })
        },
    }
}

/// How the canvas must relate to the canvas before a record was made: for a
/// `Default` record the stored bitmap sits in the record's region (behind the
/// pad border in the grayscale case) and every other cell is untouched; for
/// any other record the canvas, its changed flag included, is untouched.
pub open spec fn image_matches(
    settings: SdfFontSettings,
    source: GlyphSource,
    g: GlyphInfo,
    prior: AtlasImage,
    now: AtlasImage,
) -> bool {
    if g.kind is Default {
        &&& now.changed == true
        &&& match source {
            GlyphSource::Raster(ri) => if settings.spec_sdf_disabled() {
                now.holds_blit(
                    prior,
                    ri.bitmap@,
                    ri.width as int,
                    ri.height as int,
                    g.rect.x + settings.pad_size,
                    g.rect.y + settings.pad_size,
                )
            } else {
                match ri.encoded {
                    Some(e) => now.holds_blit(
                        prior,
                        e.bytes@,
                        e.width as int,
                        e.height as int,
                        g.rect.x as int,
                        g.rect.y as int,
                    ),
                    None => false,
                }
            },
            GlyphSource::NotInFont => false,
        }
    } else {
        now == prior
    }
}

/// The dimensions of the rectangle stored in the atlas for a visible glyph:
/// the padded bitmap in grayscale mode, the encoder's output otherwise.
pub open spec fn spec_store_dims(settings: SdfFontSettings, ri: RasterInput) -> (int, int) {
    if settings.spec_sdf_disabled() {
        (ri.width + 2 * settings.pad_size, ri.height + 2 * settings.pad_size)
    } else {
        match ri.encoded {
            Some(e) => (e.width as int, e.height as int),
            None => (0, 0),
        }
    }
}

/// The most glyph rectangles one cache ever places. The allocator spends at
/// most three 16-bit-indexed bookkeeping records per placement and starts
/// with two, so this cap keeps its record count at 2 + 3 * 10921 and below
/// the 0x7FFF bound its contract asks for; a request past the cap is refused
/// as atlas exhaustion.
pub const MAX_PLACED_GLYPHS: u32 = 10921;

/// Placing a visible glyph's rectangle fails exactly here: the stored
/// rectangle is degenerate or beyond the allocator's 16-bit side range, the
/// cache has already placed `MAX_PLACED_GLYPHS` rectangles, or the allocator
/// has no free region of that size left.
pub open spec fn spec_placement_refused(
    atlas: etagere::AtlasAllocator,
    settings: SdfFontSettings,
    placed: u32,
    ri: RasterInput,
) -> bool {
    let dims = spec_store_dims(settings, ri);
    ||| !(1 <= dims.0 <= 0xFFFF && 1 <= dims.1 <= 0xFFFF)
    ||| placed >= MAX_PLACED_GLYPHS
    ||| alloc_outcome(atlas, dims.0 as u32, dims.1 as u32) is None
}

/// Every cell of the region is claimed in the allocator.
pub open spec fn rect_claimed(a: etagere::AtlasAllocator, r: AtlasRect) -> bool {
    forall|px: int, py: int| #[trigger] r.covers(px, py) ==> claimed_of(a).contains((px, py))
}

/// Every cell on the region's `pad`-wide border holds zero in the canvas.
pub open spec fn border_zero(img: AtlasImage, r: AtlasRect, pad: int) -> bool {
    forall|px: int, py: int| #[trigger] r.on_border(pad, px, py) ==> img.at(px, py) == 0
}

/// The glyph atlas cache: the parsed-font collaborators' results flow in as
/// plain values, and the cache owns the canvas, the placement allocator, the
/// append-only character map and the pairwise kerning cache.
pub struct SdfFont {
    pub settings: SdfFontSettings,
    pub line_metrics: LineMetrics,
    pub atlas: etagere::AtlasAllocator,
    pub image: AtlasImage,
    pub glyphs: HashMap<u32, SdfGlyph>,
    pub chars: Vec<u32>,
    pub kerning: HashMap<u64, u32>,
    /// Number of glyph rectangles placed so far, capped at
    /// `MAX_PLACED_GLYPHS` so the allocator's 16-bit record indexing stays
    /// sound.
    pub placed: u32,
}

impl SdfFont {
    /// The set of characters that have a record.
    pub open spec fn resolved(self) -> Set<u32> {
        self.glyphs@.dom()
    }

    /// The records, by character.
    pub open spec fn glyph_map(self) -> Map<u32, GlyphInfo> {
        self.glyphs@.map_values(|g: SdfGlyph| g.info)
    }

    /// What a kerning query answers for an ordered pair.
    pub open spec fn spec_kern_at(self, left: u32, right: u32) -> u32 {
        lookup_or_zero(self.kerning@, spec_pair_key(left, right))
    }

    /// Some recorded glyph's atlas region covers the cell.
    pub open spec fn covered(self, px: int, py: int) -> bool {
        exists|c: u32|
            #[trigger] self.glyphs@.contains_key(c) && self.glyphs@[c].info.rect.covers(px, py)
    }

    /// Every recorded region is claimed in the allocator, so a later placement
    /// can never overlap an earlier glyph's cells.
    pub open spec fn regions_claimed(self) -> bool {
        forall|c: u32|
            #[trigger] self.glyphs@.contains_key(c) ==> rect_claimed(
                self.atlas,
                self.glyphs@[c].info.rect,
            )
    }

    /// The canvas is zero wherever no recorded region covers it, and, with the
    /// distance-field pass off, on the pad border inside each region: the
    /// canvas starts zeroed and every write stays inside its own region.
    pub open spec fn canvas_clean(self) -> bool {
        &&& forall|px: int, py: int|
            0 <= px < self.image.width && 0 <= py < self.image.height && !self.covered(px, py)
                ==> #[trigger] self.image.at(px, py) == 0
        &&& (self.settings.spec_sdf_disabled() ==> forall|c: u32|
            #[trigger] self.glyphs@.contains_key(c) ==> border_zero(
                self.image,
                self.glyphs@[c].info.rect,
                self.settings.pad_size as int,
            ))
    }

    pub open spec fn wf_core(self) -> bool {
        &&& self.settings.wf()
        &&& self.image.wf()
        &&& self.image.width == self.settings.atlas_width
        &&& self.image.height == self.settings.atlas_height
        &&& canvas_of(self.atlas) == (
            self.settings.atlas_width as int,
            self.settings.atlas_height as int,
        )
        &&& self.chars@.no_duplicates()
        &&& forall|i: int|
            0 <= i < self.chars@.len() ==> self.glyphs@.contains_key(#[trigger] self.chars@[i])
        &&& forall|c: u32| #[trigger] self.glyphs@.contains_key(c) ==> self.chars@.contains(c)
        &&& forall|c: u32|
            self.glyphs@.contains_key(c) ==> (#[trigger] self.glyphs@[c]).info.wf(
                self.settings.atlas_width as int,
                self.settings.atlas_height as int,
            )
        &&& forall|c: u32|
            self.glyphs@.contains_key(c) ==> ((#[trigger] self.glyphs@[c]).alloc_id is Some
                <==> self.glyphs@[c].info.kind is Default)
        &&& forall|k: u64|
            #[trigger] self.kerning@.contains_key(k) ==> exists|a: u32, b: u32|
                k == spec_pair_key(a, b) && self.resolved().contains(a) && self.resolved().contains(
                    b,
                )
        &&& self.placed <= MAX_PLACED_GLYPHS
        &&& record_count(self.atlas) <= 2 + 3 * self.placed
    }

    pub open spec fn wf(self) -> bool {
        &&& self.wf_core()
        &&& self.regions_claimed()
        &&& self.canvas_clean()
    }

    /// Build a cache over validated font bytes. The line metrics are resolved
    /// by the rasterizer once, at the caller's side, and kept for the cache's
    /// lifetime. Rejects bytes that do not parse as a font; on success the
    /// cache starts empty, with a zeroed canvas and the changed flag down.
    pub fn new(font_bytes: &Vec<u8>, settings: SdfFontSettings, line_metrics: LineMetrics) -> (r:
        Result<SdfFont, FontError>)
        requires
            settings.wf(),
        ensures
            match r {
                Ok(f) => {
                    &&& parses_as_font(font_bytes@)
                    &&& f.wf()
                    &&& f.settings == settings
                    &&& f.line_metrics == line_metrics
                    &&& f.resolved() == Set::<u32>::empty()
                    &&& f.chars@ == Seq::<u32>::empty()
                    &&& f.glyph_map() == Map::<u32, GlyphInfo>::empty()
                    &&& f.kerning@ == Map::<u64, u32>::empty()
                    &&& f.placed == 0
                    &&& f.image.changed == false
                    &&& forall|i: int| 0 <= i < f.image.bytes@.len() ==> f.image.bytes@[i] == 0u8
                },
                Err(e) => {
                    &&& !parses_as_font(font_bytes@)
                    &&& e == FontError::Parse
                },
            },
    {
        match validate_font_bytes(font_bytes) {
            Ok(_) => {}
            Err(e) => {
                return Err(e);
            }
        }
        let atlas = allocator_new(settings.atlas_width, settings.atlas_height);
        let image = AtlasImage::new(settings.atlas_width, settings.atlas_height);
        let f = SdfFont {
            settings,
            line_metrics,
            atlas,
            image,
            glyphs: HashMap::new(),
            chars: Vec::new(),
            kerning: HashMap::new(),
            placed: 0,
        };
        proof {
            assert(f.resolved() =~= Set::<u32>::empty());
            assert(f.glyph_map() =~= Map::<u32, GlyphInfo>::empty());
        }
        Ok(f)
    }

    /// The record a character already has, if any. A pure read: a character
    /// with a record always answers that same record.
    pub fn get_glyph(&self, ch: char) -> (r: Option<GlyphInfo>)
        ensures
            match r {
                Some(g) => self.glyph_map().contains_key(ch as u32) && g == self.glyph_map()[
                    ch as u32
                ],
                None => !self.glyph_map().contains_key(ch as u32),
            },
    {
        match self.glyphs.get(&(ch as u32)) {
            Some(g) => Some(g.info),
            None => None,
        }
    }

    /// The cached horizontal kerning between an ordered pair of characters,
    /// in reading order; zero for any pair without a stored adjustment.
    pub fn get_horizontal_kerning(&self, left: char, right: char) -> (r: u32)
        ensures
            r == self.spec_kern_at(left as u32, right as u32),
    {
        let key = pair_key(left as u32, right as u32);
        match self.kerning.get(&key) {
            Some(v) => *v,
            None => 0u32,
        }
    }

    /// Whether the canvas changed since it was last taken; a peek that does
    /// not clear the flag.
    pub fn has_atlas_image_changed(&self) -> (r: bool)
        ensures
            r == self.image.changed,
    {
        self.image.changed
    }

    /// Hand out the canvas and its dimensions, clearing the changed flag as a
    /// side effect; the bytes themselves are left exactly as they were.
    pub fn get_atlas_image(&mut self) -> (r: (u32, u32, &Vec<u8>))
        ensures
            *final(self) == (SdfFont {
                image: AtlasImage { changed: false, ..old(self).image },
                ..*old(self)
            }),
            r.0 == old(self).settings.atlas_width,
            r.1 == old(self).settings.atlas_height,
            r.2@ == old(self).image.bytes@,
    {
        self.image.clear_changed();
        (self.settings.atlas_width, self.settings.atlas_height, &self.image.bytes)
    }

    /// The font's horizontal line metrics, as resolved at construction.
    pub fn get_line_metrics(&self) -> (r: LineMetrics)
        ensures
            r == self.line_metrics,
    {
        self.line_metrics
    }

    /// The characters with a record, in insertion order.
    pub fn resolved_chars(&self) -> (r: &Vec<u32>)
        ensures
            r@ == self.chars@,
    {
        &self.chars
    }
}

/// A cache that has no record for `c` stores no kerning pair involving `c`.
proof fn lemma_kern_lacks_char(f: SdfFont, c: u32, other: u32)
    requires
        f.wf(),
        !f.resolved().contains(c),
    ensures
        !f.kerning@.contains_key(spec_pair_key(c, other)),
        !f.kerning@.contains_key(spec_pair_key(other, c)),
{
    if f.kerning@.contains_key(spec_pair_key(c, other)) {
        let (a, b) = choose|a: u32, b: u32|
            spec_pair_key(c, other) == spec_pair_key(a, b) && f.resolved().contains(a)
                && f.resolved().contains(b);
        lemma_pair_key_injective(c, other, a, b);
    }
    if f.kerning@.contains_key(spec_pair_key(other, c)) {
        let (a, b) = choose|a: u32, b: u32|
            spec_pair_key(other, c) == spec_pair_key(a, b) && f.resolved().contains(a)
                && f.resolved().contains(b);
        lemma_pair_key_injective(other, c, a, b);
    }
}

impl SdfFont {
    /// Classify the request and, for a visible glyph, place and copy its
    /// bitmap into the canvas, failing exactly when the placement is refused.
    /// Leaves the record maps alone; the caller stores the returned record.
    fn make_record(&mut self, ch: char, is_ws: bool, source: GlyphSource) -> (r: Result<
        (GlyphInfo, Option<etagere::AllocId>),
        AtlasError,
    >)
        requires
            old(self).wf(),
            is_ws == is_unicode_whitespace(ch),
            match source {
                GlyphSource::NotInFont => true,
                GlyphSource::Raster(ri) => ri.wf(!old(self).settings.spec_sdf_disabled()),
            },
        ensures
            final(self).wf_core(),
            final(self).settings == old(self).settings,
            final(self).line_metrics == old(self).line_metrics,
            final(self).glyphs == old(self).glyphs,
            final(self).chars == old(self).chars,
            final(self).kerning == old(self).kerning,
            match source {
                GlyphSource::NotInFont => r is Ok,
                GlyphSource::Raster(ri) => if is_unicode_whitespace(ch) {
                    r is Ok
                } else {
                    r is Err <==> spec_placement_refused(
                        old(self).atlas,
                        old(self).settings,
                        old(self).placed,
                        ri,
                    )
                },
            },
            match r {
                Ok((g, aid)) => {
                    &&& record_matches(old(self).settings, ch, source, g)
                    &&& image_matches(
                        old(self).settings,
                        source,
                        g,
                        old(self).image,
                        final(self).image,
                    )
                    &&& (aid is Some <==> g.kind is Default)
                    &&& g.wf(
                        old(self).settings.atlas_width as int,
                        old(self).settings.atlas_height as int,
                    )
                    &&& (g.kind is Default ==> {
                        &&& forall|px: int, py: int|
                            #[trigger] g.rect.covers(px, py) ==> !claimed_of(
                                old(self).atlas,
                            ).contains((px, py))
                        &&& rect_claimed(final(self).atlas, g.rect)
                        &&& claimed_of(old(self).atlas).subset_of(claimed_of(final(self).atlas))
                    })
                    &&& (!(g.kind is Default) ==> final(self).atlas == old(self).atlas)
                    &&& (g.kind is Default ==> final(self).placed == old(self).placed + 1)
                    &&& (!(g.kind is Default) ==> final(self).placed == old(self).placed)
                },
                Err(e) => {
                    &&& *final(self) == *old(self)
                    &&& e == AtlasError::Full
                    &&& source is Raster
                    &&& !is_unicode_whitespace(ch)
                },
            },
    {
        match source {
            GlyphSource::NotInFont => {
                if is_ws {
                    Ok((GlyphInfo::whitespace(0u32), None))
                } else {
                    Ok((GlyphInfo::not_contained(), None))
                }
            }
            GlyphSource::Raster(ri) => {
                if is_ws {
                    Ok((GlyphInfo::whitespace(ri.advance_bits), None))
                } else {
                    let pad: u32 = self.settings.pad_size;
                    let disabled = self.settings.sdf_disabled();
                    let store_w: u64;
                    let store_h: u64;
                    if disabled {
                        store_w = ri.width as u64 + 2u64 * (pad as u64);
                        store_h = ri.height as u64 + 2u64 * (pad as u64);
                    } else {
                        let e = ri.encoded.as_ref().unwrap();
                        store_w = e.width as u64;
                        store_h = e.height as u64;
                    }
                    if store_w == 0 || store_h == 0 || store_w > 0xFFFF || store_h > 0xFFFF {
                        return Err(AtlasError::Full);
                    }
                    if self.placed >= MAX_PLACED_GLYPHS {
                        // The allocator's bookkeeping records are indexed with
                        // 16 bits; past this many placements the indexing
                        // would no longer be sound.
                        return Err(AtlasError::Full);
                    }
                    let w32: u32 = store_w as u32;
                    let h32: u32 = store_h as u32;
                    match allocator_allocate(&mut self.atlas, w32, h32) {
                        None => Err(AtlasError::Full),
                        Some(p) => {
                            let rect = AtlasRect { x: p.x, y: p.y, w: w32, h: h32 };
                            proof {
                                assert forall|px: int, py: int|
                                    #[trigger] rect.covers(px, py) implies !claimed_of(
                                    old(self).atlas,
                                ).contains((px, py)) by {
                                    assert(claimed_of(old(self).atlas).contains((px, py))
                                        ==> false);
                                }
                                assert(rect_claimed(self.atlas, rect)) by {
                                    assert forall|px: int, py: int|
                                        #[trigger] rect.covers(px, py) implies claimed_of(
                                        self.atlas,
                                    ).contains((px, py)) by {}
                                }
                            }
                            if disabled {
                                self.image.blit(
                                    &ri.bitmap,
                                    ri.width as usize,
                                    ri.height as usize,
                                    p.x as usize + pad as usize,
                                    p.y as usize + pad as usize,
                                );
                            } else {
                                let e = ri.encoded.as_ref().unwrap();
                                self.image.blit(
                                    &e.bytes,
                                    e.width as usize,
                                    e.height as usize,
                                    p.x as usize,
                                    p.y as usize,
                                );
                            }
                            self.placed = self.placed + 1;
                            let info = GlyphInfo {
                                kind: GlyphKind::Default,
                                xmin: ri.xmin as i64 - pad as i64,
                                ymin: ri.ymin as i64 - pad as i64,
                                width: ri.width as u64 + 2u64 * (pad as u64),
                                height: ri.height as u64 + 2u64 * (pad as u64),
                                advance_bits: ri.advance_bits,
                                rect,
                            };
                            Ok((info, Some(p.id)))
                        }
                    }
                }
            }
        }
    }
}

impl SdfFont {
    /// Look up the record of `ch`, creating it on first request.
    ///
    /// A character that already has a record is a pure read: the cache is left
    /// exactly as it was and the identical record is returned. On a first
    /// request the character is classified from `source`, a visible glyph's
    /// bitmap is placed into the atlas, and the kerning cache is extended with
    /// the resolved adjustment of every ordered pair between `ch` and the
    /// characters already present (both orders, and the pair of `ch` with
    /// itself) before the call returns. `kern` must list one entry per
    /// already-present character, in insertion order; `self_kern` is the
    /// source for the pair of `ch` with itself.
    ///
    /// The call fails exactly when the glyph's rectangle cannot be placed:
    /// the rectangle is degenerate or oversized, the cache has already placed
    /// `MAX_PLACED_GLYPHS` rectangles, or the allocator has no free region of
    /// that size left (`spec_placement_refused`). A failed call leaves the
    /// cache exactly as it was.
    pub fn get_or_add_glyph(
        &mut self,
        ch: char,
        source: GlyphSource,
        kern: Vec<PairKernSource>,
        self_kern: KernSource,
    ) -> (r: Result<GlyphInfo, AtlasError>)
        requires
            old(self).wf(),
            !old(self).resolved().contains(ch as u32) ==> {
                &&& kern@.len() == old(self).chars@.len()
                &&& forall|i: int|
                    0 <= i < kern@.len() ==> (#[trigger] kern@[i]).other == old(self).chars@[i]
                &&& match source {
                    GlyphSource::NotInFont => true,
                    GlyphSource::Raster(ri) => ri.wf(!old(self).settings.spec_sdf_disabled()),
                }
            },
        ensures
            final(self).wf(),
            final(self).settings == old(self).settings,
            final(self).line_metrics == old(self).line_metrics,
            old(self).resolved().contains(ch as u32) ==> *final(self) == *old(self) && r
                == Ok::<GlyphInfo, AtlasError>(old(self).glyph_map()[ch as u32]),
            !old(self).resolved().contains(ch as u32) ==> match source {
                GlyphSource::NotInFont => r is Ok,
                GlyphSource::Raster(ri) => if is_unicode_whitespace(ch) {
                    r is Ok
                } else {
                    r is Err <==> spec_placement_refused(
                        old(self).atlas,
                        old(self).settings,
                        old(self).placed,
                        ri,
                    )
                },
            },
            !old(self).resolved().contains(ch as u32) ==> match r {
                Ok(g) => {
                    &&& record_matches(old(self).settings, ch, source, g)
                    &&& final(self).resolved() == old(self).resolved().insert(ch as u32)
                    &&& final(self).glyph_map() == old(self).glyph_map().insert(ch as u32, g)
                    &&& final(self).chars@ == old(self).chars@.push(ch as u32)
                    &&& image_matches(
                        old(self).settings,
                        source,
                        g,
                        old(self).image,
                        final(self).image,
                    )
                    &&& forall|j: int|
                        0 <= j < kern@.len() ==> final(self).spec_kern_at(
                            ch as u32,
                            (#[trigger] kern@[j]).other,
                        ) == resolve_or_zero(kern@[j].forward)
                    &&& forall|j: int|
                        0 <= j < kern@.len() ==> final(self).spec_kern_at(
                            (#[trigger] kern@[j]).other,
                            ch as u32,
                        ) == resolve_or_zero(kern@[j].backward)
                    &&& final(self).spec_kern_at(ch as u32, ch as u32) == resolve_or_zero(
                        self_kern,
                    )
                    &&& (!(g.kind is Default) ==> final(self).atlas == old(self).atlas
                        && final(self).placed == old(self).placed)
                    &&& (g.kind is Default ==> final(self).placed == old(self).placed + 1)
                    &&& forall|a: u32, b: u32|
                        !(a == ch as u32 && (b == ch as u32 || old(self).resolved().contains(b)))
                            && !(b == ch as u32 && old(self).resolved().contains(a))
                            ==> #[trigger] final(self).spec_kern_at(a, b) == old(
                            self,
                        ).spec_kern_at(a, b)
                },
                Err(e) => {
                    &&& *final(self) == *old(self)
                    &&& e == AtlasError::Full
                    &&& source is Raster
                    &&& !is_unicode_whitespace(ch)
                },
            },
    {
        let c: u32 = ch as u32;
        match self.glyphs.get(&c) {
            Some(g) => {
                return Ok(g.info);
            }
            None => {}
        }
        let ghost orig = *old(self);
        let ghost src0 = source;
        let is_ws = char_is_whitespace(ch);
        let (info, alloc_id) = match self.make_record(ch, is_ws, source) {
            Ok(pair) => pair,
            Err(e) => {
                return Err(e);
            }
        };
        let ghost placed = *self;
        self.glyphs.insert(c, SdfGlyph { info, alloc_id });
        self.chars.push(c);
        proof {
            assert forall|i: int| 0 <= i < orig.chars@.len() implies orig.chars@[i] != c by {
                assert(orig.glyphs@.contains_key(orig.chars@[i]));
            }
            assert forall|j1: int, j2: int|
                0 <= j1 < j2 < kern@.len() implies (#[trigger] kern@[j1]).other != (
            #[trigger] kern@[j2]).other by {
                assert(kern@[j1].other == orig.chars@[j1]);
                assert(kern@[j2].other == orig.chars@[j2]);
            }
            assert forall|j1: int| 0 <= j1 < kern@.len() implies (#[trigger] kern@[j1]).other
                != c by {
                assert(kern@[j1].other == orig.chars@[j1]);
            }
        }
        let ghost mid = *self;
        let ghost kern_base = self.kerning@;
        let n = kern.len();
        let mut i: usize = 0;
        while i < n
            invariant
                i <= n,
                n == kern@.len(),
                *self == (SdfFont { kerning: self.kerning, ..mid }),
                self.kerning@ == kern_map_after(kern_base, c, kern@, i as int),
            decreases n - i,
        {
            let p = &kern[i];
            match p.forward.resolve() {
                Some(v) => {
                    let k = pair_key(c, p.other);
                    self.kerning.insert(k, v);
                }
                None => {}
            }
            match p.backward.resolve() {
                Some(v) => {
                    let k = pair_key(p.other, c);
                    self.kerning.insert(k, v);
                }
                None => {}
            }
            proof {
                assert(self.kerning@ == kern_map_after(kern_base, c, kern@, i as int + 1));
            }
            i = i + 1;
        }
        let ghost loop_map = self.kerning@;
        match self_kern.resolve() {
            Some(v) => {
                let k = pair_key(c, c);
                self.kerning.insert(k, v);
            }
            None => {}
        }
        proof {
            let fs = *self;
            let len = kern@.len() as int;
            assert(loop_map == kern_map_after(kern_base, c, kern@, len));
            // The new character's record and roster entry.
            assert(fs.resolved() =~= orig.resolved().insert(c));
            assert(fs.glyph_map() =~= orig.glyph_map().insert(c, info));
            assert(fs.chars@ =~= orig.chars@.push(c));
            // Roster well-formedness.
            assert(fs.chars@.no_duplicates()) by {
                assert forall|i1: int, j1: int|
                    0 <= i1 < fs.chars@.len() && 0 <= j1 < fs.chars@.len() && i1
                        != j1 implies fs.chars@[i1] != fs.chars@[j1] by {
                    if i1 < orig.chars@.len() && j1 < orig.chars@.len() {
                        assert(orig.chars@.no_duplicates());
                    }
                }
            }
            assert forall|c2: u32| fs.glyphs@.contains_key(c2) implies fs.chars@.contains(
                c2,
            ) by {
                if c2 == c {
                    assert(fs.chars@[orig.chars@.len() as int] == c);
                } else {
                    assert(orig.glyphs@.contains_key(c2));
                    let i1 = choose|i1: int|
                        0 <= i1 < orig.chars@.len() && orig.chars@[i1] == c2;
                    assert(fs.chars@[i1] == c2);
                }
            }
            // Every kerning key names a pair of resolved characters.
            assert forall|k: u64| #[trigger] fs.kerning@.contains_key(k) implies exists|
                a: u32,
                b: u32,
            |
                k == spec_pair_key(a, b) && fs.resolved().contains(a) && fs.resolved().contains(
                    b,
                ) by {
                if k == spec_pair_key(c, c) {
                    assert(fs.resolved().contains(c));
                } else {
                    assert(loop_map.contains_key(k));
                    lemma_kern_map_after_domain(kern_base, c, kern@, len, k);
                    if kern_base.contains_key(k) {
                        let (a, b) = choose|a: u32, b: u32|
                            k == spec_pair_key(a, b) && orig.resolved().contains(a)
                                && orig.resolved().contains(b);
                        assert(k == spec_pair_key(a, b) && fs.resolved().contains(a)
                            && fs.resolved().contains(b));
                    } else {
                        let j = choose|j: int|
                            0 <= j < len && (k == spec_pair_key(c, kern@[j].other) || k
                                == spec_pair_key(kern@[j].other, c));
                        assert(orig.glyphs@.contains_key(orig.chars@[j]));
                        assert(fs.resolved().contains(kern@[j].other));
                        assert(fs.resolved().contains(c));
                    }
                }
            }
            // The kerning answers promised for the new pairs.
            assert forall|j: int| 0 <= j < len implies fs.spec_kern_at(
                c,
                (#[trigger] kern@[j]).other,
            ) == resolve_or_zero(kern@[j].forward) by {
                lemma_kern_lacks_char(orig, c, kern@[j].other);
                lemma_kern_map_after_forward(kern_base, c, kern@, len, j);
                if spec_pair_key(c, kern@[j].other) == spec_pair_key(c, c) {
                    lemma_pair_key_injective(c, kern@[j].other, c, c);
                }
            }
            assert forall|j: int| 0 <= j < len implies fs.spec_kern_at(
                (#[trigger] kern@[j]).other,
                c,
            ) == resolve_or_zero(kern@[j].backward) by {
                lemma_kern_lacks_char(orig, c, kern@[j].other);
                lemma_kern_map_after_backward(kern_base, c, kern@, len, j);
                if spec_pair_key(kern@[j].other, c) == spec_pair_key(c, c) {
                    lemma_pair_key_injective(kern@[j].other, c, c, c);
                }
            }
            assert(fs.spec_kern_at(c, c) == resolve_or_zero(self_kern)) by {
                if self_kern.spec_resolve() is None {
                    lemma_kern_map_after_untouched(kern_base, c, kern@, len, c, c);
                    lemma_kern_lacks_char(orig, c, c);
                }
            }
            // Every pair not involving the new character keeps its answer.
            assert forall|a: u32, b: u32|
                !(a == c && (b == c || orig.resolved().contains(b))) && !(b == c
                    && orig.resolved().contains(a)) implies #[trigger] fs.spec_kern_at(a, b)
                == orig.spec_kern_at(a, b) by {
                if a == c {
                    assert forall|j: int| 0 <= j < len implies (#[trigger] kern@[j]).other
                        != b by {
                        assert(orig.glyphs@.contains_key(orig.chars@[j]));
                    }
                }
                if b == c {
                    assert forall|j: int| 0 <= j < len implies (#[trigger] kern@[j]).other
                        != a by {
                        assert(orig.glyphs@.contains_key(orig.chars@[j]));
                    }
                }
                lemma_kern_map_after_untouched(kern_base, c, kern@, len, a, b);
                if spec_pair_key(a, b) == spec_pair_key(c, c) {
                    lemma_pair_key_injective(a, b, c, c);
                }
            }
            // A record that is not Default carries the zero region.
            assert(!(info.kind is Default) ==> info.rect == (AtlasRect {
                x: 0,
                y: 0,
                w: 0,
                h: 0,
            })) by {
                match src0 {
                    GlyphSource::NotInFont => {}
                    GlyphSource::Raster(ri) => {}
                }
            }
            // The allocator still claims every recorded region.
            assert forall|c2: u32| #[trigger] fs.glyphs@.contains_key(c2) implies rect_claimed(
                fs.atlas,
                fs.glyphs@[c2].info.rect,
            ) by {
                if c2 == c {
                    if info.kind is Default {
                        assert(rect_claimed(placed.atlas, info.rect));
                    } else {
                        assert forall|px: int, py: int| #[trigger] info.rect.covers(
                            px,
                            py,
                        ) implies claimed_of(fs.atlas).contains((px, py)) by {}
                    }
                } else {
                    assert(orig.glyphs@.contains_key(c2));
                    assert(rect_claimed(orig.atlas, orig.glyphs@[c2].info.rect));
                    assert forall|px: int, py: int| #[trigger] fs.glyphs@[c2].info.rect.covers(
                        px,
                        py,
                    ) implies claimed_of(fs.atlas).contains((px, py)) by {
                        assert(orig.glyphs@[c2].info.rect.covers(px, py));
                        assert(claimed_of(orig.atlas).contains((px, py)));
                        if info.kind is Default {
                            assert(claimed_of(orig.atlas).subset_of(claimed_of(placed.atlas)));
                        } else {
                            assert(placed.atlas == orig.atlas);
                        }
                    }
                }
            }
            // The canvas is zero wherever no recorded region covers it.
            assert forall|px: int, py: int|
                0 <= px < fs.image.width && 0 <= py < fs.image.height && !fs.covered(
                    px,
                    py,
                ) implies #[trigger] fs.image.at(px, py) == 0 by {
                if orig.covered(px, py) {
                    let c2 = choose|c2: u32|
                        #[trigger] orig.glyphs@.contains_key(c2)
                            && orig.glyphs@[c2].info.rect.covers(px, py);
                    assert(fs.glyphs@.contains_key(c2) && fs.glyphs@[c2].info.rect.covers(
                        px,
                        py,
                    ));
                    assert(fs.covered(px, py));
                    assert(false);
                }
                assert(fs.glyphs@.contains_key(c));
                assert(!info.rect.covers(px, py));
                if info.kind is Default {
                    match src0 {
                        GlyphSource::Raster(ri) => {
                            assert(placed.image.at(px, py) == orig.image.at(px, py));
                        }
                        GlyphSource::NotInFont => {
                            assert(false);
                        }
                    }
                } else {
                    assert(placed.image == orig.image);
                }
                assert(orig.image.at(px, py) == 0);
            }
            // With the distance-field pass off, every region's pad border is zero.
            if fs.settings.spec_sdf_disabled() {
                let pad_i = fs.settings.pad_size as int;
                assert forall|c2: u32| #[trigger] fs.glyphs@.contains_key(c2) implies border_zero(
                    fs.image,
                    fs.glyphs@[c2].info.rect,
                    pad_i,
                ) by {
                    if c2 == c {
                        assert forall|px: int, py: int| #[trigger] info.rect.on_border(
                            pad_i,
                            px,
                            py,
                        ) implies fs.image.at(px, py) == 0 by {
                            assert(info.rect.covers(px, py));
                            assert(info.kind is Default);
                            assert(!claimed_of(orig.atlas).contains((px, py)));
                            if orig.covered(px, py) {
                                let c3 = choose|c3: u32|
                                    #[trigger] orig.glyphs@.contains_key(c3)
                                        && orig.glyphs@[c3].info.rect.covers(px, py);
                                assert(rect_claimed(orig.atlas, orig.glyphs@[c3].info.rect));
                                assert(claimed_of(orig.atlas).contains((px, py)));
                                assert(false);
                            }
                            assert(orig.image.at(px, py) == 0);
                            match src0 {
                                GlyphSource::Raster(ri) => {
                                    assert(placed.image.at(px, py) == orig.image.at(px, py));
                                }
                                GlyphSource::NotInFont => {
                                    assert(false);
                                }
                            }
                        }
                    } else {
                        assert(orig.glyphs@.contains_key(c2));
                        assert(border_zero(orig.image, orig.glyphs@[c2].info.rect, pad_i));
                        assert forall|px: int, py: int|
                            #[trigger] fs.glyphs@[c2].info.rect.on_border(
                                pad_i,
                                px,
                                py,
                            ) implies fs.image.at(px, py) == 0 by {
                            assert(orig.glyphs@[c2].info.rect.on_border(pad_i, px, py));
                            assert(orig.image.at(px, py) == 0);
                            if info.kind is Default {
                                assert(orig.glyphs@[c2].info.rect.covers(px, py));
                                assert(rect_claimed(orig.atlas, orig.glyphs@[c2].info.rect));
                                assert(claimed_of(orig.atlas).contains((px, py)));
                                if info.rect.covers(px, py) {
                                    assert(!claimed_of(orig.atlas).contains((px, py)));
                                    assert(false);
                                }
                                match src0 {
                                    GlyphSource::Raster(ri) => {
                                        assert(placed.image.at(px, py) == orig.image.at(px, py));
                                    }
                                    GlyphSource::NotInFont => {
                                        assert(false);
                                    }
                                }
                            } else {
                                assert(placed.image == orig.image);
                            }
                        }
                    }
                }
            }
        }
        Ok(info)
    }
}

/// The fixed ASCII working set the cache is warmed with when
/// `initialize_with_default_glyphs` is set: letters, digits, common
/// punctuation and whitespace.
pub open spec fn spec_default_glyph_chars() -> Seq<char> {
    "abcdefghijklmnopqrstuvwxyzABCDEFGHIJKLMNOPQRSTUVWXYZ0123456789.@#$%^&,!:;/?|(){}[]!+-_=* \n\t'\"><~`\\"@
}

/// The warmup working set as a vector, for the driver that requests each of
/// its characters right after construction.
pub fn default_glyph_chars() -> (r: Vec<char>)
    ensures
        r@ == spec_default_glyph_chars(),
{
    let s: &str =
        "abcdefghijklmnopqrstuvwxyzABCDEFGHIJKLMNOPQRSTUVWXYZ0123456789.@#$%^&,!:;/?|(){}[]!+-_=* \n\t'\"><~`\\";
    let n: usize = s.unicode_len();
    let mut r: Vec<char> = Vec::new();
    let mut i: usize = 0;
    while i < n
        invariant
            i <= n,
            n == s@.len(),
            r@.len() == i,
            forall|j: int| 0 <= j < i ==> r@[j] == s@[j],
        decreases n - i,
    {
        r.push(s.get_char(i));
        i = i + 1;
    }
    proof {
        assert(r@ =~= s@);
    }
    r
}

/// A kerning query for a pair with a character the cache has never resolved
/// answers zero: the cache stores no adjustment it was not given.
pub proof fn lemma_unresolved_pair_kerns_zero(f: SdfFont, a: u32, b: u32)
    requires
        f.wf(),
        !f.resolved().contains(a) || !f.resolved().contains(b),
    ensures
        f.spec_kern_at(a, b) == 0,
{
    if f.kerning@.contains_key(spec_pair_key(a, b)) {
        let (a2, b2) = choose|a2: u32, b2: u32|
            spec_pair_key(a, b) == spec_pair_key(a2, b2) && f.resolved().contains(a2)
                && f.resolved().contains(b2);
        lemma_pair_key_injective(a, b, a2, b2);
    }
}

/// Coverage classification: a character the font lacks yields `NotContained`
/// with zero geometry and zero advance unless it is Unicode whitespace, which
/// yields `Whitespace`; a present whitespace glyph yields `Whitespace`
/// carrying the rasterizer's advance and no atlas region; any other present
/// glyph yields `Default` with a real, in-bounds atlas region.
pub proof fn lemma_coverage_classification(
    settings: SdfFontSettings,
    ch: char,
    source: GlyphSource,
    g: GlyphInfo,
)
    requires
        record_matches(settings, ch, source, g),
    ensures
        source is NotInFont && !is_unicode_whitespace(ch) ==> g
            == GlyphInfo::spec_not_contained(),
        source is NotInFont && is_unicode_whitespace(ch) ==> g == GlyphInfo::spec_whitespace(
            0u32,
        ),
        source is Raster && is_unicode_whitespace(ch) ==> g.kind is Whitespace
            && g.rect.is_zero(),
        source is Raster && !is_unicode_whitespace(ch) ==> g.kind is Default
            && g.rect.valid_in(settings.atlas_width as int, settings.atlas_height as int),
{
}

/// Padding invariant: a visible glyph's quad is the raw bitmap inflated by the
/// pad on every side, and the advance is exactly the rasterizer's, untouched
/// by the pad.
pub proof fn lemma_padding_invariant(
    settings: SdfFontSettings,
    ch: char,
    ri: RasterInput,
    g: GlyphInfo,
)
    requires
        record_matches(settings, ch, GlyphSource::Raster(ri), g),
        !is_unicode_whitespace(ch),
    ensures
        g.width == ri.width + 2 * settings.pad_size,
        g.height == ri.height + 2 * settings.pad_size,
        g.xmin == ri.xmin - settings.pad_size,
        g.ymin == ri.ymin - settings.pad_size,
        g.advance_bits == ri.advance_bits,
{
}

/// The canvas discipline: a well-formed cache holds zero in every cell that no
/// recorded glyph region covers — the canvas starts zeroed and every write
/// stays inside its own region.
pub proof fn lemma_canvas_zero_outside_regions(f: SdfFont, px: int, py: int)
    requires
        f.wf(),
        0 <= px < f.image.width,
        0 <= py < f.image.height,
        !f.covered(px, py),
    ensures
        f.image.at(px, py) == 0,
{
}

/// With the distance-field pass off, the pad-wide border inside each recorded
/// region also holds zero: only the raw bitmap is copied, behind the pad.
pub proof fn lemma_pad_border_zero(f: SdfFont, c: u32, px: int, py: int)
    requires
        f.wf(),
        f.settings.spec_sdf_disabled(),
        f.glyphs@.contains_key(c),
        f.glyphs@[c].info.rect.on_border(f.settings.pad_size as int, px, py),
    ensures
        f.image.at(px, py) == 0,
{
    assert(border_zero(f.image, f.glyphs@[c].info.rect, f.settings.pad_size as int));
}

/// The advance never depends on the cache's configuration: two caches handed
/// the same request for a character produce records with the same advance,
/// whatever their pad or radius settings — padding changes only the quad and
/// its atlas region, never layout metrics.
pub proof fn lemma_advance_independent_of_settings(
    s1: SdfFontSettings,
    s2: SdfFontSettings,
    ch: char,
    source: GlyphSource,
    g1: GlyphInfo,
    g2: GlyphInfo,
)
    requires
        record_matches(s1, ch, source, g1),
        record_matches(s2, ch, source, g2),
    ensures
        g1.advance_bits == g2.advance_bits,
{
}

/// Dirty-flag protocol: making a `Default` record raises the changed flag;
/// making any other record leaves the canvas, flag included, exactly as it
/// was.
pub proof fn lemma_dirty_flag_protocol(
    settings: SdfFontSettings,
    source: GlyphSource,
    g: GlyphInfo,
    prior: AtlasImage,
    now: AtlasImage,
)
    requires
        image_matches(settings, source, g, prior, now),
    ensures
        g.kind is Default ==> now.changed == true,
        !(g.kind is Default) ==> now == prior,
{
}

} // verus!
