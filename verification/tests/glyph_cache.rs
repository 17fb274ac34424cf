use sdffont::AtlasError;
use sdffont::EncodedBitmap;
use sdffont::FontError;
use sdffont::GlyphKind;
use sdffont::GlyphSource;
use sdffont::KernSource;
use sdffont::LineMetrics;
use sdffont::PairKernSource;
use sdffont::RasterInput;
use sdffont::SdfFont;
use sdffont::SdfFontSettings;
use sdffont::default_glyph_chars;
use sdffont::validate_font_bytes;

fn push_u32(v: &mut Vec<u8>, x: u32) {
    v.extend_from_slice(&x.to_be_bytes());
}

fn push_u16(v: &mut Vec<u8>, x: u16) {
    v.extend_from_slice(&x.to_be_bytes());
}

fn push_i16(v: &mut Vec<u8>, x: i16) {
    v.extend_from_slice(&x.to_be_bytes());
}

/// The smallest font file the parser accepts: an sfnt header and the three
/// required tables (head, hhea, maxp).
fn minimal_font_bytes() -> Vec<u8> {
    let mut v = Vec::new();
    push_u32(&mut v, 0x00010000); // sfnt magic
    push_u16(&mut v, 3); // table count
    push_u16(&mut v, 0);
    push_u16(&mut v, 0);
    push_u16(&mut v, 0);
    let head_off = 12 + 3 * 16;
    let hhea_off = head_off + 54;
    let maxp_off = hhea_off + 36;
    v.extend_from_slice(b"head");
    push_u32(&mut v, 0);
    push_u32(&mut v, head_off as u32);
    push_u32(&mut v, 54);
    v.extend_from_slice(b"hhea");
    push_u32(&mut v, 0);
    push_u32(&mut v, hhea_off as u32);
    push_u32(&mut v, 36);
    v.extend_from_slice(b"maxp");
    push_u32(&mut v, 0);
    push_u32(&mut v, maxp_off as u32);
    push_u32(&mut v, 6);
    // head
    push_u32(&mut v, 0x00010000); // version
    push_u32(&mut v, 0); // revision
    push_u32(&mut v, 0); // checksum adjustment
    push_u32(&mut v, 0x5F0F3CF5); // magic
    push_u16(&mut v, 0); // flags
    push_u16(&mut v, 1000); // units per em
    v.extend_from_slice(&[0u8; 16]); // created + modified
    push_i16(&mut v, 0); // x min
    push_i16(&mut v, 0); // y min
    push_i16(&mut v, 100); // x max
    push_i16(&mut v, 100); // y max
    push_u16(&mut v, 0); // mac style
    push_u16(&mut v, 8); // lowest rec ppem
    push_i16(&mut v, 0); // direction hint
    push_u16(&mut v, 0); // index to location format
    push_i16(&mut v, 0); // glyph data format
    // hhea
    push_u32(&mut v, 0x00010000);
    push_i16(&mut v, 800); // ascender
    push_i16(&mut v, -200); // descender
    push_i16(&mut v, 0); // line gap
    v.extend_from_slice(&[0u8; 24]);
    push_u16(&mut v, 1); // number of horizontal metrics
    // maxp
    push_u32(&mut v, 0x00010000);
    push_u16(&mut v, 1); // glyph count
    v
}

fn settings(atlas: u32, pad: u32, sdf_radius_bits: u32) -> SdfFontSettings {
    SdfFontSettings {
        font_size: 32,
        pad_size: pad,
        sdf_radius_bits,
        atlas_width: atlas,
        atlas_height: atlas,
        initialize_with_default_glyphs: false,
    }
}

fn line_metrics() -> LineMetrics {
    LineMetrics { ascent_bits: 0x44200000, descent_bits: 0, line_gap_bits: 0 }
}

fn new_font(atlas: u32, pad: u32, sdf_radius_bits: u32) -> SdfFont {
    SdfFont::new(&minimal_font_bytes(), settings(atlas, pad, sdf_radius_bits), line_metrics())
        .ok()
        .expect("the minimal font should parse")
}

fn no_kern() -> KernSource {
    KernSource::none()
}

/// Pair sources with no adjustment, one per already-resolved character.
fn empty_pairs(font: &SdfFont) -> Vec<PairKernSource> {
    font.resolved_chars()
        .iter()
        .map(|&other| PairKernSource { other, forward: no_kern(), backward: no_kern() })
        .collect()
}

fn raster(bitmap: Vec<u8>, w: u32, h: u32, advance_bits: u32) -> GlyphSource {
    GlyphSource::Raster(RasterInput {
        bitmap,
        width: w,
        height: h,
        xmin: 2,
        ymin: -1,
        advance_bits,
        encoded: None,
    })
}

#[test]
fn construction_rejects_malformed_bytes() {
    let bad = vec![0u8, 1, 2, 3, 4, 5];
    let r = SdfFont::new(&bad, settings(256, 4, 0), line_metrics());
    match r {
        Ok(_) => panic!("malformed bytes must not produce a cache"),
        Err(e) => {
            assert_eq!(e, FontError::Parse);
            assert_eq!(e.message(), "Font Parsing Error");
            assert!(!e.message().is_empty());
        }
    }
}

#[test]
fn construction_rejects_truncated_font() {
    let mut bytes = minimal_font_bytes();
    bytes.truncate(40);
    assert!(SdfFont::new(&bytes, settings(256, 4, 0), line_metrics()).is_err());
}

#[test]
fn validate_font_bytes_accepts_minimal_font() {
    assert!(validate_font_bytes(&minimal_font_bytes()).is_ok());
    assert!(validate_font_bytes(&vec![1u8, 2, 3]).is_err());
}

#[test]
fn error_messages_are_fixed() {
    assert_eq!(FontError::Parse.message(), "Font Parsing Error");
    assert_eq!(
        FontError::NoLineMetrics.message(),
        "font does not have horizontal line metrics"
    );
}

#[test]
fn fresh_cache_is_clean() {
    let mut f = new_font(256, 4, 0);
    assert!(!f.has_atlas_image_changed());
    assert_eq!(f.get_line_metrics().ascent_bits, 0x44200000);
    assert!(f.resolved_chars().is_empty());
    let (w, h, bytes) = f.get_atlas_image();
    assert_eq!((w, h), (256, 256));
    assert_eq!(bytes.len(), 256 * 256);
    assert!(bytes.iter().all(|&b| b == 0));
}

#[test]
fn settings_check_matches_allocator_limits() {
    assert!(settings(256, 4, 0).check());
    assert!(settings(1, 0, 0).check());
    assert!(!settings(0, 4, 0).check());
    assert!(!settings(70000, 4, 0).check());
}

#[test]
fn absent_glyph_yields_not_contained() {
    let mut f = new_font(256, 4, 0);
    let g = f
        .get_or_add_glyph('\u{eeee}', GlyphSource::NotInFont, Vec::new(), no_kern())
        .unwrap();
    assert_eq!(g.kind, GlyphKind::NotContained);
    assert_eq!((g.xmin, g.ymin, g.width, g.height, g.advance_bits), (0, 0, 0, 0, 0));
    assert_eq!((g.rect.x, g.rect.y, g.rect.w, g.rect.h), (0, 0, 0, 0));
    assert!(!f.has_atlas_image_changed());
}

#[test]
fn absent_whitespace_yields_whitespace() {
    let mut f = new_font(256, 4, 0);
    let g = f
        .get_or_add_glyph('\u{200B}' /* zero-width space */, GlyphSource::NotInFont, Vec::new(), no_kern())
        .unwrap();
    // A zero-width space is not Unicode whitespace, so it stays NotContained;
    // an ordinary space absent from the font is classified Whitespace.
    assert_eq!(g.kind, GlyphKind::NotContained);
    let ws = f
        .get_or_add_glyph(' ', GlyphSource::NotInFont, empty_pairs(&f), no_kern())
        .unwrap();
    assert_eq!(ws.kind, GlyphKind::Whitespace);
    assert_eq!(ws.advance_bits, 0);
    assert!(!f.has_atlas_image_changed());
}

#[test]
fn present_whitespace_keeps_only_advance() {
    let mut f = new_font(256, 4, 0);
    let adv = 10.5f32.to_bits();
    let g = f
        .get_or_add_glyph(' ', raster(vec![0u8; 4], 2, 2, adv), Vec::new(), no_kern())
        .unwrap();
    assert_eq!(g.kind, GlyphKind::Whitespace);
    assert_eq!(g.advance_bits, adv);
    assert_eq!((g.width, g.height), (0, 0));
    assert_eq!((g.rect.w, g.rect.h), (0, 0));
    assert!(!f.has_atlas_image_changed());
}

#[test]
fn default_glyph_grayscale_padding_and_blit() {
    let mut f = new_font(256, 4, 0);
    let bitmap = vec![10u8, 20, 30, 40, 50, 60];
    let adv = 7.25f32.to_bits();
    let g = f
        .get_or_add_glyph('A', raster(bitmap.clone(), 3, 2, adv), Vec::new(), no_kern())
        .unwrap();
    assert_eq!(g.kind, GlyphKind::Default);
    // Padding inflates the quad but not the advance.
    assert_eq!(g.width, 3 + 2 * 4);
    assert_eq!(g.height, 2 + 2 * 4);
    assert_eq!(g.xmin, 2 - 4);
    assert_eq!(g.ymin, -1 - 4);
    assert_eq!(g.advance_bits, adv);
    // The atlas region matches the padded quad and lies inside the canvas.
    assert_eq!((g.rect.w, g.rect.h), (11, 10));
    assert!(g.rect.x + g.rect.w <= 256 && g.rect.y + g.rect.h <= 256);
    assert!(f.has_atlas_image_changed());
    let (rx, ry) = (g.rect.x as usize, g.rect.y as usize);
    let (_, _, bytes) = f.get_atlas_image();
    for y in 0..2usize {
        for x in 0..3usize {
            assert_eq!(bytes[(ry + 4 + y) * 256 + rx + 4 + x], bitmap[y * 3 + x]);
        }
    }
    // The pad border around the bitmap stays zero.
    for x in 0..11usize {
        assert_eq!(bytes[ry * 256 + rx + x], 0);
        assert_eq!(bytes[(ry + 9) * 256 + rx + x], 0);
    }
}

#[test]
fn default_glyph_sdf_path_stores_encoded_bitmap() {
    let mut f = new_font(256, 4, 4.0f32.to_bits());
    let encoded: Vec<u8> = (0u8..20).collect();
    let source = GlyphSource::Raster(RasterInput {
        bitmap: vec![255u8; 6],
        width: 3,
        height: 2,
        xmin: 1,
        ymin: 0,
        advance_bits: 3.5f32.to_bits(),
        encoded: Some(EncodedBitmap { bytes: encoded.clone(), width: 5, height: 4 }),
    });
    let g = f.get_or_add_glyph('B', source, Vec::new(), no_kern()).unwrap();
    assert_eq!(g.kind, GlyphKind::Default);
    // The quad metrics come from the raw bitmap plus padding, the atlas region
    // from the encoder's output.
    assert_eq!((g.width, g.height), (11, 10));
    assert_eq!((g.rect.w, g.rect.h), (5, 4));
    let (rx, ry) = (g.rect.x as usize, g.rect.y as usize);
    let (_, _, bytes) = f.get_atlas_image();
    for y in 0..4usize {
        for x in 0..5usize {
            assert_eq!(bytes[(ry + y) * 256 + rx + x], encoded[y * 5 + x]);
        }
    }
}

#[test]
fn second_request_is_bit_identical_and_pure() {
    let mut f = new_font(256, 4, 0);
    let first = f
        .get_or_add_glyph('A', raster(vec![9u8; 6], 3, 2, 42), Vec::new(), no_kern())
        .unwrap();
    let snapshot: Vec<u8> = f.get_atlas_image().2.clone();
    assert!(!f.has_atlas_image_changed());
    // The second request ignores whatever source it is handed and answers the
    // stored record without touching the atlas.
    let second = f
        .get_or_add_glyph('A', GlyphSource::NotInFont, Vec::new(), no_kern())
        .unwrap();
    assert_eq!(first, second);
    assert!(!f.has_atlas_image_changed());
    assert_eq!(&snapshot, f.get_atlas_image().2);
    assert_eq!(f.get_glyph('A'), Some(first));
}

#[test]
fn dirty_flag_protocol() {
    let mut f = new_font(256, 2, 0);
    assert!(!f.has_atlas_image_changed());
    f.get_or_add_glyph(' ', GlyphSource::NotInFont, Vec::new(), no_kern())
        .unwrap();
    assert!(!f.has_atlas_image_changed());
    f.get_or_add_glyph('A', raster(vec![1u8; 4], 2, 2, 0), empty_pairs(&f), no_kern())
        .unwrap();
    assert!(f.has_atlas_image_changed());
    let first: Vec<u8> = f.get_atlas_image().2.clone();
    assert!(!f.has_atlas_image_changed());
    let second: Vec<u8> = f.get_atlas_image().2.clone();
    assert!(!f.has_atlas_image_changed());
    assert_eq!(first, second);
}

#[test]
fn atlas_exhaustion_is_reported_and_harmless() {
    let mut f = new_font(16, 0, 0);
    let chars = default_glyph_chars();
    let mut failures = 0usize;
    for &ch in chars.iter() {
        let pairs = empty_pairs(&f);
        let r = f.get_or_add_glyph(ch, raster(vec![128u8; 64], 8, 8, 0), pairs, no_kern());
        match r {
            Ok(g) => {
                if g.kind == GlyphKind::Default {
                    assert!(g.rect.x + g.rect.w <= 16 && g.rect.y + g.rect.h <= 16);
                }
            }
            Err(e) => {
                assert_eq!(e, AtlasError::Full);
                failures += 1;
                // A failed request records nothing.
                assert_eq!(f.get_glyph(ch), None);
            }
        }
    }
    // A 16 by 16 canvas cannot hold the whole working set of 8 by 8 glyphs.
    assert!(failures > 0);
    // Repeating the same requests keeps failing identically instead of
    // corrupting the atlas.
    let again = f.get_or_add_glyph('A', raster(vec![128u8; 64], 8, 8, 0), empty_pairs(&f), no_kern());
    assert_eq!(again.err(), Some(AtlasError::Full));
}

#[test]
fn warmup_set_is_the_fixed_ascii_working_set() {
    let chars = default_glyph_chars();
    let expected = "abcdefghijklmnopqrstuvwxyzABCDEFGHIJKLMNOPQRSTUVWXYZ0123456789.@#$%^&,!:;/?|(){}[]!+-_=* \n\t'\"><~`\\";
    let collected: String = chars.iter().collect();
    assert_eq!(collected, expected);
}

#[test]
fn later_insertions_leave_earlier_regions_alone() {
    let mut f = new_font(256, 2, 0);
    let first_bitmap = vec![11u8, 22, 33, 44];
    let first = f
        .get_or_add_glyph('A', raster(first_bitmap.clone(), 2, 2, 0), Vec::new(), no_kern())
        .unwrap();
    let second_bitmap = vec![99u8; 25];
    let second = f
        .get_or_add_glyph('B', raster(second_bitmap, 5, 5, 0), empty_pairs(&f), no_kern())
        .unwrap();
    let (rx, ry) = (first.rect.x as usize, first.rect.y as usize);
    let (_, _, bytes) = f.get_atlas_image();
    // The first glyph's bitmap is still in place behind its pad border.
    for y in 0..2usize {
        for x in 0..2usize {
            assert_eq!(bytes[(ry + 2 + y) * 256 + rx + 2 + x], first_bitmap[y * 2 + x]);
        }
    }
    // Both regions lie inside the canvas and every cell outside them is zero,
    // the pad borders included.
    let in_rect = |r: &sdffont::AtlasRect, x: usize, y: usize| {
        let pad = 2usize;
        r.x as usize + pad <= x
            && x < (r.x + r.w) as usize - pad
            && r.y as usize + pad <= y
            && y < (r.y + r.h) as usize - pad
    };
    for y in 0..256usize {
        for x in 0..256usize {
            if !in_rect(&first.rect, x, y) && !in_rect(&second.rect, x, y) {
                assert_eq!(bytes[y * 256 + x], 0, "stray write at ({x}, {y})");
            }
        }
    }
}

#[test]
fn placement_cap_is_reported_as_exhaustion() {
    let mut f = new_font(256, 0, 0);
    // The state a cache reaches after the maximum number of placements: any
    // further visible glyph is refused as atlas exhaustion, and nothing is
    // recorded.
    f.placed = sdffont::MAX_PLACED_GLYPHS;
    let r = f.get_or_add_glyph('A', raster(vec![1u8; 4], 2, 2, 0), Vec::new(), no_kern());
    assert_eq!(r.err(), Some(AtlasError::Full));
    assert_eq!(f.get_glyph('A'), None);
    // Records that need no atlas region are still accepted.
    let ws = f
        .get_or_add_glyph(' ', GlyphSource::NotInFont, Vec::new(), no_kern())
        .unwrap();
    assert_eq!(ws.kind, GlyphKind::Whitespace);
}
