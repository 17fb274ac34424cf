use sdffont::GlyphSource;
use sdffont::KernSource;
use sdffont::LineMetrics;
use sdffont::PairKernSource;
use sdffont::SdfFont;
use sdffont::SdfFontSettings;

fn push_u32(v: &mut Vec<u8>, x: u32) {
    v.extend_from_slice(&x.to_be_bytes());
}

fn push_u16(v: &mut Vec<u8>, x: u16) {
    v.extend_from_slice(&x.to_be_bytes());
}

fn push_i16(v: &mut Vec<u8>, x: i16) {
    v.extend_from_slice(&x.to_be_bytes());
}

/// The smallest font file the parser accepts: an sfnt header and the three
/// required tables (head, hhea, maxp).
fn tiny_font() -> Vec<u8> {
    let mut v = Vec::new();
    push_u32(&mut v, 0x00010000);
    push_u16(&mut v, 3);
    push_u16(&mut v, 0);
    push_u16(&mut v, 0);
    push_u16(&mut v, 0);
    let head_off = 12 + 3 * 16;
    let hhea_off = head_off + 54;
    let maxp_off = hhea_off + 36;
    v.extend_from_slice(b"head");
    push_u32(&mut v, 0);
    push_u32(&mut v, head_off as u32);
    push_u32(&mut v, 54);
    v.extend_from_slice(b"hhea");
    push_u32(&mut v, 0);
    push_u32(&mut v, hhea_off as u32);
    push_u32(&mut v, 36);
    v.extend_from_slice(b"maxp");
    push_u32(&mut v, 0);
    push_u32(&mut v, maxp_off as u32);
    push_u32(&mut v, 6);
    push_u32(&mut v, 0x00010000);
    push_u32(&mut v, 0);
    push_u32(&mut v, 0);
    push_u32(&mut v, 0x5F0F3CF5);
    push_u16(&mut v, 0);
    push_u16(&mut v, 1000);
    v.extend_from_slice(&[0u8; 16]);
    push_i16(&mut v, 0);
    push_i16(&mut v, 0);
    push_i16(&mut v, 100);
    push_i16(&mut v, 100);
    push_u16(&mut v, 0);
    push_u16(&mut v, 8);
    push_i16(&mut v, 0);
    push_u16(&mut v, 0);
    push_i16(&mut v, 0);
    push_u32(&mut v, 0x00010000);
    push_i16(&mut v, 800);
    push_i16(&mut v, -200);
    push_i16(&mut v, 0);
    v.extend_from_slice(&[0u8; 24]);
    push_u16(&mut v, 1);
    push_u32(&mut v, 0x00010000);
    push_u16(&mut v, 1);
    v
}

fn new_font() -> SdfFont {
    let settings = SdfFontSettings {
        font_size: 32,
        pad_size: 4,
        sdf_radius_bits: 4.0f32.to_bits(),
        atlas_width: 256,
        atlas_height: 256,
        initialize_with_default_glyphs: false,
    };
    let lm = LineMetrics { ascent_bits: 0, descent_bits: 0, line_gap_bits: 0 };
    SdfFont::new(&tiny_font(), settings, lm).ok().expect("the tiny font should parse")
}

fn no_kern() -> KernSource {
    KernSource::none()
}

fn kern(gpos_units: Option<i16>, gpos_scaled_bits: u32, fallback_bits: Option<u32>) -> KernSource {
    KernSource { gpos_units, gpos_scaled_bits, fallback_bits }
}

#[test]
fn kerning_resolution_order() {
    let mut f = new_font();
    f.get_or_add_glyph('A', GlyphSource::NotInFont, Vec::new(), no_kern())
        .unwrap();
    let av = (-1.5f32).to_bits();
    let pairs = vec![PairKernSource {
        other: 'A' as u32,
        // A nonzero pair-positioning rule wins over the legacy table.
        forward: kern(Some(10), av, Some(9.0f32.to_bits())),
        // A zero rule counts as no rule: the legacy table decides.
        backward: kern(Some(0), 55, Some(7.0f32.to_bits())),
    }];
    // The new character kerns against itself through the legacy table alone.
    let self_kern = kern(None, 0, Some(3.0f32.to_bits()));
    f.get_or_add_glyph('V', GlyphSource::NotInFont, pairs, self_kern)
        .unwrap();
    assert_eq!(f.get_horizontal_kerning('V', 'A'), av);
    assert_eq!(f.get_horizontal_kerning('A', 'V'), 7.0f32.to_bits());
    assert_eq!(f.get_horizontal_kerning('V', 'V'), 3.0f32.to_bits());
    assert_eq!(f32::from_bits(f.get_horizontal_kerning('V', 'A')), -1.5);
}

#[test]
fn kerning_is_not_symmetric() {
    let mut f = new_font();
    f.get_or_add_glyph('A', GlyphSource::NotInFont, Vec::new(), no_kern())
        .unwrap();
    let pairs = vec![PairKernSource {
        other: 'A' as u32,
        forward: kern(Some(4), 111, None),
        backward: kern(Some(-4), 222, None),
    }];
    f.get_or_add_glyph('V', GlyphSource::NotInFont, pairs, no_kern())
        .unwrap();
    assert_ne!(
        f.get_horizontal_kerning('V', 'A'),
        f.get_horizontal_kerning('A', 'V')
    );
    // The self pair is deterministic: asking twice answers the same value.
    assert_eq!(
        f.get_horizontal_kerning('V', 'V'),
        f.get_horizontal_kerning('V', 'V')
    );
}

#[test]
fn kerning_completeness_over_insertions() {
    let mut f = new_font();
    let names = ['a', 'b', 'c', 'd'];
    for (i, &ch) in names.iter().enumerate() {
        let pairs: Vec<PairKernSource> = f
            .resolved_chars()
            .iter()
            .map(|&other| PairKernSource {
                other,
                forward: kern(Some(1), (ch as u32) * 1000 + other, None),
                backward: kern(Some(1), other * 1000 + ch as u32, None),
            })
            .collect();
        assert_eq!(pairs.len(), i);
        f.get_or_add_glyph(ch, GlyphSource::NotInFont, pairs, no_kern())
            .unwrap();
    }
    // Every ordered pair drawn from the resolved set answers the value it was
    // given, in both orders, and no pair is stale.
    for &l in names.iter() {
        for &r in names.iter() {
            let got = f.get_horizontal_kerning(l, r);
            if l == r {
                assert_eq!(got, 0, "self pairs were given no adjustment");
            } else {
                assert_eq!(got, (l as u32) * 1000 + r as u32);
            }
        }
    }
    // Pairs involving a character that was never inserted answer zero.
    assert_eq!(f.get_horizontal_kerning('a', 'z'), 0);
    assert_eq!(f.get_horizontal_kerning('z', 'a'), 0);
}

#[test]
fn unstored_pairs_answer_zero() {
    let f = new_font();
    assert_eq!(f.get_horizontal_kerning('A', 'V'), 0);
}
