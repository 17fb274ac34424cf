use sdffont::glyph_is_in_font;

fn push_u32(v: &mut Vec<u8>, x: u32) {
    v.extend_from_slice(&x.to_be_bytes());
}

fn push_u16(v: &mut Vec<u8>, x: u16) {
    v.extend_from_slice(&x.to_be_bytes());
}

fn push_i16(v: &mut Vec<u8>, x: i16) {
    v.extend_from_slice(&x.to_be_bytes());
}

/// A minimal font with two glyphs and a byte-encoded character map that sends
/// 'A' to glyph 1 and everything else to the missing glyph.
fn font_with_capital_a() -> Vec<u8> {
    let mut v = Vec::new();
    push_u32(&mut v, 0x00010000);
    push_u16(&mut v, 4); // table count
    push_u16(&mut v, 0);
    push_u16(&mut v, 0);
    push_u16(&mut v, 0);
    let cmap_off: u32 = 12 + 4 * 16;
    let cmap_len: u32 = 12 + 262;
    let head_off = cmap_off + cmap_len;
    let hhea_off = head_off + 54;
    let maxp_off = hhea_off + 36;
    v.extend_from_slice(b"cmap");
    push_u32(&mut v, 0);
    push_u32(&mut v, cmap_off);
    push_u32(&mut v, cmap_len);
    v.extend_from_slice(b"head");
    push_u32(&mut v, 0);
    push_u32(&mut v, head_off);
    push_u32(&mut v, 54);
    v.extend_from_slice(b"hhea");
    push_u32(&mut v, 0);
    push_u32(&mut v, hhea_off);
    push_u32(&mut v, 36);
    v.extend_from_slice(b"maxp");
    push_u32(&mut v, 0);
    push_u32(&mut v, maxp_off);
    push_u32(&mut v, 6);
    // cmap: one byte-encoded (format 0) Macintosh subtable.
    push_u16(&mut v, 0); // version
    push_u16(&mut v, 1); // subtable count
    push_u16(&mut v, 1); // platform: Macintosh
    push_u16(&mut v, 0); // encoding
    push_u32(&mut v, 12); // subtable offset
    push_u16(&mut v, 0); // format 0
    push_u16(&mut v, 262); // length
    push_u16(&mut v, 0); // language
    let mut ids = [0u8; 256];
    ids[b'A' as usize] = 1;
    v.extend_from_slice(&ids);
    // head
    push_u32(&mut v, 0x00010000);
    push_u32(&mut v, 0);
    push_u32(&mut v, 0);
    push_u32(&mut v, 0x5F0F3CF5);
    push_u16(&mut v, 0);
    push_u16(&mut v, 1000); // units per em
    v.extend_from_slice(&[0u8; 16]);
    push_i16(&mut v, 0);
    push_i16(&mut v, 0);
    push_i16(&mut v, 100);
    push_i16(&mut v, 100);
    push_u16(&mut v, 0);
    push_u16(&mut v, 8);
    push_i16(&mut v, 0);
    push_u16(&mut v, 0);
    push_i16(&mut v, 0);
    // hhea
    push_u32(&mut v, 0x00010000);
    push_i16(&mut v, 800);
    push_i16(&mut v, -200);
    push_i16(&mut v, 0);
    v.extend_from_slice(&[0u8; 24]);
    push_u16(&mut v, 1);
    // maxp
    push_u32(&mut v, 0x00010000);
    push_u16(&mut v, 2); // glyph count
    v
}

#[test]
fn glyph_presence_follows_the_character_map() {
    let bytes = font_with_capital_a();
    assert!(sdffont::validate_font_bytes(&bytes).is_ok());
    let settings = fontdue::FontSettings {
        collection_index: 0,
        scale: 32.0,
        load_substitutions: false,
    };
    let font = fontdue::Font::from_bytes(&bytes[..], settings).expect("the font should parse");
    assert!(glyph_is_in_font(&font, 'A'));
    assert!(!glyph_is_in_font(&font, 'B'));
    assert!(!glyph_is_in_font(&font, ' '));
}

#[test]
fn rasterizer_reports_line_metrics_for_the_minimal_font() {
    let bytes = font_with_capital_a();
    let settings = fontdue::FontSettings {
        collection_index: 0,
        scale: 32.0,
        load_substitutions: false,
    };
    let font = fontdue::Font::from_bytes(&bytes[..], settings).expect("the font should parse");
    let metrics = font
        .horizontal_line_metrics(32.0)
        .expect("hhea line metrics should be present");
    assert!(metrics.ascent > 0.0);
    assert!(metrics.descent < 0.0);
}
