use asciiart::font::{rasterize_glyph, GlyphTable};
use asciiart::kernel::Kernel;

// Font data long enough for glyphs up to and including `last_code`, all rows
// zero (fully dark glyphs).
fn blank_font(last_code: usize) -> Vec<u8> {
    vec![0u8; (last_code + 1) * 8]
}

#[test]
fn rasterize_reads_bits_msb_leftmost() {
    let mut font = vec![0u8; 8];
    font[0] = 0b1000_0000;
    font[3] = 0b0000_0001;
    font[7] = 0b1010_0000;
    let r = rasterize_glyph(&font, 0);
    assert_eq!(r.len(), 64);
    assert_eq!(r[0], 255);
    assert_eq!(r[1], 0);
    assert_eq!(r[3 * 8 + 7], 255);
    assert_eq!(r[3 * 8 + 6], 0);
    assert_eq!(r[7 * 8], 255);
    assert_eq!(r[7 * 8 + 1], 0);
    assert_eq!(r[7 * 8 + 2], 255);
}

#[test]
fn fully_lit_glyph_resamples_to_all_maximum() {
    let mut font = blank_font(0x20);
    for i in 0x20 * 8..0x21 * 8 {
        font[i] = 0xFF;
    }
    let table = GlyphTable::from_font(&font);
    assert_eq!(table.len(), 1);
    let k = table.kernel_for(0x20).expect("space glyph present");
    assert_eq!(k.as_bytes().len(), 16);
    for &v in k.as_bytes() {
        assert_eq!(v, 255);
    }
}

#[test]
fn fully_dark_glyph_resamples_to_all_minimum() {
    let font = blank_font(0x20);
    let table = GlyphTable::from_font(&font);
    assert_eq!(table.len(), 1);
    let k = table.kernel_for(0x20).expect("space glyph present");
    for &v in k.as_bytes() {
        assert_eq!(v, 0);
    }
}

#[test]
fn short_font_yields_smaller_table_never_a_crash() {
    // No whole glyph slice for code 0x20: empty table.
    assert_eq!(GlyphTable::from_font(&[]).len(), 0);
    assert_eq!(GlyphTable::from_font(&vec![0u8; 0x20 * 8]).len(), 0);
    // One byte short of the space glyph's full slice: still empty.
    assert_eq!(GlyphTable::from_font(&vec![0u8; 0x21 * 8 - 1]).len(), 0);
    // Exactly the space glyph.
    assert_eq!(GlyphTable::from_font(&vec![0u8; 0x21 * 8]).len(), 1);
    // Part-way through the printable range.
    assert_eq!(GlyphTable::from_font(&vec![0u8; 0x30 * 8]).len(), 0x10);
    // Beyond the printable range the table stops at 0x7E (exclusive).
    assert_eq!(GlyphTable::from_font(&vec![0u8; 0x100 * 8]).len(), 0x5E);
}

#[test]
fn kernel_for_out_of_range_codes_is_none() {
    let table = GlyphTable::from_font(&blank_font(0x21));
    assert!(table.kernel_for(0x1F).is_none());
    assert!(table.kernel_for(0x20).is_some());
    assert!(table.kernel_for(0x21).is_some());
    assert!(table.kernel_for(0x22).is_none());
}

#[test]
fn empty_table_falls_back_to_space() {
    let table = GlyphTable::from_font(&[]);
    let patch = Kernel::from_vals(vec![200; 16]);
    assert_eq!(table.find_closest_char(&patch), 0x20);
}

#[test]
fn ties_break_to_the_lowest_character_code() {
    // Codes 0x20 and 0x21 both fully dark: equal distance to any patch.
    let font = blank_font(0x21);
    let table = GlyphTable::from_font(&font);
    assert_eq!(table.len(), 2);
    let patch = Kernel::from_vals(vec![90; 16]);
    assert_eq!(table.find_closest_char(&patch), 0x20);
}

#[test]
fn closest_glyph_wins() {
    // 0x20 fully dark, 0x21 fully lit.
    let mut font = blank_font(0x21);
    for i in 0x21 * 8..0x22 * 8 {
        font[i] = 0xFF;
    }
    let table = GlyphTable::from_font(&font);
    let dark = Kernel::from_vals(vec![0; 16]);
    let lit = Kernel::from_vals(vec![255; 16]);
    assert_eq!(table.find_closest_char(&dark), 0x20);
    assert_eq!(table.find_closest_char(&lit), 0x21);
}
