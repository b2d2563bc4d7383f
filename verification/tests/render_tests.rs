use asciiart::picture::SourceImage;
use asciiart::subpixel;

// Solid-color RGB image.
fn solid(width: u32, height: u32, value: u8) -> SourceImage {
    SourceImage::new(width, height, vec![value; (3 * width * height) as usize])
}

// Font data where every glyph up to and including `last_code` is dark,
// except the listed codes, whose glyphs are fully lit.
fn font_with_lit(last_code: usize, lit: &[usize]) -> Vec<u8> {
    let mut font = vec![0u8; (last_code + 1) * 8];
    for &code in lit {
        for row in 0..8 {
            font[code * 8 + row] = 0xFF;
        }
    }
    font
}

#[test]
fn black_image_selects_the_blank_space_glyph() {
    // A solid black source against a font whose space glyph is fully blank:
    // the space wins, and trimming leaves the line empty.
    let img = solid(8, 8, 0);
    let font = font_with_lit(0x21, &[0x21]);
    let lines = subpixel::convert(&img, (1, 1), &font, false);
    assert_eq!(lines, vec![String::new()]);
}

#[test]
fn white_image_selects_the_densest_glyph() {
    let img = solid(8, 8, 255);
    let font = font_with_lit(0x40, &[0x40]);
    let lines = subpixel::convert(&img, (1, 1), &font, false);
    assert_eq!(lines, vec!["@".to_string()]);
}

#[test]
fn invert_flag_swaps_dark_and_bright() {
    let font = font_with_lit(0x40, &[0x40]);
    let black = solid(8, 8, 0);
    let lines = subpixel::convert(&black, (1, 1), &font, true);
    assert_eq!(lines, vec!["@".to_string()]);
    let white = solid(8, 8, 255);
    let lines = subpixel::convert(&white, (1, 1), &font, true);
    assert_eq!(lines, vec![String::new()]);
}

#[test]
fn output_size_one_by_one_gives_exactly_one_line() {
    let img = solid(4, 4, 255);
    let font = font_with_lit(0x40, &[0x40]);
    let lines = subpixel::convert(&img, (1, 1), &font, false);
    assert_eq!(lines.len(), 1);
    assert_eq!(lines[0].chars().count(), 1);
}

#[test]
fn emits_exactly_height_lines_of_at_most_width_characters() {
    let img = solid(12, 8, 255);
    let font = font_with_lit(0x40, &[0x40]);
    let lines = subpixel::convert(&img, (3, 2), &font, false);
    assert_eq!(lines.len(), 2);
    for line in &lines {
        assert!(line.chars().count() <= 3);
    }
    // A bright image against a lit glyph: no cell is blank, so no trimming.
    assert_eq!(lines, vec!["@@@".to_string(), "@@@".to_string()]);
}

#[test]
fn rendering_is_deterministic() {
    let mut rgb = Vec::new();
    for i in 0..(3 * 16 * 16) {
        rgb.push((i * 37 % 256) as u8);
    }
    let img = SourceImage::new(16, 16, rgb);
    let font = font_with_lit(0x7E, &[0x23, 0x40, 0x25]);
    let first = subpixel::convert(&img, (4, 4), &font, false);
    let second = subpixel::convert(&img, (4, 4), &font, false);
    assert_eq!(first, second);
}

#[test]
fn trailing_blank_cells_are_trimmed() {
    // Left half white, right half black: the right cell matches the blank
    // space glyph and is trimmed from the line's end.
    let mut rgb = Vec::new();
    for y in 0..8 {
        for x in 0..16 {
            let v = if x < 8 { 255u8 } else { 0u8 };
            rgb.extend_from_slice(&[v, v, v]);
        }
        let _ = y;
    }
    let img = SourceImage::new(16, 8, rgb);
    let font = font_with_lit(0x40, &[0x40]);
    let lines = subpixel::convert(&img, (2, 1), &font, false);
    assert_eq!(lines, vec!["@".to_string()]);
}
