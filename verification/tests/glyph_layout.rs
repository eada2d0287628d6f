use termglyph::glyph_layout::{glyph_bitmap_layout, glyph_source, GlyphPixelMode, GlyphSource, TextureFormat};

fn dims(mode: Option<GlyphPixelMode>, w: i32, h: i32) -> (i32, i32, bool, TextureFormat) {
    let l = glyph_bitmap_layout(mode, w, h);
    (l.width, l.height, l.is_color, l.format)
}

#[test]
fn every_texture_is_red_with_byte_alignment() {
    assert_eq!(TextureFormat::Red.unpack_alignment(), 1);
    for mode in [
        None,
        Some(GlyphPixelMode::Reserved),
        Some(GlyphPixelMode::Mono),
        Some(GlyphPixelMode::Gray),
        Some(GlyphPixelMode::Gray2),
        Some(GlyphPixelMode::Gray4),
        Some(GlyphPixelMode::Lcd),
        Some(GlyphPixelMode::LcdV),
        Some(GlyphPixelMode::Bgra),
    ] {
        let l = glyph_bitmap_layout(mode, 10, 12);
        assert_eq!(l.format, TextureFormat::Red);
        assert_eq!(l.format.unpack_alignment(), 1);
        assert_eq!(l.height, 12);
    }
}

#[test]
fn gray_bitmap_is_one_byte_per_pixel() {
    assert_eq!(dims(Some(GlyphPixelMode::Gray), 10, 12), (10, 12, false, TextureFormat::Red));
}

#[test]
fn subpixel_bitmaps_keep_their_byte_size() {
    assert_eq!(dims(Some(GlyphPixelMode::Lcd), 30, 12), (30, 12, false, TextureFormat::Red));
    assert_eq!(dims(Some(GlyphPixelMode::LcdV), 10, 36), (10, 36, false, TextureFormat::Red));
}

#[test]
fn bgra_bitmap_is_colour_and_four_bytes_per_pixel() {
    assert_eq!(dims(Some(GlyphPixelMode::Bgra), 64, 64), (256, 64, true, TextureFormat::Red));
}

#[test]
fn packed_gray_modes_round_up_to_whole_bytes() {
    assert_eq!(dims(Some(GlyphPixelMode::Mono), 17, 3).0, 3);
    assert_eq!(dims(Some(GlyphPixelMode::Mono), 16, 3).0, 2);
    assert_eq!(dims(Some(GlyphPixelMode::Gray2), 9, 3).0, 3);
    assert_eq!(dims(Some(GlyphPixelMode::Gray4), 9, 3).0, 5);
    assert_eq!(dims(Some(GlyphPixelMode::Mono), 0, 0).0, 0);
}

#[test]
fn unknown_mode_uses_width_as_is() {
    assert_eq!(dims(None, 5, 6), (5, 6, false, TextureFormat::Red));
}

#[test]
fn glyph_zero_is_looked_up_by_char() {
    assert_eq!(glyph_source(0, 'q'), GlyphSource::ByChar('q'));
    assert_eq!(glyph_source(17, 'q'), GlyphSource::ById(17));
}
