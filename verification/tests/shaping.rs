use termglyph::shaping::{pair_shaped, TextShaper};

/// A font with only the three tables a face needs (`head`, `hhea`,
/// `maxp`), 1000 units per em and one glyph, no character map.
fn minimal_font() -> Vec<u8> {
    let mut font = Vec::new();
    font.extend_from_slice(&[0, 1, 0, 0, 0, 3, 0, 0, 0, 0, 0, 0]);
    let tables: [(&[u8; 4], u32, u32); 3] = [(b"head", 60, 54), (b"hhea", 114, 36), (b"maxp", 150, 6)];
    for (tag, offset, len) in tables.iter() {
        font.extend_from_slice(*tag);
        font.extend_from_slice(&[0, 0, 0, 0]);
        font.extend_from_slice(&offset.to_be_bytes());
        font.extend_from_slice(&len.to_be_bytes());
    }
    let mut head = vec![0u8; 54];
    head[0..4].copy_from_slice(&[0, 1, 0, 0]);
    head[12..16].copy_from_slice(&[0x5F, 0x0F, 0x3C, 0xF5]);
    head[18..20].copy_from_slice(&1000u16.to_be_bytes());
    font.extend_from_slice(&head);
    let mut hhea = vec![0u8; 36];
    hhea[0..4].copy_from_slice(&[0, 1, 0, 0]);
    font.extend_from_slice(&hhea);
    font.extend_from_slice(&[0, 0, 0x50, 0, 0, 1]);
    font
}

#[test]
fn garbage_is_not_a_font() {
    assert!(TextShaper::new(vec![1, 2, 3]).is_none());
    assert!(TextShaper::new(vec![]).is_none());
}

#[test]
fn minimal_font_parses() {
    let shaper = TextShaper::new(minimal_font()).expect("minimal font parses");
    assert_eq!(shaper.units_per_em(), 1000);
}

#[test]
fn shaped_glyphs_pair_with_their_characters() {
    let shaper = TextShaper::new(minimal_font()).expect("minimal font parses");
    let glyphs = shaper.shape_text(&vec!['a', 'b', 'c']);
    assert_eq!(glyphs.len(), 3);
    let chars: Vec<char> = glyphs.iter().map(|g| g.char).collect();
    assert_eq!(chars, vec!['a', 'b', 'c']);
    // Without a character map every character maps to glyph 0.
    assert!(glyphs.iter().all(|g| g.glyph_id == 0));
}

#[test]
fn text_without_latin_letters_does_not_fit_the_plan() {
    let shaper = TextShaper::new(minimal_font()).expect("minimal font parses");
    assert!(shaper.try_shape_text(&vec![]).is_none());
    assert!(shaper.try_shape_text(&vec!['1', '2', ' ']).is_none());
    assert!(shaper.try_shape_text(&vec!['\u{5d0}', '\u{5d1}']).is_none());
}

#[test]
fn latin_text_fits_the_plan() {
    let shaper = TextShaper::new(minimal_font()).expect("minimal font parses");
    let glyphs = shaper.try_shape_text(&" NORMAL  17:09".chars().collect()).expect("Latin text shapes");
    assert_eq!(glyphs.len(), 14);
    assert_eq!(glyphs[1].char, 'N');
    assert_eq!(glyphs[13].char, '9');
}

#[test]
fn pairing_stops_at_the_shorter_side() {
    let shaped = vec![(5, 600, 0, 10, -20), (6, 500, 0, 0, 0)];
    let glyphs = pair_shaped(&shaped, &vec!['x', 'y', 'z']);
    assert_eq!(glyphs.len(), 2);
    assert_eq!(
        (glyphs[0].glyph_id, glyphs[0].char, glyphs[0].x_advance, glyphs[0].y_advance, glyphs[0].x_offset, glyphs[0].y_offset),
        (5, 'x', 600, 0, 10, -20)
    );
    assert_eq!((glyphs[1].glyph_id, glyphs[1].char, glyphs[1].x_advance), (6, 'y', 500));
    assert_eq!(pair_shaped(&shaped, &vec!['q']).len(), 1);
}

#[test]
fn units_per_em_outside_head_range_does_not_parse() {
    let mut font = minimal_font();
    // unitsPerEm sits 18 bytes into the head table, which starts at 60.
    font[78..80].copy_from_slice(&8u16.to_be_bytes());
    assert!(TextShaper::new(font).is_none());
}
