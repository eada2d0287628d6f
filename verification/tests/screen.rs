use termglyph::screen::{build_term_glyphs, expand_color_runs, next_font_size, rows_to_draw, FontSizeKey};

const GREEN: (u8, u8, u8) = (87, 211, 109);
const WHITE: (u8, u8, u8) = (217, 217, 217);
const BLACK: (u8, u8, u8) = (0, 0, 0);

#[test]
fn color_runs_expand_in_order() {
    let runs = vec![(1, GREEN, BLACK), (2, BLACK, GREEN), (0, WHITE, WHITE), (1, WHITE, BLACK)];
    let colors = expand_color_runs(&runs);
    assert_eq!(colors, vec![(GREEN, BLACK), (BLACK, GREEN), (BLACK, GREEN), (WHITE, BLACK)]);
    assert!(expand_color_runs(&vec![]).is_empty());
}

#[test]
fn status_line_colours_cover_its_text() {
    let runs = vec![(1, GREEN, BLACK), (8, BLACK, GREEN), (1, WHITE, GREEN), (12, BLACK, WHITE), (1, WHITE, BLACK)];
    assert_eq!(expand_color_runs(&runs).len(), 23);
}

#[test]
fn glyphs_take_colours_then_fallback() {
    let chars = vec!['a', 'b', 'c'];
    let colors = vec![(GREEN, BLACK)];
    let glyphs = build_term_glyphs(&chars, &colors, (WHITE, BLACK));
    assert_eq!(glyphs.len(), 3);
    assert_eq!((glyphs[0].char, glyphs[0].fg_color, glyphs[0].bg_color), ('a', GREEN, BLACK));
    assert_eq!((glyphs[1].char, glyphs[1].fg_color, glyphs[1].bg_color), ('b', WHITE, BLACK));
    assert_eq!((glyphs[2].char, glyphs[2].fg_color, glyphs[2].bg_color), ('c', WHITE, BLACK));
}

#[test]
fn extra_colours_are_unused() {
    let glyphs = build_term_glyphs(&vec!['x'], &vec![(GREEN, BLACK), (BLACK, GREEN)], (WHITE, BLACK));
    assert_eq!(glyphs.len(), 1);
    assert_eq!(glyphs[0].bg_color, BLACK);
}

#[test]
fn first_and_odd_rows_are_drawn() {
    assert_eq!(rows_to_draw(6), vec![0, 1, 3, 5]);
    assert_eq!(rows_to_draw(1), vec![0]);
    assert!(rows_to_draw(0).is_empty());
    assert!(rows_to_draw(-3).is_empty());
}

#[test]
fn font_size_keys() {
    assert_eq!(next_font_size(16, FontSizeKey::Increase), 17);
    assert_eq!(next_font_size(16, FontSizeKey::Decrease), 15);
    assert_eq!(next_font_size(3, FontSizeKey::Decrease), 2);
    assert_eq!(next_font_size(2, FontSizeKey::Decrease), 2);
    assert_eq!(next_font_size(16, FontSizeKey::Other), 16);
}
