use termglyph::text_manager::{CellBox, TermGlyph, TextManager};

#[test]
fn grid_size_from_window_and_font() {
    let tm = TextManager::new(9, 18, 800, 600, 4);
    assert_eq!(tm.cols, 88);
    assert_eq!(tm.rows, 33);
    assert_eq!(tm.font_width, 9);
    assert_eq!(tm.font_height, 18);
    assert_eq!(tm.window_width, 800);
    assert_eq!(tm.window_height, 600);
    assert_eq!(tm.border_px, 4);
}

#[test]
fn grid_division_rounds_toward_zero() {
    let tm = TextManager::new(10, -20, -25, 45, 0);
    assert_eq!(tm.cols, -2);
    assert_eq!(tm.rows, -2);
    let tm = TextManager::new(i32::MIN, 7, i32::MIN, -15, 0);
    assert_eq!(tm.cols, 1);
    assert_eq!(tm.rows, -2);
}

#[test]
fn set_window_size_recomputes_grid() {
    let mut tm = TextManager::new(8, 16, 100, 100, 2);
    tm.set_window_size(1024, 768);
    assert_eq!(tm.window_width, 1024);
    assert_eq!(tm.window_height, 768);
    assert_eq!(tm.cols, 128);
    assert_eq!(tm.rows, 48);
    assert_eq!(tm.font_width, 8);
    assert_eq!(tm.border_px, 2);
}

#[test]
fn cell_position_is_baseline_of_cell() {
    let tm = TextManager::new(8, 16, 800, 600, 4);
    let p = tm.get_cell_position(0, 0);
    assert_eq!((p.x, p.y), (4, 20));
    let p = tm.get_cell_position(2, 3);
    assert_eq!((p.x, p.y), (28, 52));
}

#[test]
fn cell_box_has_font_size() {
    let tm = TextManager::new(8, 16, 800, 600, 4);
    let CellBox { x, y, width, height } = tm.get_cell_box(1, 5);
    assert_eq!((x, y, width, height), (44, 36, 8, 16));
}

#[test]
fn neighbouring_cells_are_a_font_size_apart() {
    let tm = TextManager::new(7, 15, 800, 600, 3);
    let a = tm.get_cell_position(4, 9);
    let right = tm.get_cell_position(4, 10);
    let below = tm.get_cell_position(5, 9);
    assert_eq!(right.x - a.x, 7);
    assert_eq!(right.y, a.y);
    assert_eq!(below.y - a.y, 15);
    assert_eq!(below.x, a.x);
}

#[test]
fn cell_boxes_of_a_run() {
    let tm = TextManager::new(8, 16, 800, 600, 4);
    let boxes = tm.cell_boxes(1, 2, 3);
    assert_eq!(boxes.len(), 3);
    let coords: Vec<(i32, i32, i32, i32)> = boxes.iter().map(|b| (b.x, b.y, b.width, b.height)).collect();
    assert_eq!(coords, vec![(20, 36, 8, 16), (28, 36, 8, 16), (36, 36, 8, 16)]);
    assert!(tm.cell_boxes(0, 0, 0).is_empty());
}

#[test]
fn term_glyph_is_copy() {
    let g = TermGlyph { char: 'x', fg_color: (1, 2, 3), bg_color: (4, 5, 6) };
    let h = g;
    assert_eq!(g.char, h.char);
    assert_eq!(h.fg_color, (1, 2, 3));
    assert_eq!(h.bg_color, (4, 5, 6));
}

#[test]
fn grid_fills_window_with_whole_cells() {
    for (fw, w) in [(9, 800), (7, 7), (13, 12), (1, 0)] {
        let tm = TextManager::new(fw, 10, w, 100, 0);
        assert!(tm.cols * fw <= w);
        assert!(w < (tm.cols + 1) * fw);
    }
}

#[test]
fn cell_boxes_start_at_negative_columns() {
    let tm = TextManager::new(8, 16, 800, 600, 0);
    let xs: Vec<i32> = tm.cell_boxes(0, -2, 3).iter().map(|b| b.x).collect();
    assert_eq!(xs, vec![-16, -8, 0]);
}
