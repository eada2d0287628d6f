use vstd::prelude::*;

verus! {

/// One character cell of terminal output with its colours.
#[derive(Clone, Copy)]
pub struct TermGlyph {
    pub char: char,
    pub fg_color: (u8, u8, u8),
    pub bg_color: (u8, u8, u8),
}

/// The baseline origin of a cell, in window pixels.
pub struct CellPosition {
    pub x: i32,
    pub y: i32,
}

/// A cell's baseline origin and its size, in window pixels.
pub struct CellBox {
    pub x: i32,
    pub y: i32,
    pub width: i32,
    pub height: i32,
}

pub open spec fn abs(a: int) -> int {
    if a < 0 { -a } else { a }
}

/// Integer division rounding toward zero, as Rust's `/` on signed integers.
pub open spec fn trunc_div(a: int, b: int) -> int {
    let q = abs(a) / abs(b);
    if (a < 0) == (b < 0) { q } else { -q }
}

/// The `i32` division `a / b`, which Rust performs without panicking on
/// exactly these inputs.
pub open spec fn div_defined(a: i32, b: i32) -> bool {
    b != 0 && !(a == i32::MIN && b == -1)
}

fn div_toward_zero(a: i32, b: i32) -> (r: i32)
    requires
        div_defined(a, b),
    ensures
        r == trunc_div(a as int, b as int),
{
    if b > 0 {
        let q = a / b;
        if a >= 0 {
            assert(q == trunc_div(a as int, b as int));
        } else {
            assert(q == -((-a) as int / b as int));
            assert(q == trunc_div(a as int, b as int));
        }
        q
    } else if b == i32::MIN {
        if a == i32::MIN {
            1
        } else {
            assert(abs(a as int) / abs(b as int) == 0) by (nonlinear_arith)
                requires abs(a as int) < abs(b as int), abs(a as int) >= 0;
            0
        }
    } else if b == -1 {
        assert(abs(a as int) / 1 == abs(a as int));
        assert(-a == trunc_div(a as int, b as int));
        -a
    } else {
        let nb: i32 = -b;
        let q = a / nb;
        if a >= 0 {
            assert(q == trunc_div(a as int, nb as int));
        } else {
            assert(q == -((-a) as int / nb as int));
        }
        assert(abs(a as int) / abs(nb as int) <= abs(a as int) / 2) by (nonlinear_arith)
            requires abs(nb as int) >= 2, abs(a as int) >= 0;
        assert(-q == trunc_div(a as int, b as int));
        -q
    }
}

pub open spec fn in_i32(v: int) -> bool {
    i32::MIN <= v <= i32::MAX
}

/// Maps terminal rows and columns to window pixels for a monospace font.
pub struct TextManager {
    pub font_width: i32,
    pub font_height: i32,
    pub window_width: i32,
    pub window_height: i32,
    pub rows: i32,
    pub cols: i32,
    pub border_px: i32,
}

impl TextManager {
    /// The x coordinate of column `col`.
    pub open spec fn cell_x(&self, col: int) -> int {
        col * self.font_width + self.border_px
    }

    /// The baseline y coordinate of row `row`: one font height below the
    /// row's top edge.
    pub open spec fn cell_y(&self, row: int) -> int {
        row * self.font_height + self.font_height + self.border_px
    }

    /// The arithmetic of [`TextManager::get_cell_position`] stays within
    /// `i32` at every step.
    pub open spec fn cell_fits(&self, row: int, col: int) -> bool {
        &&& in_i32(col * self.font_width)
        &&& in_i32(self.cell_x(col))
        &&& in_i32(row * self.font_height)
        &&& in_i32(row * self.font_height + self.font_height)
        &&& in_i32(self.cell_y(row))
    }

    /// A grid of `window_width / font_width` columns and
    /// `window_height / font_height` rows.
    pub fn new(
        font_width: i32,
        font_height: i32,
        window_width: i32,
        window_height: i32,
        border_px: i32,
    ) -> (res: Self)
        requires
            div_defined(window_width, font_width),
            div_defined(window_height, font_height),
        ensures
            res.font_width == font_width,
            res.font_height == font_height,
            res.window_width == window_width,
            res.window_height == window_height,
            res.border_px == border_px,
            res.cols == trunc_div(window_width as int, font_width as int),
            res.rows == trunc_div(window_height as int, font_height as int),
    {
        let cols = div_toward_zero(window_width, font_width);
        let rows = div_toward_zero(window_height, font_height);

        TextManager { font_width, font_height, window_width, window_height, rows, cols, border_px }
    }

    /// Records a new window size and recomputes the grid from it.
    pub fn set_window_size(&mut self, width: i32, height: i32)
        requires
            div_defined(width, old(self).font_width),
            div_defined(height, old(self).font_height),
        ensures
            final(self).font_width == old(self).font_width,
            final(self).font_height == old(self).font_height,
            final(self).border_px == old(self).border_px,
            final(self).window_width == width,
            final(self).window_height == height,
            final(self).cols == trunc_div(width as int, old(self).font_width as int),
            final(self).rows == trunc_div(height as int, old(self).font_height as int),
    {
        let cols = div_toward_zero(width, self.font_width);
        let rows = div_toward_zero(height, self.font_height);

        self.window_width = width;
        self.window_height = height;
        self.rows = rows;
        self.cols = cols;
    }

    /// The baseline origin of the cell at `row`, `col`.
    pub fn get_cell_position(&self, row: i32, col: i32) -> (res: CellPosition)
        requires
            self.cell_fits(row as int, col as int),
        ensures
            res.x == self.cell_x(col as int),
            res.y == self.cell_y(row as int),
    {
        let x = col * self.font_width + self.border_px;
        // The y coordinate is the baseline, one font height below the top of
        // the cell, so that the text fits within the cell.
        let y = row * self.font_height + self.font_height + self.border_px;

        CellPosition { x, y }
    }

    /// The cell at `row`, `col`: its baseline origin and the font size.
    pub fn get_cell_box(&self, row: i32, col: i32) -> (res: CellBox)
        requires
            self.cell_fits(row as int, col as int),
        ensures
            res.x == self.cell_x(col as int),
            res.y == self.cell_y(row as int),
            res.width == self.font_width,
            res.height == self.font_height,
    {
        let CellPosition { x, y } = self.get_cell_position(row, col);

        CellBox { x, y, width: self.font_width, height: self.font_height }
    }

    /// The column of the `k`-th glyph of a run starting at `col`: the run
    /// index is taken as an `i32`, wrapping as an `as` cast does.
    pub open spec fn run_column(col: i32, k: int) -> int {
        col + (k as i32)
    }

    /// The cells of `count` consecutive glyphs starting at `row`, `col`, as
    /// cleared for their background colours.
    pub fn cell_boxes(&self, row: i32, col: i32, count: usize) -> (res: Vec<CellBox>)
        requires
            forall|k: int| 0 <= k < count ==> in_i32(#[trigger] Self::run_column(col, k)),
            forall|k: int| 0 <= k < count ==> self.cell_fits(row as int, #[trigger] Self::run_column(col, k)),
        ensures
            res@.len() == count,
            forall|k: int| 0 <= k < count ==> {
                &&& (#[trigger] res@[k]).x == self.cell_x(Self::run_column(col, k))
                &&& res@[k].y == self.cell_y(row as int)
                &&& res@[k].width == self.font_width
                &&& res@[k].height == self.font_height
            },
    {
        let mut boxes: Vec<CellBox> = Vec::new();
        let mut i: usize = 0;
        while i < count
            invariant
                i <= count,
                forall|k: int| 0 <= k < count ==> in_i32(#[trigger] Self::run_column(col, k)),
                forall|k: int| 0 <= k < count ==> self.cell_fits(row as int, #[trigger] Self::run_column(col, k)),
                boxes@.len() == i,
                forall|k: int| 0 <= k < i ==> {
                    &&& (#[trigger] boxes@[k]).x == self.cell_x(Self::run_column(col, k))
                    &&& boxes@[k].y == self.cell_y(row as int)
                    &&& boxes@[k].width == self.font_width
                    &&& boxes@[k].height == self.font_height
                },
            decreases count - i,
        {
            let offset: i32 = #[verifier::truncate] (i as i32);
            assert(offset == (i as int) as i32);
            assert(in_i32(Self::run_column(col, i as int)));
            let c: i32 = col + offset;
            assert(self.cell_fits(row as int, Self::run_column(col, i as int)));
            boxes.push(self.get_cell_box(row, c));
            i = i + 1;
        }
        boxes
    }
}

/// Horizontally neighbouring cells are one font width apart, vertically
/// neighbouring cells one font height apart.
pub proof fn lemma_cell_grid_spacing(tm: TextManager, row: int, col: int)
    ensures
        tm.cell_x(col + 1) == tm.cell_x(col) + tm.font_width,
        tm.cell_y(row + 1) == tm.cell_y(row) + tm.font_height,
{
    let fw = tm.font_width as int;
    let fh = tm.font_height as int;
    assert((col + 1) * fw == col * fw + fw) by (nonlinear_arith);
    assert((row + 1) * fh == row * fh + fh) by (nonlinear_arith);
}

/// For a positive font size and window size, the grid's columns fill the
/// window width as far as whole cells go: they fit, and one more would not.
pub proof fn lemma_grid_fits_window(font_width: i32, window_width: i32)
    requires
        font_width > 0,
        window_width >= 0,
    ensures
        trunc_div(window_width as int, font_width as int) * font_width <= window_width,
        window_width < (trunc_div(window_width as int, font_width as int) + 1) * font_width,
{
    let w = window_width as int;
    let f = font_width as int;
    let q = w / f;
    assert(trunc_div(w, f) == q);
    assert(q * f <= w && w < (q + 1) * f) by (nonlinear_arith)
        requires f > 0, w >= 0, q == w / f;
}
} // verus!
