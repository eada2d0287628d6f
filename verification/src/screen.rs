use vstd::prelude::*;

use crate::text_manager::TermGlyph;

verus! {

/// The colours of each character of a run-length description
/// `(length, foreground, background)`, in order.
pub open spec fn run_colors(runs: Seq<(usize, (u8, u8, u8), (u8, u8, u8))>) -> Seq<((u8, u8, u8), (u8, u8, u8))>
    decreases runs.len(),
{
    if runs.len() == 0 {
        Seq::empty()
    } else {
        let (n, fg, bg) = runs.last();
        run_colors(runs.drop_last()) + Seq::new(n as nat, |_k: int| (fg, bg))
    }
}

/// The total length of the runs.
pub open spec fn runs_len(runs: Seq<(usize, (u8, u8, u8), (u8, u8, u8))>) -> int
    decreases runs.len(),
{
    if runs.len() == 0 {
        0
    } else {
        runs_len(runs.drop_last()) + runs.last().0
    }
}

pub proof fn lemma_run_colors_len(runs: Seq<(usize, (u8, u8, u8), (u8, u8, u8))>)
    ensures
        run_colors(runs).len() == runs_len(runs),
        runs_len(runs) >= 0,
    decreases runs.len(),
{
    if runs.len() > 0 {
        lemma_run_colors_len(runs.drop_last());
    }
}

/// Expands run-length colour ranges into one `(foreground, background)`
/// pair per character.
pub fn expand_color_runs(runs: &Vec<(usize, (u8, u8, u8), (u8, u8, u8))>) -> (res: Vec<((u8, u8, u8), (u8, u8, u8))>)
    requires
        runs_len(runs@) <= usize::MAX,
    ensures
        res@ == run_colors(runs@),
{
    let mut result: Vec<((u8, u8, u8), (u8, u8, u8))> = Vec::new();
    let n = runs.len();
    let mut r: usize = 0;
    proof {
        assert(runs@.take(0) =~= Seq::<(usize, (u8, u8, u8), (u8, u8, u8))>::empty());
    }
    while r < n
        invariant
            n == runs@.len(),
            r <= n,
            result@ == run_colors(runs@.take(r as int)),
        decreases n - r,
    {
        let (len, fg_color, bg_color) = runs[r];
        let ghost before = result@;
        let mut k: usize = 0;
        while k < len
            invariant
                k <= len,
                result@ == before + Seq::new(k as nat, |_j: int| (fg_color, bg_color)),
            decreases len - k,
        {
            let ghost prev = result@;
            proof {
                crate::lemma_seq_push(prev, (fg_color, bg_color));
            }
            result.push((fg_color, bg_color));
            proof {
                assert(result@ =~= before + Seq::new((k + 1) as nat, |_j: int| (fg_color, bg_color)));
            }
            k = k + 1;
        }
        proof {
            let taken = runs@.take(r + 1);
            assert(taken.drop_last() =~= runs@.take(r as int));
            assert(taken.last() == (len, fg_color, bg_color));
        }
        r = r + 1;
    }
    proof {
        assert(runs@.take(n as int) =~= runs@);
    }
    result
}

/// Builds the glyphs of a line of text: character `k` takes colour pair
/// `k`, and `fallback` where there are fewer colour pairs than characters.
pub fn build_term_glyphs(
    chars: &Vec<char>,
    colors: &Vec<((u8, u8, u8), (u8, u8, u8))>,
    fallback: ((u8, u8, u8), (u8, u8, u8)),
) -> (res: Vec<TermGlyph>)
    ensures
        res@.len() == chars@.len(),
        forall|k: int| 0 <= k < chars@.len() ==> {
            let pair = if k < colors@.len() { colors@[k] } else { fallback };
            &&& (#[trigger] res@[k]).char == chars@[k]
            &&& res@[k].fg_color == pair.0
            &&& res@[k].bg_color == pair.1
        },
{
    let mut glyphs: Vec<TermGlyph> = Vec::new();
    let n = chars.len();
    let mut i: usize = 0;
    while i < n
        invariant
            n == chars@.len(),
            i <= n,
            glyphs@.len() == i,
            forall|k: int| 0 <= k < i ==> {
                let pair = if k < colors@.len() { colors@[k] } else { fallback };
                &&& (#[trigger] glyphs@[k]).char == chars@[k]
                &&& glyphs@[k].fg_color == pair.0
                &&& glyphs@[k].bg_color == pair.1
            },
        decreases n - i,
    {
        let (fg_color, bg_color) = if i < colors.len() { colors[i] } else { fallback };
        let g = TermGlyph { char: chars[i], fg_color, bg_color };
        proof {
            crate::lemma_seq_push(glyphs@, g);
        }
        glyphs.push(g);
        i = i + 1;
    }
    glyphs
}

/// Whether row `row` of the grid is drawn: the first row and every odd row.
pub open spec fn row_drawn(row: int) -> bool {
    !(row % 2 == 0 && row != 0)
}

/// The drawn rows among `0..rows`, in increasing order.
pub open spec fn drawn_rows(rows: int) -> Seq<i32>
    decreases rows,
{
    if rows <= 0 {
        Seq::empty()
    } else if row_drawn(rows - 1) {
        drawn_rows(rows - 1).push((rows - 1) as i32)
    } else {
        drawn_rows(rows - 1)
    }
}

/// The drawn rows are exactly the first row and the odd rows of the grid,
/// each once, in increasing order.
pub proof fn lemma_drawn_rows_members(rows: int)
    requires
        rows <= i32::MAX,
    ensures
        forall|k: int| 0 <= k < drawn_rows(rows).len() ==> {
            let r = #[trigger] drawn_rows(rows)[k] as int;
            &&& 0 <= r < rows
            &&& row_drawn(r)
        },
        forall|j: int, k: int| 0 <= j < k < drawn_rows(rows).len()
            ==> #[trigger] drawn_rows(rows)[j] < #[trigger] drawn_rows(rows)[k],
        forall|r: int| 0 <= r < rows && row_drawn(r) ==> #[trigger] drawn_rows(rows).contains(r as i32),
    decreases rows,
{
    if rows > 0 {
        lemma_drawn_rows_members(rows - 1);
        let prev = drawn_rows(rows - 1);
        if row_drawn(rows - 1) {
            crate::lemma_seq_push(prev, (rows - 1) as i32);
            let cur = drawn_rows(rows);
            assert(cur == prev.push((rows - 1) as i32));
            assert forall|j: int, k: int| 0 <= j < k < cur.len() implies #[trigger] cur[j] < #[trigger] cur[k] by {
                if k == prev.len() {
                    assert(cur[j] == prev[j]);
                } else {
                    assert(cur[j] == prev[j]);
                    assert(cur[k] == prev[k]);
                }
            }
            assert forall|k: int| 0 <= k < cur.len() implies {
                let r = #[trigger] cur[k] as int;
                &&& 0 <= r < rows
                &&& row_drawn(r)
            } by {
                if k < prev.len() {
                    assert(cur[k] == prev[k]);
                }
            }
            assert forall|r: int| 0 <= r < rows && row_drawn(r) implies #[trigger] drawn_rows(rows).contains(r as i32) by {
                if r < rows - 1 {
                    assert(prev.contains(r as i32));
                    let k = choose|k: int| 0 <= k < prev.len() && prev[k] == r as i32;
                    assert(drawn_rows(rows)[k] == r as i32);
                } else {
                    assert(drawn_rows(rows)[prev.len() as int] == r as i32);
                }
            }
        } else {
            assert forall|r: int| 0 <= r < rows && row_drawn(r) implies #[trigger] drawn_rows(rows).contains(r as i32) by {
                assert(r < rows - 1);
                assert(prev.contains(r as i32));
            }
        }
    }
}

/// The rows drawn, by parity: row `r` of the grid is drawn exactly when it
/// is the first row or an odd row; the rows come in increasing order.
pub proof fn lemma_drawn_rows_parity(rows: int)
    requires
        rows <= i32::MAX,
    ensures
        forall|r: int| 0 <= r < rows ==> (#[trigger] drawn_rows(rows).contains(r as i32) <==> (r == 0 || r % 2 == 1)),
        forall|k: int| 0 <= k < drawn_rows(rows).len() ==> 0 <= #[trigger] drawn_rows(rows)[k] < rows,
        forall|j: int, k: int| 0 <= j < k < drawn_rows(rows).len()
            ==> #[trigger] drawn_rows(rows)[j] < #[trigger] drawn_rows(rows)[k],
{
    lemma_drawn_rows_members(rows);
    let d = drawn_rows(rows);
    assert forall|r: int| 0 <= r < rows implies (#[trigger] d.contains(r as i32) <==> (r == 0 || r % 2 == 1)) by {
        if d.contains(r as i32) {
            let k = choose|k: int| 0 <= k < d.len() && d[k] == r as i32;
            assert(row_drawn(d[k] as int));
        }
    }
}

/// The rows of a grid of `rows` rows that the text is drawn on.
pub fn rows_to_draw(rows: i32) -> (res: Vec<i32>)
    ensures
        res@ == drawn_rows(rows as int),
        forall|r: int| 0 <= r < rows ==> (#[trigger] res@.contains(r as i32) <==> (r == 0 || r % 2 == 1)),
        forall|k: int| 0 <= k < res@.len() ==> 0 <= #[trigger] res@[k] < rows,
        forall|j: int, k: int| 0 <= j < k < res@.len() ==> #[trigger] res@[j] < #[trigger] res@[k],
{
    proof {
        lemma_drawn_rows_parity(rows as int);
    }
    let mut result: Vec<i32> = Vec::new();
    let mut row: i32 = 0;
    if rows <= 0 {
        return result;
    }
    while row < rows
        invariant
            0 <= row <= rows,
            result@ == drawn_rows(row as int),
        decreases rows - row,
    {
        if row % 2 == 0 && row != 0 {
        } else {
            result.push(row);
        }
        row = row + 1;
    }
    result
}

/// A key that changes the font size.
#[derive(Debug, Clone, Copy, PartialEq, Eq, Structural)]
pub enum FontSizeKey {
    /// The `=` key.
    Increase,
    /// The `-` key.
    Decrease,
    /// Any other key.
    Other,
}

/// The smallest font size that `-` steps down to.
pub const MIN_FONT_SIZE: u32 = 2;

/// The font size after a key press: one larger on `=`, one smaller on `-`
/// unless that would go below 2, unchanged otherwise.
pub fn next_font_size(current: u32, key: FontSizeKey) -> (res: u32)
    requires
        key == FontSizeKey::Increase ==> current < u32::MAX,
    ensures
        res == match key {
            FontSizeKey::Increase => current + 1,
            FontSizeKey::Decrease => if current > MIN_FONT_SIZE { (current - 1) as int } else { current as int },
            FontSizeKey::Other => current as int,
        },
{
    match key {
        FontSizeKey::Increase => current + 1,
        FontSizeKey::Decrease => if current > MIN_FONT_SIZE { current - 1 } else { current },
        FontSizeKey::Other => current,
    }
}

} // verus!
