use vstd::prelude::*;

use crate::text_manager::{abs, trunc_div};

verus! {

/// The face variant a run of text is drawn with.
#[derive(Debug, Clone, Copy, PartialEq, Eq, Structural)]
pub enum FontStyle {
    Regular,
    Bold,
    Italic,
    ItalicBold,
}

/// The resolution at which character sizes are set when none is given.
pub const DEFAULT_DPI: u32 = 96;

/// How far a fixed bitmap size of `width` pixels is from `pixel_size`.
pub open spec fn size_distance(pixel_size: isize, width: i16) -> int {
    abs(pixel_size - width)
}

/// `(pixel_size - width).abs()` can be computed in `isize`.
pub open spec fn size_distance_defined(pixel_size: isize, width: i16) -> bool {
    isize::MIN < pixel_size - width <= isize::MAX
}

/// Of the fixed bitmap sizes of a colour font, given by their widths, the
/// one closest to `pixel_size`; the first of them on a tie. `None` when the
/// font has no fixed sizes.
pub fn best_fixed_size_index(pixel_size: isize, widths: &Vec<i16>) -> (res: Option<usize>)
    requires
        forall|i: int| 0 <= i < widths@.len() ==> size_distance_defined(pixel_size, #[trigger] widths@[i]),
    ensures
        res is None <==> widths@.len() == 0,
        res matches Some(best) ==> {
            &&& best < widths@.len()
            &&& forall|j: int| 0 <= j < widths@.len()
                ==> size_distance(pixel_size, widths@[best as int]) <= size_distance(pixel_size, #[trigger] widths@[j])
            &&& forall|j: int| 0 <= j < best
                ==> size_distance(pixel_size, widths@[best as int]) < size_distance(pixel_size, #[trigger] widths@[j])
        },
{
    let n = widths.len();
    if n == 0 {
        return None;
    }
    let mut best_diff: isize = isize::MAX;
    let mut best_match_index: usize = 0;
    let mut i: usize = 0;
    while i < n
        invariant
            n == widths@.len(),
            n > 0,
            i <= n,
            best_match_index < n,
            forall|k: int| 0 <= k < n ==> size_distance_defined(pixel_size, #[trigger] widths@[k]),
            i > 0 ==> best_match_index < i,
            i > 0 ==> best_diff == size_distance(pixel_size, widths@[best_match_index as int]),
            i == 0 ==> best_match_index == 0 && best_diff == isize::MAX,
            forall|j: int| 0 <= j < i ==> best_diff <= size_distance(pixel_size, #[trigger] widths@[j]),
            forall|j: int| 0 <= j < best_match_index ==> best_diff < size_distance(pixel_size, #[trigger] widths@[j]),
        decreases n - i,
    {
        let d: isize = pixel_size - widths[i] as isize;
        let diff: isize = if d < 0 { -d } else { d };
        if diff < best_diff {
            best_diff = diff;
            best_match_index = i;
        }
        i = i + 1;
    }
    Some(best_match_index)
}

/// A glyph lookup that found a glyph: a glyph index other than 0.
pub open spec fn glyph_hit(id: Option<u32>) -> bool {
    id matches Some(g) && g != 0
}

/// Given the glyph index that each registered font gives a character, in
/// registration order, the first real glyph and the font it comes from.
pub fn first_glyph_match(ids: &Vec<Option<u32>>) -> (res: Option<(u32, usize)>)
    ensures
        res matches Some((g, k)) ==> {
            &&& k < ids@.len()
            &&& ids@[k as int] == Some(g)
            &&& g != 0
            &&& forall|j: int| 0 <= j < k ==> !glyph_hit(#[trigger] ids@[j])
        },
        res is None ==> forall|j: int| 0 <= j < ids@.len() ==> !glyph_hit(#[trigger] ids@[j]),
{
    let n = ids.len();
    let mut i: usize = 0;
    while i < n
        invariant
            n == ids@.len(),
            i <= n,
            forall|j: int| 0 <= j < i ==> !glyph_hit(#[trigger] ids@[j]),
        decreases n - i,
    {
        if let Some(glyph_id) = ids[i] {
            if glyph_id != 0 {
                return Some((glyph_id, i));
            }
        }
        i = i + 1;
    }
    None
}

/// Given whether a glyph loaded from each font tried, in registration
/// order, the font it is taken from: the first that loaded it.
pub fn first_loaded_font(loaded: &Vec<bool>) -> (res: Option<usize>)
    ensures
        res matches Some(k) ==> {
            &&& k < loaded@.len()
            &&& loaded@[k as int]
            &&& forall|j: int| 0 <= j < k ==> !#[trigger] loaded@[j]
        },
        res is None ==> forall|j: int| 0 <= j < loaded@.len() ==> !#[trigger] loaded@[j],
{
    let n = loaded.len();
    let mut i: usize = 0;
    while i < n
        invariant
            n == loaded@.len(),
            i <= n,
            forall|j: int| 0 <= j < i ==> !#[trigger] loaded@[j],
        decreases n - i,
    {
        if loaded[i] {
            return Some(i);
        }
        i = i + 1;
    }
    None
}

/// The resolution `dpi` stands for: the given one, or 96.
pub open spec fn dpi_or_default(dpi: Option<u32>) -> u32 {
    match dpi {
        Some(d) => d,
        None => DEFAULT_DPI,
    }
}

/// The size in pixels of `char_size` points at `dpi` dots per inch, rounded
/// toward zero.
pub open spec fn pixel_size_of(char_size: int, dpi: int) -> int {
    trunc_div(char_size * dpi, 72)
}

/// How fonts are set to a size of `char_size` points at `dpi` (96 by
/// default): the character size in 26.6 fixed point for scalable fonts,
/// the resolution, and the size in pixels that a colour font's fixed bitmap
/// size is chosen by.
pub fn char_size_setting(char_size: isize, dpi: Option<u32>) -> (res: (isize, u32, isize))
    requires
        isize::MIN <= char_size * 64 <= isize::MAX,
        isize::MIN <= pixel_size_of(char_size as int, dpi_or_default(dpi) as int) <= isize::MAX,
    ensures
        res.0 == char_size * 64,
        res.1 == dpi_or_default(dpi),
        res.2 == pixel_size_of(char_size as int, dpi_or_default(dpi) as int),
{
    let dpi = match dpi {
        Some(d) => d,
        None => DEFAULT_DPI,
    };
    let points = char_size as i128;
    let dots = points * (dpi as i128);
    let pixels = dots / 72;
    if dots >= 0 {
        assert(pixels == trunc_div(dots as int, 72));
    } else {
        assert(pixels == -((-dots) as int / 72));
        assert(pixels == trunc_div(dots as int, 72));
    }
    (char_size * 64, dpi, pixels as isize)
}

} // verus!
