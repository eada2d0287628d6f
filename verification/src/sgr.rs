use vstd::prelude::*;

use crate::ansi_parser::{default_style, Color, Style};
use crate::font_registry::FontStyle;

verus! {

/// The fields of `s` between `;` separators, as `str::split(';')` yields
/// them: an empty text has one empty field, and a trailing `;` adds an
/// empty field.
pub open spec fn fields_of(s: Seq<char>) -> Seq<Seq<char>>
    decreases s.len(),
{
    if s.len() == 0 {
        seq![Seq::empty()]
    } else {
        let prev = fields_of(s.drop_last());
        if s.last() == ';' {
            prev.push(Seq::empty())
        } else {
            prev.update(prev.len() - 1, prev.last().push(s.last()))
        }
    }
}

pub open spec fn is_digit(c: char) -> bool {
    48 <= (c as u32) && (c as u32) <= 57
}

pub open spec fn all_digits(d: Seq<char>) -> bool {
    forall|i: int| 0 <= i < d.len() ==> #[trigger] is_digit(d[i])
}

/// The decimal value of a run of digits.
pub open spec fn digits_value(d: Seq<char>) -> int
    decreases d.len(),
{
    if d.len() == 0 {
        0
    } else {
        digits_value(d.drop_last()) * 10 + ((d.last() as u32) - 48)
    }
}

/// A field without the one leading `+` that `u16::from_str` accepts.
pub open spec fn unsigned_digits(f: Seq<char>) -> Seq<char> {
    if f.len() > 0 && f[0] == '+' {
        f.skip(1)
    } else {
        f
    }
}

/// `u16::from_str` on a field: an optional `+`, then one or more decimal
/// digits whose value fits in 16 bits.
pub open spec fn parse_u16_spec(f: Seq<char>) -> Option<u16> {
    let d = unsigned_digits(f);
    if d.len() > 0 && all_digits(d) && digits_value(d) <= 65535 {
        Some(digits_value(d) as u16)
    } else {
        None
    }
}

/// A parameter field's number; a field that is not a number counts as 0.
pub open spec fn param_value(f: Seq<char>) -> u16 {
    match parse_u16_spec(f) {
        Some(v) => v,
        None => 0,
    }
}

/// The most SGR parameters one sequence is read for.
pub const MAX_SGR_PARAMS: usize = 16;

pub open spec fn cap_params(p: Seq<u16>) -> Seq<u16> {
    if p.len() <= MAX_SGR_PARAMS {
        p
    } else {
        p.take(MAX_SGR_PARAMS as int)
    }
}

pub open spec fn field_values(fields: Seq<Seq<char>>) -> Seq<u16> {
    fields.map_values(|f: Seq<char>| param_value(f))
}

/// The numeric parameters of an SGR sequence: the first sixteen fields.
pub open spec fn sgr_codes(s: Seq<char>) -> Seq<u16> {
    cap_params(field_values(fields_of(s)))
}

pub open spec fn with_fg(s: Style, c: Color) -> Style {
    Style { fg: c, bg: s.bg, font_style: s.font_style }
}

pub open spec fn with_bg(s: Style, c: Color) -> Style {
    Style { fg: s.fg, bg: c, font_style: s.font_style }
}

pub open spec fn with_font(s: Style, f: FontStyle) -> Style {
    Style { fg: s.fg, bg: s.bg, font_style: f }
}

/// The colour that an extended colour parameter (`38` or `48` at `p[0]`)
/// selects, and how many parameters it takes: `5;n` picks palette entry `n`,
/// `2;r;g;b` picks an RGB colour. Values wrap to eight bits.
pub open spec fn extended_color(p: Seq<u16>) -> Option<(Color, nat)> {
    if p.len() > 2 && p[1] == 5 {
        Some((Color::Indexed((p[2] % 256) as u8), 3))
    } else if p.len() > 4 && p[1] == 2 {
        Some((Color::Rgb((p[2] % 256) as u8, (p[3] % 256) as u8, (p[4] % 256) as u8), 5))
    } else {
        None
    }
}

/// The effect of the parameter at the head of `p` on `style`, and how many
/// parameters it consumes.
pub open spec fn sgr_step(style: Style, p: Seq<u16>) -> (Style, nat) {
    let n = p[0];
    if n == 0 {
        (default_style(), 1)
    } else if n == 1 {
        (with_font(style, if style.font_style == FontStyle::Italic { FontStyle::ItalicBold } else { FontStyle::Bold }), 1)
    } else if n == 3 {
        (with_font(style, if style.font_style == FontStyle::Bold { FontStyle::ItalicBold } else { FontStyle::Italic }), 1)
    } else if n == 39 {
        (with_fg(style, Color::Default), 1)
    } else if n == 49 {
        (with_bg(style, Color::Default), 1)
    } else if 30 <= n && n <= 37 {
        (with_fg(style, Color::Indexed((n - 30) as u8)), 1)
    } else if 90 <= n && n <= 97 {
        (with_fg(style, Color::Indexed((n - 90 + 8) as u8)), 1)
    } else if 40 <= n && n <= 47 {
        (with_bg(style, Color::Indexed((n - 40) as u8)), 1)
    } else if 100 <= n && n <= 107 {
        (with_bg(style, Color::Indexed((n - 100 + 8) as u8)), 1)
    } else if n == 38 || n == 48 {
        match extended_color(p) {
            Some((c, k)) => (if n == 38 { with_fg(style, c) } else { with_bg(style, c) }, k),
            None => (style, 1),
        }
    } else {
        (style, 1)
    }
}

/// The style after applying the SGR parameters `p` in order.
pub open spec fn apply_codes(style: Style, p: Seq<u16>) -> Style
    decreases p.len(),
{
    if p.len() == 0 {
        style
    } else {
        let (next, k) = sgr_step(style, p);
        if 1 <= k <= p.len() {
            apply_codes(next, p.skip(k as int))
        } else {
            next
        }
    }
}

/// The style after the SGR sequence whose parameter text is `params`.
pub open spec fn apply_sgr_spec(style: Style, params: Seq<char>) -> Style {
    apply_codes(style, sgr_codes(params))
}

pub proof fn lemma_sgr_step_bounds(style: Style, p: Seq<u16>)
    requires
        p.len() > 0,
    ensures
        1 <= sgr_step(style, p).1 <= p.len(),
{
}

/// `38;2;r;g;b` selects the RGB foreground `(r, g, b)` and `48;2;r;g;b`
/// the RGB background, leaving the rest of the style; the parameters after
/// them apply to the result.
pub proof fn lemma_rgb_color_params(style: Style, r: u8, g: u8, b: u8, rest: Seq<u16>)
    ensures
        apply_codes(style, seq![38u16, 2u16, r as u16, g as u16, b as u16] + rest)
            == apply_codes(Style { fg: Color::Rgb(r, g, b), bg: style.bg, font_style: style.font_style }, rest),
        apply_codes(style, seq![48u16, 2u16, r as u16, g as u16, b as u16] + rest)
            == apply_codes(Style { fg: style.fg, bg: Color::Rgb(r, g, b), font_style: style.font_style }, rest),
{
    let fg = seq![38u16, 2u16, r as u16, g as u16, b as u16] + rest;
    let bg = seq![48u16, 2u16, r as u16, g as u16, b as u16] + rest;
    assert(fg.skip(5) =~= rest);
    assert(bg.skip(5) =~= rest);
    assert(fg[0] == 38u16 && fg[1] == 2u16 && fg[2] == r as u16 && fg[3] == g as u16 && fg[4] == b as u16);
    assert(bg[0] == 48u16 && bg[1] == 2u16 && bg[2] == r as u16 && bg[3] == g as u16 && bg[4] == b as u16);
    assert(((r as u16) % 256) as u8 == r);
    assert(((g as u16) % 256) as u8 == g);
    assert(((b as u16) % 256) as u8 == b);
}

/// `38;5;i` selects palette entry `i` as foreground and `48;5;i` as
/// background, leaving the rest of the style.
pub proof fn lemma_palette_color_params(style: Style, i: u8, rest: Seq<u16>)
    ensures
        apply_codes(style, seq![38u16, 5u16, i as u16] + rest)
            == apply_codes(Style { fg: Color::Indexed(i), bg: style.bg, font_style: style.font_style }, rest),
        apply_codes(style, seq![48u16, 5u16, i as u16] + rest)
            == apply_codes(Style { fg: style.fg, bg: Color::Indexed(i), font_style: style.font_style }, rest),
{
    let fg = seq![38u16, 5u16, i as u16] + rest;
    let bg = seq![48u16, 5u16, i as u16] + rest;
    assert(fg.skip(3) =~= rest);
    assert(bg.skip(3) =~= rest);
    assert(fg[0] == 38u16 && fg[1] == 5u16 && fg[2] == i as u16);
    assert(bg[0] == 48u16 && bg[1] == 5u16 && bg[2] == i as u16);
    assert(((i as u16) % 256) as u8 == i);
}

/// What each single-parameter SGR code does to a style, the parameters
/// after it applying to the result:
/// `0` resets; `1` adds bold and `3` adds italic (bold on an italic-only
/// style, or italic on a bold-only one, gives italic bold); `39` and `49`
/// restore the default foreground and background.
pub proof fn lemma_single_code_params(style: Style, n: u16, rest: Seq<u16>)
    ensures
        n == 0 ==> apply_codes(style, seq![n] + rest)
            == apply_codes(Style { fg: Color::Default, bg: Color::Default, font_style: FontStyle::Regular }, rest),
        n == 1 ==> apply_codes(style, seq![n] + rest) == apply_codes(Style {
            fg: style.fg,
            bg: style.bg,
            font_style: if style.font_style == FontStyle::Italic { FontStyle::ItalicBold } else { FontStyle::Bold },
        }, rest),
        n == 3 ==> apply_codes(style, seq![n] + rest) == apply_codes(Style {
            fg: style.fg,
            bg: style.bg,
            font_style: if style.font_style == FontStyle::Bold { FontStyle::ItalicBold } else { FontStyle::Italic },
        }, rest),
        n == 39 ==> apply_codes(style, seq![n] + rest)
            == apply_codes(Style { fg: Color::Default, bg: style.bg, font_style: style.font_style }, rest),
        n == 49 ==> apply_codes(style, seq![n] + rest)
            == apply_codes(Style { fg: style.fg, bg: Color::Default, font_style: style.font_style }, rest),
{
    let p = seq![n] + rest;
    assert(p.skip(1) =~= rest);
    assert(p[0] == n);
}

/// `30 + k` and `90 + k` select foreground palette entries `k` and `k + 8`;
/// `40 + k` and `100 + k` the same background entries; the rest of the
/// style is left as it is.
pub proof fn lemma_palette_codes(style: Style, k: u8, rest: Seq<u16>)
    requires
        k < 8,
    ensures
        apply_codes(style, seq![(30 + k) as u16] + rest)
            == apply_codes(Style { fg: Color::Indexed(k), bg: style.bg, font_style: style.font_style }, rest),
        apply_codes(style, seq![(90 + k) as u16] + rest)
            == apply_codes(Style { fg: Color::Indexed((k + 8) as u8), bg: style.bg, font_style: style.font_style }, rest),
        apply_codes(style, seq![(40 + k) as u16] + rest)
            == apply_codes(Style { fg: style.fg, bg: Color::Indexed(k), font_style: style.font_style }, rest),
        apply_codes(style, seq![(100 + k) as u16] + rest)
            == apply_codes(Style { fg: style.fg, bg: Color::Indexed((k + 8) as u8), font_style: style.font_style }, rest),
{
    let p0 = seq![(30 + k) as u16] + rest;
    let p1 = seq![(90 + k) as u16] + rest;
    let p2 = seq![(40 + k) as u16] + rest;
    let p3 = seq![(100 + k) as u16] + rest;
    assert(p0.skip(1) =~= rest);
    assert(p1.skip(1) =~= rest);
    assert(p2.skip(1) =~= rest);
    assert(p3.skip(1) =~= rest);
}

/// A code that selects nothing is skipped: any code outside 0, 1, 3,
/// 30-39, 40-49, 90-97 and 100-107 leaves the style as it is.
pub proof fn lemma_unknown_code_ignored(style: Style, n: u16, rest: Seq<u16>)
    requires
        !(n == 0 || n == 1 || n == 3 || (30 <= n <= 49) || (90 <= n <= 97) || (100 <= n <= 107)),
    ensures
        apply_codes(style, seq![n] + rest) == apply_codes(style, rest),
{
    let p = seq![n] + rest;
    assert(p.skip(1) =~= rest);
    assert(p[0] == n);
}

/// Text without a `;` is a single field.
pub proof fn lemma_fields_without_separator(s: Seq<char>)
    requires
        forall|i: int| 0 <= i < s.len() ==> s[i] != ';',
    ensures
        fields_of(s) == seq![s],
    decreases s.len(),
{
    if s.len() == 0 {
        assert(s =~= Seq::<char>::empty());
        assert(fields_of(s) =~= seq![s]);
    } else {
        lemma_fields_without_separator(s.drop_last());
        assert(s[s.len() - 1] != ';');
        assert(s.last() != ';');
        let prev = fields_of(s.drop_last());
        assert(prev == seq![s.drop_last()]);
        assert(prev.last() == s.drop_last());
        assert(s.drop_last().push(s.last()) =~= s);
        assert(prev.update(0, prev.last().push(s.last())) =~= seq![s]);
    }
}

/// A `;` separates: the fields of `a ; b` are the fields of `a` followed by
/// the fields of `b`.
pub proof fn lemma_fields_split(a: Seq<char>, b: Seq<char>)
    ensures
        fields_of(a + seq![';'] + b) == fields_of(a) + fields_of(b),
    decreases b.len(),
{
    let x = a + seq![';'] + b;
    if b.len() == 0 {
        assert(x =~= a.push(';'));
        assert(x.drop_last() =~= a);
        assert(fields_of(b) =~= seq![Seq::<char>::empty()]);
        assert(fields_of(x) =~= fields_of(a) + fields_of(b));
    } else {
        let b1 = b.drop_last();
        lemma_fields_split(a, b1);
        lemma_fields_nonempty(b1);
        lemma_fields_nonempty(a);
        assert(x.drop_last() =~= a + seq![';'] + b1);
        assert(x.last() == b.last());
        let fa = fields_of(a);
        let fb1 = fields_of(b1);
        if b.last() == ';' {
            assert((fa + fb1).push(Seq::<char>::empty()) =~= fa + fb1.push(Seq::<char>::empty()));
        } else {
            let prev = fa + fb1;
            assert(prev.last() == fb1.last());
            assert(prev.update(prev.len() - 1, prev.last().push(b.last()))
                =~= fa + fb1.update(fb1.len() - 1, fb1.last().push(b.last())));
        }
    }
}

pub proof fn lemma_fields_nonempty(s: Seq<char>)
    ensures
        fields_of(s).len() >= 1,
    decreases s.len(),
{
    if s.len() > 0 {
        lemma_fields_nonempty(s.drop_last());
    }
}

/// An empty parameter list, like a lone `0`, resets the style.
pub proof fn lemma_empty_params_reset(style: Style)
    ensures
        apply_sgr_spec(style, Seq::empty()) == default_style(),
{
    let f = fields_of(Seq::<char>::empty());
    assert(f =~= seq![Seq::<char>::empty()]);
    assert(param_value(Seq::<char>::empty()) == 0);
    let codes = sgr_codes(Seq::<char>::empty());
    assert(codes =~= seq![0u16]);
    assert(codes.skip(1) =~= Seq::<u16>::empty());
    assert(sgr_step(style, codes) == (default_style(), 1nat));
    assert(apply_codes(default_style(), codes.skip(1)) == default_style());
}

/// A lone `0` parameter resets the style.
pub proof fn lemma_zero_param_reset(style: Style)
    ensures
        apply_sgr_spec(style, seq!['0']) == default_style(),
{
    let s = seq!['0'];
    assert(s.drop_last() =~= Seq::<char>::empty());
    let f = fields_of(s);
    assert(fields_of(Seq::<char>::empty()) =~= seq![Seq::<char>::empty()]);
    assert(f =~= seq![seq!['0']]);
    assert(Seq::<char>::empty().push('0') =~= seq!['0']);
    let d = unsigned_digits(seq!['0']);
    assert(d =~= seq!['0']);
    assert(d.drop_last() =~= Seq::<char>::empty());
    assert(digits_value(d.drop_last()) == 0);
    assert(d.last() == '0');
    assert(('0' as u32) == 48);
    assert(digits_value(d) == 0);
    assert(param_value(seq!['0']) == 0);
    let codes = sgr_codes(s);
    assert(codes =~= seq![0u16]);
    assert(codes.skip(1) =~= Seq::<u16>::empty());
    assert(sgr_step(style, codes) == (default_style(), 1nat));
    assert(apply_codes(default_style(), codes.skip(1)) == default_style());
}

/// `param_value` of a field, computed.
pub fn parse_param(field: &Vec<char>) -> (res: u16)
    ensures
        res == param_value(field@),
{
    let n = field.len();
    let start: usize = if n > 0 && field[0] == '+' { 1 } else { 0 };
    proof {
        assert(field@.subrange(start as int, n as int) =~= unsigned_digits(field@));
    }
    if start == n {
        return 0;
    }
    let mut value: u32 = 0;
    let mut overflow = false;
    let mut i = start;
    while i < n
        invariant
            start <= i <= n,
            n == field@.len(),
            start < n,
            unsigned_digits(field@) =~= field@.subrange(start as int, n as int),
            all_digits(field@.subrange(start as int, i as int)),
            !overflow ==> value == digits_value(field@.subrange(start as int, i as int)),
            !overflow ==> value <= 65535,
            overflow ==> digits_value(field@.subrange(start as int, i as int)) > 65535,
        decreases n - i,
    {
        let c = field[i];
        let code = c as u32;
        let ghost prefix = field@.subrange(start as int, i as int);
        let ghost next = field@.subrange(start as int, i + 1);
        proof {
            assert(next.drop_last() =~= prefix);
            assert(next.last() == c);
        }
        if code < 48 || code > 57 {
            proof {
                let d = unsigned_digits(field@);
                assert(d[i - start] == c);
                assert(!is_digit(d[i - start]));
            }
            return 0;
        }
        if !overflow {
            let nv = value * 10 + (code - 48);
            if nv > 65535 {
                overflow = true;
            } else {
                value = nv;
            }
        }
        proof {
            assert forall|k: int| 0 <= k < next.len() implies #[trigger] is_digit(next[k]) by {
                if k < prefix.len() {
                    assert(next[k] == prefix[k]);
                }
            }
        }
        i = i + 1;
    }
    proof {
        assert(field@.subrange(start as int, n as int) =~= unsigned_digits(field@));
    }
    if overflow {
        0
    } else {
        value as u16
    }
}

/// The numeric SGR parameters of a parameter text: each `;`-separated field
/// read as a `u16` (0 where it is not one), at most sixteen of them.
pub fn sgr_params(buf: &Vec<char>) -> (nums: Vec<u16>)
    ensures
        nums@ == sgr_codes(buf@),
{
    let mut nums: Vec<u16> = Vec::new();
    let mut field: Vec<char> = Vec::new();
    let n = buf.len();
    let mut i: usize = 0;
    while i < n
        invariant
            n == buf@.len(),
            i <= n,
            fields_of(buf@.take(i as int)).len() >= 1,
            nums@ == cap_params(field_values(fields_of(buf@.take(i as int)).drop_last())),
            field@ == fields_of(buf@.take(i as int)).last(),
        decreases n - i,
    {
        let ghost prev = fields_of(buf@.take(i as int));
        let c = buf[i];
        proof {
            assert(buf@.take(i + 1).drop_last() =~= buf@.take(i as int));
            assert(buf@.take(i + 1).last() == c);
        }
        if c == ';' {
            let v = parse_param(&field);
            if nums.len() < MAX_SGR_PARAMS {
                nums.push(v);
            }
            field = Vec::new();
            proof {
                let cur = fields_of(buf@.take(i + 1));
                assert(cur == prev.push(Seq::empty()));
                assert(cur.drop_last() =~= prev);
                assert(prev =~= prev.drop_last().push(prev.last()));
                assert(field_values(prev) =~= field_values(prev.drop_last()).push(param_value(prev.last())));
            }
        } else {
            field.push(c);
            proof {
                let cur = fields_of(buf@.take(i + 1));
                assert(cur.drop_last() =~= prev.drop_last());
            }
        }
        i = i + 1;
    }
    let v = parse_param(&field);
    if nums.len() < MAX_SGR_PARAMS {
        nums.push(v);
    }
    proof {
        let all = fields_of(buf@);
        assert(buf@.take(n as int) =~= buf@);
        assert(all =~= all.drop_last().push(all.last()));
        assert(field_values(all) =~= field_values(all.drop_last()).push(param_value(all.last())));
    }
    nums
}

/// One step of SGR application at parameter `i`: the new style and the
/// index of the next unread parameter.
pub fn sgr_step_exec(style: Style, nums: &Vec<u16>, i: usize) -> (res: (Style, usize))
    requires
        i < nums@.len(),
        nums@.len() <= MAX_SGR_PARAMS,
    ensures
        res.0 == sgr_step(style, nums@.skip(i as int)).0,
        res.1 == i + sgr_step(style, nums@.skip(i as int)).1,
{
    let ghost p = nums@.skip(i as int);
    let count = nums.len();
    let n = nums[i];
    assert(p[0] == n);
    if n == 0 {
        (Style::default(), i + 1)
    } else if n == 1 {
        let f = if style.font_style == FontStyle::Italic { FontStyle::ItalicBold } else { FontStyle::Bold };
        (Style { fg: style.fg, bg: style.bg, font_style: f }, i + 1)
    } else if n == 3 {
        let f = if style.font_style == FontStyle::Bold { FontStyle::ItalicBold } else { FontStyle::Italic };
        (Style { fg: style.fg, bg: style.bg, font_style: f }, i + 1)
    } else if n == 39 {
        (Style { fg: Color::Default, bg: style.bg, font_style: style.font_style }, i + 1)
    } else if n == 49 {
        (Style { fg: style.fg, bg: Color::Default, font_style: style.font_style }, i + 1)
    } else if 30 <= n && n <= 37 {
        (Style { fg: Color::Indexed((n - 30) as u8), bg: style.bg, font_style: style.font_style }, i + 1)
    } else if 90 <= n && n <= 97 {
        (Style { fg: Color::Indexed((n - 90 + 8) as u8), bg: style.bg, font_style: style.font_style }, i + 1)
    } else if 40 <= n && n <= 47 {
        (Style { fg: style.fg, bg: Color::Indexed((n - 40) as u8), font_style: style.font_style }, i + 1)
    } else if 100 <= n && n <= 107 {
        (Style { fg: style.fg, bg: Color::Indexed((n - 100 + 8) as u8), font_style: style.font_style }, i + 1)
    } else if n == 38 || n == 48 {
        let is_fg = n == 38;
        if i + 1 < count {
            let kind = nums[i + 1];
            assert(p[1] == kind);
            if kind == 5 && i + 2 < count {
                assert(p[2] == nums@[i + 2]);
                let c = Color::Indexed((nums[i + 2] % 256) as u8);
                if is_fg {
                    (Style { fg: c, bg: style.bg, font_style: style.font_style }, i + 3)
                } else {
                    (Style { fg: style.fg, bg: c, font_style: style.font_style }, i + 3)
                }
            } else if kind == 2 && i + 4 < count {
                assert(p[2] == nums@[i + 2]);
                assert(p[3] == nums@[i + 3]);
                assert(p[4] == nums@[i + 4]);
                let c = Color::Rgb(
                    (nums[i + 2] % 256) as u8,
                    (nums[i + 3] % 256) as u8,
                    (nums[i + 4] % 256) as u8,
                );
                if is_fg {
                    (Style { fg: c, bg: style.bg, font_style: style.font_style }, i + 5)
                } else {
                    (Style { fg: style.fg, bg: c, font_style: style.font_style }, i + 5)
                }
            } else {
                (style, i + 1)
            }
        } else {
            (style, i + 1)
        }
    } else {
        (style, i + 1)
    }
}

} // verus!
