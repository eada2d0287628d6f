use vstd::prelude::*;

use crate::font_registry::FontStyle;
use crate::sgr::{apply_sgr_spec, sgr_params, sgr_step_exec, apply_codes, lemma_sgr_step_bounds};

verus! {

/// A terminal colour as selected by SGR parameters.
#[derive(Debug, Clone, Copy, PartialEq, Eq, Structural)]
pub enum Color {
    Default,
    Indexed(u8),
    Rgb(u8, u8, u8),
}

/// The RGB value of the basic palette entry `i` (black, red, green, yellow,
/// blue, purple, cyan, white).
pub open spec fn palette_rgb(i: u8) -> (u8, u8, u8) {
    if i == 0 {
        (0, 0, 0)
    } else if i == 1 {
        (255, 0, 0)
    } else if i == 2 {
        (0, 255, 0)
    } else if i == 3 {
        (255, 255, 0)
    } else if i == 4 {
        (0, 0, 255)
    } else if i == 5 {
        (255, 0, 255)
    } else if i == 6 {
        (0, 255, 255)
    } else {
        (255, 255, 255)
    }
}

impl Color {
    /// A colour has an RGBA value when it is not a palette index past the
    /// basic eight-entry palette.
    pub open spec fn has_rgba(&self) -> bool {
        match *self {
            Color::Indexed(i) => i < 8,
            _ => true,
        }
    }

    pub open spec fn rgba_spec(&self) -> (u8, u8, u8, u8) {
        match *self {
            Color::Default => (255, 255, 255, 255),
            Color::Indexed(i) => {
                let (r, g, b) = palette_rgb(i);
                (r, g, b, 255)
            },
            Color::Rgb(r, g, b) => (r, g, b, 255),
        }
    }

    /// The opaque RGBA value of this colour: white for the default colour,
    /// the palette entry for an index, the components themselves for RGB.
    pub fn to_rgba(&self) -> (res: (u8, u8, u8, u8))
        requires
            self.has_rgba(),
        ensures
            res == self.rgba_spec(),
    {
        match self {
            Color::Default => (255, 255, 255, 255),
            Color::Indexed(i) => {
                let i = *i;
                let (r, g, b) = palette_entry(i);
                (r, g, b, 255)
            },
            Color::Rgb(r, g, b) => (*r, *g, *b, 255),
        }
    }

    pub open spec fn rgb_spec(&self) -> (u8, u8, u8) {
        match *self {
            Color::Default => (255, 255, 255),
            Color::Indexed(i) => palette_rgb(i),
            Color::Rgb(r, g, b) => (r, g, b),
        }
    }

    /// The RGB part of [`Color::to_rgba`]; it is defined on the same
    /// colours.
    pub fn to_rgb(&self) -> (res: (u8, u8, u8))
        requires
            self.has_rgba(),
        ensures
            res == self.rgb_spec(),
    {
        let (r, g, b, _) = self.to_rgba();
        (r, g, b)
    }
}

/// For every colour, the RGB value is the RGBA value without its alpha.
pub proof fn lemma_rgb_is_rgba_without_alpha(c: Color)
    ensures
        c.rgb_spec() == (c.rgba_spec().0, c.rgba_spec().1, c.rgba_spec().2),
{
}

fn palette_entry(i: u8) -> (res: (u8, u8, u8))
    requires
        i < 8,
    ensures
        res == palette_rgb(i),
{
    if i == 0 {
        (0, 0, 0)
    } else if i == 1 {
        (255, 0, 0)
    } else if i == 2 {
        (0, 255, 0)
    } else if i == 3 {
        (255, 255, 0)
    } else if i == 4 {
        (0, 0, 255)
    } else if i == 5 {
        (255, 0, 255)
    } else if i == 6 {
        (0, 255, 255)
    } else {
        (255, 255, 255)
    }
}

/// Foreground colour, background colour and face variant of the text that
/// follows.
#[derive(Debug, Clone, Copy, PartialEq, Eq, Structural)]
pub struct Style {
    pub fg: Color,
    pub bg: Color,
    pub font_style: FontStyle,
}

/// The style in force before any SGR sequence and after a reset.
pub open spec fn default_style() -> Style {
    Style { fg: Color::Default, bg: Color::Default, font_style: FontStyle::Regular }
}

impl Default for Style {
    fn default() -> (res: Self)
        ensures
            res == default_style(),
    {
        Style { fg: Color::Default, bg: Color::Default, font_style: FontStyle::Regular }
    }
}

/// Where the parser stands in an escape sequence.
#[derive(Debug, Clone, Copy, PartialEq, Eq, Structural)]
pub enum State {
    /// Plain text.
    Ground,
    /// An ESC was seen.
    Esc,
    /// Inside a control sequence introduced by ESC `[`.
    Csi,
}

/// The most parameter characters a control sequence may hold; one more
/// drops the sequence.
pub const MAX_PARAMS: usize = 64;

/// The escape character that opens a sequence.
pub open spec fn esc() -> char {
    '\u{1b}'
}

/// One character of input: the state after it and the character it yields
/// for display, if any.
pub open spec fn parser_step(s: (State, Seq<char>, Style), c: char) -> ((State, Seq<char>, Style), Option<char>) {
    let (state, params, style) = s;
    match state {
        State::Ground => if c == esc() {
            ((State::Esc, params, style), None)
        } else {
            ((State::Ground, params, style), Some(c))
        },
        State::Esc => if c == '[' {
            ((State::Csi, Seq::empty(), style), None)
        } else {
            ((State::Ground, params, style), None)
        },
        State::Csi => if c == 'm' {
            ((State::Ground, Seq::empty(), apply_sgr_spec(style, params)), None)
        } else if params.len() < MAX_PARAMS {
            ((State::Csi, params.push(c), style), None)
        } else {
            ((State::Ground, Seq::empty(), style), None)
        },
    }
}

/// A streaming parser that strips ANSI escape sequences from text and
/// tracks the style that SGR (`ESC [ ... m`) sequences select.
pub struct AnsiParser {
    state: State,
    buf: Vec<char>,
    pub style: Style,
}

impl View for AnsiParser {
    type V = (State, Seq<char>, Style);

    closed spec fn view(&self) -> (State, Seq<char>, Style) {
        (self.state, self.buf@, self.style)
    }
}

impl AnsiParser {
    /// The pending parameter characters fit the buffer, and there are none
    /// outside a control sequence.
    pub closed spec fn wf(&self) -> bool {
        &&& self.buf@.len() <= MAX_PARAMS
        &&& self.state != State::Csi ==> self.buf@.len() == 0
    }

    pub fn new() -> (res: Self)
        ensures
            res.wf(),
            res@ == (State::Ground, Seq::<char>::empty(), default_style()),
    {
        AnsiParser { state: State::Ground, buf: Vec::new(), style: Style::default() }
    }

    /// The style that the SGR sequences read so far select.
    pub fn style(&self) -> (res: Style)
        ensures
            res == self@.2,
    {
        self.style
    }

    /// Selects `style` for the text that follows; the escape sequence in
    /// progress, if any, is left as it is.
    pub fn set_style(&mut self, style: Style)
        requires
            old(self).wf(),
        ensures
            final(self).wf(),
            final(self)@ == (old(self)@.0, old(self)@.1, style),
    {
        self.style = style;
    }

    /// Feeds one character. Returns it when it is text to display; returns
    /// `None` when it belongs to an escape sequence.
    pub fn push(&mut self, v: char) -> (res: Option<char>)
        requires
            old(self).wf(),
        ensures
            final(self).wf(),
            (final(self)@, res) == parser_step(old(self)@, v),
    {
        match self.state {
            State::Ground => {
                if v == '\u{1b}' {
                    self.state = State::Esc;
                    None
                } else {
                    Some(v)
                }
            },
            State::Esc => {
                if v == '[' {
                    self.state = State::Csi;
                    self.buf = Vec::new();
                } else {
                    self.state = State::Ground;
                }
                None
            },
            State::Csi => {
                if v == 'm' {
                    self.apply_sgr();
                    self.state = State::Ground;
                    self.buf = Vec::new();
                } else if self.buf.len() < MAX_PARAMS {
                    self.buf.push(v);
                } else {
                    self.state = State::Ground;
                    self.buf = Vec::new();
                }
                None
            },
        }
    }

    fn apply_sgr(&mut self)
        requires
            old(self).wf(),
        ensures
            final(self).state == old(self).state,
            final(self).buf@ == old(self).buf@,
            final(self).style == apply_sgr_spec(old(self).style, old(self).buf@),
    {
        // An empty parameter list is a reset.
        if self.buf.len() == 0 {
            self.style = Style::default();
            proof {
                crate::sgr::lemma_empty_params_reset(old(self).style);
            }
            return;
        }

        let nums = sgr_params(&self.buf);
        let count = nums.len();
        let ghost start = self.style;
        let mut i: usize = 0;
        proof {
            assert(nums@.skip(0) =~= nums@);
        }
        while i < count
            invariant
                count == nums@.len(),
                i <= count,
                self.state == old(self).state,
                self.buf@ == old(self).buf@,
                start == old(self).style,
                nums@ == crate::sgr::sgr_codes(old(self).buf@),
                apply_codes(self.style, nums@.skip(i as int)) == apply_codes(start, nums@),
            decreases count - i,
        {
            let ghost rest = nums@.skip(i as int);
            proof {
                lemma_sgr_step_bounds(self.style, rest);
            }
            let (next, j) = sgr_step_exec(self.style, &nums, i);
            proof {
                assert(rest.skip(j - i) =~= nums@.skip(j as int));
            }
            self.style = next;
            i = j;
        }
        proof {
            assert(nums@.skip(count as int) =~= Seq::<u16>::empty());
        }
    }
}

/// The state after feeding `input` one character at a time from `s`, and
/// the characters yielded for display, in order.
pub open spec fn parser_feed(s: (State, Seq<char>, Style), input: Seq<char>) -> ((State, Seq<char>, Style), Seq<char>)
    decreases input.len(),
{
    if input.len() == 0 {
        (s, Seq::empty())
    } else {
        let (mid, out) = parser_feed(s, input.drop_last());
        let (next, o) = parser_step(mid, input.last());
        (next, match o {
            Some(c) => out.push(c),
            None => out,
        })
    }
}

/// The parser between sequences, with style `style`.
pub open spec fn ground(style: Style) -> (State, Seq<char>, Style) {
    (State::Ground, Seq::empty(), style)
}

/// Feeding `a` then `b` is feeding `a + b`.
pub proof fn lemma_feed_append(s: (State, Seq<char>, Style), a: Seq<char>, b: Seq<char>)
    ensures
        parser_feed(s, a + b).0 == parser_feed(parser_feed(s, a).0, b).0,
        parser_feed(s, a + b).1 == parser_feed(s, a).1 + parser_feed(parser_feed(s, a).0, b).1,
    decreases b.len(),
{
    if b.len() == 0 {
        assert(a + b =~= a);
        assert(parser_feed(s, a).1 + Seq::<char>::empty() =~= parser_feed(s, a).1);
    } else {
        lemma_feed_append(s, a, b.drop_last());
        assert((a + b).drop_last() =~= a + b.drop_last());
        assert((a + b).last() == b.last());
        let mid = parser_feed(s, a).0;
        let (m2, o2) = parser_feed(mid, b.drop_last());
        match parser_step(m2, b.last()).1 {
            Some(c) => {
                assert(parser_feed(s, a).1 + o2.push(c) =~= (parser_feed(s, a).1 + o2).push(c));
            },
            None => {},
        }
    }
}

/// Text without an ESC passes through a parser between sequences unchanged,
/// and leaves it as it was.
pub proof fn lemma_plain_text_passes_through(style: Style, text: Seq<char>)
    requires
        forall|i: int| 0 <= i < text.len() ==> text[i] != esc(),
    ensures
        parser_feed(ground(style), text) == (ground(style), text),
    decreases text.len(),
{
    if text.len() > 0 {
        lemma_plain_text_passes_through(style, text.drop_last());
        assert(text.drop_last().push(text.last()) =~= text);
    }
}

proof fn lemma_csi_intro(style: Style)
    ensures
        parser_feed(ground(style), seq![esc(), '[']) == ((State::Csi, Seq::<char>::empty(), style), Seq::<char>::empty()),
{
    let intro = seq![esc(), '['];
    let first = seq![esc()];
    assert(intro.drop_last() =~= first);
    assert(first.drop_last() =~= Seq::<char>::empty());
    assert(parser_feed(ground(style), Seq::<char>::empty()) == (ground(style), Seq::<char>::empty()));
    assert(parser_feed(ground(style), first) == ((State::Esc, Seq::<char>::empty(), style), Seq::<char>::empty()));
}

proof fn lemma_collect_params(style: Style, params: Seq<char>)
    requires
        params.len() <= MAX_PARAMS,
        forall|i: int| 0 <= i < params.len() ==> params[i] != 'm',
    ensures
        parser_feed((State::Csi, Seq::empty(), style), params) == ((State::Csi, params, style), Seq::<char>::empty()),
    decreases params.len(),
{
    if params.len() > 0 {
        lemma_collect_params(style, params.drop_last());
        assert(params.drop_last().push(params.last()) =~= params);
    }
}

/// A complete SGR sequence `ESC [ params m` from between sequences yields no
/// text and applies its parameters to the style, as long as the parameters
/// fit the buffer.
pub proof fn lemma_sgr_sequence_applies(style: Style, params: Seq<char>)
    requires
        params.len() <= MAX_PARAMS,
        forall|i: int| 0 <= i < params.len() ==> params[i] != 'm',
    ensures
        parser_feed(ground(style), seq![esc(), '['] + params + seq!['m'])
            == (ground(apply_sgr_spec(style, params)), Seq::<char>::empty()),
{
    let intro = seq![esc(), '['];
    lemma_csi_intro(style);
    lemma_feed_append(ground(style), intro, params);
    lemma_collect_params(style, params);
    lemma_feed_append(ground(style), intro + params, seq!['m']);
    let collected = (State::Csi, params, style);
    assert(parser_feed(ground(style), intro + params) == (collected, Seq::<char>::empty() + Seq::<char>::empty()));
    assert(seq!['m'].drop_last() =~= Seq::<char>::empty());
    assert(parser_feed(collected, Seq::<char>::empty()) == (collected, Seq::<char>::empty()));
    assert(parser_feed(collected, seq!['m']) == (ground(apply_sgr_spec(style, params)), Seq::<char>::empty()));
    assert(Seq::<char>::empty() + Seq::<char>::empty() =~= Seq::<char>::empty());
}

/// A control sequence whose parameters overflow the buffer is dropped: the
/// parser is back between sequences, the style unchanged, and nothing was
/// yielded.
pub proof fn lemma_overlong_sequence_dropped(style: Style, params: Seq<char>)
    requires
        params.len() == MAX_PARAMS + 1,
        forall|i: int| 0 <= i < params.len() ==> params[i] != 'm',
    ensures
        parser_feed(ground(style), seq![esc(), '['] + params) == (ground(style), Seq::<char>::empty()),
{
    let intro = seq![esc(), '['];
    lemma_csi_intro(style);
    let head = params.drop_last();
    lemma_collect_params(style, head);
    lemma_feed_append(ground(style), intro, head);
    lemma_feed_append(ground(style), intro + head, seq![params.last()]);
    assert(intro + head + seq![params.last()] =~= intro + params);
    let collected = (State::Csi, head, style);
    assert(parser_feed(ground(style), intro + head) == (collected, Seq::<char>::empty() + Seq::<char>::empty()));
    assert(seq![params.last()].drop_last() =~= Seq::<char>::empty());
    assert(params.last() == params[MAX_PARAMS as int]);
    assert(parser_feed(collected, Seq::<char>::empty()) == (collected, Seq::<char>::empty()));
    assert(parser_feed(collected, seq![params.last()]) == (ground(style), Seq::<char>::empty()));
    assert(Seq::<char>::empty() + Seq::<char>::empty() =~= Seq::<char>::empty());
}

/// `ESC [ m` and `ESC [ 0 m` both restore the default style.
pub proof fn lemma_reset_sequences(style: Style)
    ensures
        apply_sgr_spec(style, Seq::empty()) == default_style(),
        apply_sgr_spec(style, seq!['0']) == default_style(),
{
    crate::sgr::lemma_empty_params_reset(style);
    crate::sgr::lemma_zero_param_reset(style);
}

} // verus!
