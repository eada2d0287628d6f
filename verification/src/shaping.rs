use vstd::prelude::*;

verus! {

/// Whether `font` parses as face 0 of a TrueType/OpenType font for the
/// shaper.
pub uninterp spec fn font_parses(font: Seq<u8>) -> bool;

/// The glyphs that shaping `text` with a left-to-right Latin plan and face 0
/// of `font` yields, in output order: per glyph, its index, its x advance,
/// y advance, x offset and y offset in font units, and its cluster (the
/// UTF-8 byte offset in the text of the character it was shaped from).
pub uninterp spec fn shaped_glyphs(font: Seq<u8>, text: Seq<char>) -> Seq<(u32, i32, i32, i32, i32, u32)>;

/// The shaping result of one glyph without its cluster.
pub open spec fn glyph_part(t: (u32, i32, i32, i32, i32, u32)) -> (u32, i32, i32, i32, i32) {
    (t.0, t.1, t.2, t.3, t.4)
}

/// Glyphs come out in text order: their clusters never go back.
pub open spec fn clusters_in_text_order(shaped: Seq<(u32, i32, i32, i32, i32, u32)>) -> bool {
    forall|j: int, k: int| 0 <= j < k < shaped.len() ==> #[trigger] shaped[j].5 <= #[trigger] shaped[k].5
}

/// The direction and the script tag (as a big-endian `u32`, `Zzzz` when
/// none) that the shaper guesses for `text`.
pub uninterp spec fn guessed_segment(text: Seq<char>) -> (TextDirection, u32);

/// The units per em of face 0 of `font`.
pub uninterp spec fn font_units_per_em(font: Seq<u8>) -> i32;

/// Calls `rustybuzz::Face::from_slice` on face 0 of `font`; the result says
/// whether it returned a face. Nothing is claimed of which inputs parse.
#[verifier::external_body]
fn face_parses(font: &[u8]) -> (res: bool)
    ensures
        res == font_parses(font@),
{
    rustybuzz::Face::from_slice(font, 0).is_some()
}

/// A text direction as the shaper knows it.
#[derive(Debug, Clone, Copy, PartialEq, Eq, Structural)]
pub enum TextDirection {
    Invalid,
    LeftToRight,
    RightToLeft,
    TopToBottom,
    BottomToTop,
}

/// The ISO 15924 tag `Latn` of the Latin script.
pub const LATIN_SCRIPT_TAG: u32 = 0x4C61_746E;

/// The shaper guesses the direction and script of `text` to be those of
/// the left-to-right Latin plan it is shaped with. rustybuzz asserts this
/// (in debug builds) when shaping with a plan.
pub open spec fn fits_latin_plan(text: Seq<char>) -> bool {
    guessed_segment(text) == (TextDirection::LeftToRight, LATIN_SCRIPT_TAG)
}

/// A letter of the Latin script in Unicode's script data: `A`-`Z`, `a`-`z`,
/// `ª`, `º`, and U+00C0 to U+02B8 but for `×` and `÷`.
pub open spec fn is_latin_letter(c: char) -> bool {
    let u = c as u32;
    ||| 0x41 <= u <= 0x5A
    ||| 0x61 <= u <= 0x7A
    ||| u == 0xAA
    ||| u == 0xBA
    ||| (0xC0 <= u <= 0x2B8 && u != 0xD7 && u != 0xF7)
}

/// A character below U+00C0 that is not a Latin letter: digits, spaces,
/// punctuation, symbols and controls, all of the Common script.
pub open spec fn is_common_below_latin1_letters(c: char) -> bool {
    (c as u32) < 0xC0 && !is_latin_letter(c)
}

/// The first letter of `text` that belongs to a script is a Latin letter:
/// only Common characters come before it.
pub open spec fn leads_with_latin_letter(text: Seq<char>) -> bool {
    exists|k: int| 0 <= k < text.len() && #[trigger] is_latin_letter(text[k])
        && forall|j: int| 0 <= j < k ==> is_common_below_latin1_letters(#[trigger] text[j])
}

/// The most characters a shaping buffer takes.
pub const MAX_BUFFER_LEN: usize = 0x3FFF_FFFF;

/// Calls `rustybuzz::UnicodeBuffer::guess_segment_properties` on a buffer
/// holding `text` and returns the buffer's direction and script tag. The
/// guess takes the script of the first character that is neither Common,
/// Inherited nor Unknown, and the direction of that script (left to right
/// for Latin); so text whose first such character is a Latin letter is
/// guessed Latin, left to right.
#[verifier::external_body]
fn guess_segment(text: &[char]) -> (res: (TextDirection, u32))
    ensures
        res == guessed_segment(text@),
        text@.len() <= MAX_BUFFER_LEN && leads_with_latin_letter(text@)
            ==> res == (TextDirection::LeftToRight, LATIN_SCRIPT_TAG),
{
    let mut buffer = rustybuzz::UnicodeBuffer::new();
    buffer.push_str(&text.iter().collect::<String>());
    buffer.guess_segment_properties();
    let direction = match buffer.direction() {
        rustybuzz::Direction::Invalid => TextDirection::Invalid,
        rustybuzz::Direction::LeftToRight => TextDirection::LeftToRight,
        rustybuzz::Direction::RightToLeft => TextDirection::RightToLeft,
        rustybuzz::Direction::TopToBottom => TextDirection::TopToBottom,
        rustybuzz::Direction::BottomToTop => TextDirection::BottomToTop,
    };
    (direction, buffer.script().tag().0)
}

/// Calls `rustybuzz::shape_with_plan` for `text` with a left-to-right Latin
/// plan on face 0 of `font`, and returns each glyph's index, position and
/// cluster. With rustybuzz's default cluster level (monotone graphemes) the
/// clusters of a left-to-right run never decrease.
/// The buffer's direction and script are left for rustybuzz to guess; it
/// asserts that they match the plan, which `requires` states. The claim is
/// only that the result is the named function of the font bytes and the
/// text.
#[verifier::external_body]
fn shape_latin(font: &[u8], text: &[char]) -> (res: Vec<(u32, i32, i32, i32, i32, u32)>)
    requires
        font_parses(font@),
        fits_latin_plan(text@),
    ensures
        res@ == shaped_glyphs(font@, text@),
        clusters_in_text_order(res@),
{
    let face = rustybuzz::Face::from_slice(font, 0).unwrap();
    let ltr = rustybuzz::Direction::LeftToRight;
    let plan = rustybuzz::ShapePlan::new(&face, ltr, Some(rustybuzz::script::LATIN), None, &[]);
    let mut buffer = rustybuzz::UnicodeBuffer::new();
    buffer.push_str(&text.iter().collect::<String>());
    let shaped = rustybuzz::shape_with_plan(&face, &plan, buffer);
    let pos = shaped.glyph_positions();
    shaped.glyph_infos().iter().zip(pos).map(|(i, p)| (i.glyph_id, p.x_advance, p.y_advance, p.x_offset, p.y_offset, i.cluster)).collect()
}

/// The big-endian 16-bit number at `i` in `b`.
pub open spec fn be_u16(b: Seq<u8>, i: int) -> int {
    b[i] as int * 256 + b[i + 1] as int
}

/// The big-endian 32-bit number at `i` in `b`.
pub open spec fn be_u32(b: Seq<u8>, i: int) -> int {
    be_u16(b, i) * 65536 + be_u16(b, i + 2)
}

/// The tag `ttcf` that opens a font collection.
pub const COLLECTION_TAG: u32 = 0x7474_6366;

/// The tag of the font header table, `head`.
pub const HEAD_TAG: u32 = 0x6865_6164;

/// Field `f` (0 the tag, 2 the offset, 3 the length) of table record `r` in
/// the table directory of a single font.
pub open spec fn table_record_field(font: Seq<u8>, r: int, f: int) -> int {
    be_u32(font, 12 + 16 * r + 4 * f)
}

/// Record `r` is the last `head` record of the font's table directory.
pub open spec fn is_last_head_record(font: Seq<u8>, r: int) -> bool {
    &&& 0 <= r < be_u16(font, 4)
    &&& table_record_field(font, r, 0) == HEAD_TAG
    &&& forall|q: int| r < q < be_u16(font, 4) ==> #[trigger] table_record_field(font, q, 0) != HEAD_TAG
}

/// The `unitsPerEm` field, at byte 18 of the `head` table that record `r`
/// points to.
pub open spec fn head_units_per_em(font: Seq<u8>, r: int) -> int {
    be_u16(font, table_record_field(font, r, 2) + 18)
}

/// Calls `rustybuzz::Face::units_per_em` on face 0 of `font`. The face
/// takes it from the `unitsPerEm` field of the font's `head` table, the
/// last `head` record of the table directory for a single font; a font
/// parses only when that field is between 16 and 16384.
#[verifier::external_body]
fn face_units_per_em(font: &[u8]) -> (res: i32)
    requires
        font_parses(font@),
    ensures
        res == font_units_per_em(font@),
        16 <= res <= 16384,
        be_u32(font@, 0) != COLLECTION_TAG ==> forall|r: int| #[trigger] is_last_head_record(font@, r)
            && table_record_field(font@, r, 2) + table_record_field(font@, r, 3) <= u32::MAX
            ==> res == head_units_per_em(font@, r),
{
    rustybuzz::Face::from_slice(font, 0).unwrap().units_per_em()
}

/// A shaped glyph: the glyph index the shaper chose, the character it is
/// drawn for, and its advance and offset in font units.
pub struct ShapedGlyph {
    pub glyph_id: u32,
    pub char: char,
    pub x_advance: i32,
    pub y_advance: i32,
    pub x_offset: i32,
    pub y_offset: i32,
}

/// The glyph for position `k`: the shaper's glyph and position paired with
/// the `k`-th character.
pub open spec fn glyph_matches(g: ShapedGlyph, shaped: (u32, i32, i32, i32, i32), c: char) -> bool {
    &&& g.glyph_id == shaped.0
    &&& g.char == c
    &&& g.x_advance == shaped.1
    &&& g.y_advance == shaped.2
    &&& g.x_offset == shaped.3
    &&& g.y_offset == shaped.4
}

pub open spec fn shorter(a: int, b: int) -> int {
    if a <= b { a } else { b }
}

/// The shaping results without their clusters.
fn without_clusters(shaped: &Vec<(u32, i32, i32, i32, i32, u32)>) -> (res: Vec<(u32, i32, i32, i32, i32)>)
    ensures
        res@.len() == shaped@.len(),
        forall|k: int| 0 <= k < shaped@.len() ==> #[trigger] res@[k] == glyph_part(shaped@[k]),
{
    let mut res: Vec<(u32, i32, i32, i32, i32)> = Vec::new();
    let mut i: usize = 0;
    while i < shaped.len()
        invariant
            i <= shaped@.len(),
            res@.len() == i,
            forall|k: int| 0 <= k < i ==> #[trigger] res@[k] == glyph_part(shaped@[k]),
        decreases shaped@.len() - i,
    {
        let t = shaped[i];
        proof {
            crate::lemma_seq_push(res@, (t.0, t.1, t.2, t.3, t.4));
        }
        res.push((t.0, t.1, t.2, t.3, t.4));
        i = i + 1;
    }
    res
}

/// Pairs shaping results with the characters they were shaped from, in
/// order, as far as both go.
pub fn pair_shaped(shaped: &Vec<(u32, i32, i32, i32, i32)>, chars: &Vec<char>) -> (res: Vec<ShapedGlyph>)
    ensures
        res@.len() == shorter(shaped@.len() as int, chars@.len() as int),
        forall|k: int| 0 <= k < res@.len() ==> glyph_matches(#[trigger] res@[k], shaped@[k], chars@[k]),
{
    let n = if shaped.len() <= chars.len() { shaped.len() } else { chars.len() };
    let mut glyphs: Vec<ShapedGlyph> = Vec::new();
    let mut i: usize = 0;
    while i < n
        invariant
            n == shorter(shaped@.len() as int, chars@.len() as int),
            i <= n,
            glyphs@.len() == i,
            forall|k: int| 0 <= k < i ==> glyph_matches(#[trigger] glyphs@[k], shaped@[k], chars@[k]),
        decreases n - i,
    {
        let t = shaped[i];
        let g = ShapedGlyph { glyph_id: t.0, char: chars[i], x_advance: t.1, y_advance: t.2, x_offset: t.3, y_offset: t.4 };
        proof {
            crate::lemma_seq_push(glyphs@, g);
        }
        glyphs.push(g);
        i = i + 1;
    }
    glyphs
}

/// Shapes runs of characters with one font.
pub struct TextShaper {
    font: Vec<u8>,
}

impl TextShaper {
    #[verifier::type_invariant]
    spec fn font_valid(self) -> bool {
        font_parses(self.font@)
    }

    /// The font bytes shaped with.
    pub closed spec fn font(&self) -> Seq<u8> {
        self.font@
    }

    /// A shaper for face 0 of `font`, or `None` when the font does not parse.
    pub fn new(font: Vec<u8>) -> (res: Option<Self>)
        ensures
            res is Some <==> font_parses(font@),
            res matches Some(s) ==> s.font() == font@,
    {
        if face_parses(font.as_slice()) {
            Some(TextShaper { font })
        } else {
            None
        }
    }

    /// The font's units per em.
    pub fn units_per_em(&self) -> (res: i32)
        ensures
            res == font_units_per_em(self.font()),
            16 <= res <= 16384,
            be_u32(self.font(), 0) != COLLECTION_TAG ==> forall|r: int| #[trigger] is_last_head_record(self.font(), r)
                && table_record_field(self.font(), r, 2) + table_record_field(self.font(), r, 3) <= u32::MAX
                ==> res == head_units_per_em(self.font(), r),
    {
        proof {
            use_type_invariant(self);
        }
        face_units_per_em(self.font.as_slice())
    }

    /// Shapes `chars` and pairs each resulting glyph with the character at
    /// the same position.
    pub fn shape_text(&self, chars: &Vec<char>) -> (res: Vec<ShapedGlyph>)
        requires
            fits_latin_plan(chars@),
        ensures
            res@.len() == shorter(shaped_glyphs(self.font(), chars@).len() as int, chars@.len() as int),
            forall|k: int| 0 <= k < res@.len()
                ==> glyph_matches(#[trigger] res@[k], glyph_part(shaped_glyphs(self.font(), chars@)[k]), chars@[k]),
            clusters_in_text_order(shaped_glyphs(self.font(), chars@)),
    {
        proof {
            use_type_invariant(self);
        }
        let shaped = shape_latin(self.font.as_slice(), chars.as_slice());
        let positions = without_clusters(&shaped);
        pair_shaped(&positions, chars)
    }

    /// Shapes `chars` as [`TextShaper::shape_text`] does when the shaper
    /// guesses them to be left-to-right Latin text, the direction and script
    /// of the plan; `None` otherwise.
    pub fn try_shape_text(&self, chars: &Vec<char>) -> (res: Option<Vec<ShapedGlyph>>)
        ensures
            res is None <==> !fits_latin_plan(chars@),
            chars@.len() <= MAX_BUFFER_LEN && leads_with_latin_letter(chars@) ==> res is Some,
            res matches Some(glyphs) ==> {
                &&& glyphs@.len() == shorter(shaped_glyphs(self.font(), chars@).len() as int, chars@.len() as int)
                &&& forall|k: int| 0 <= k < glyphs@.len()
                    ==> glyph_matches(#[trigger] glyphs@[k], glyph_part(shaped_glyphs(self.font(), chars@)[k]), chars@[k])
                &&& clusters_in_text_order(shaped_glyphs(self.font(), chars@))
            },
    {
        let (direction, script) = guess_segment(chars.as_slice());
        if direction == TextDirection::LeftToRight && script == LATIN_SCRIPT_TAG {
            Some(self.shape_text(chars))
        } else {
            None
        }
    }
}

} // verus!
