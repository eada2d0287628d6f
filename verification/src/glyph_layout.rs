use vstd::prelude::*;


verus! {

/// How the pixels of a rasterised glyph bitmap are stored.
#[derive(Debug, Clone, Copy, PartialEq, Eq, Structural)]
pub enum GlyphPixelMode {
    /// The reserved mode value.
    Reserved,
    Mono,
    Gray,
    Gray2,
    Gray4,
    /// Horizontal subpixel rendering: three bytes per pixel across.
    Lcd,
    /// Vertical subpixel rendering: three rows per pixel down.
    LcdV,
    /// Colour glyphs, four bytes per pixel.
    Bgra,
}

/// The texture format glyph bitmaps are uploaded in: `GL_RED`, one byte
/// per texel, whatever the bitmap's pixel mode, to keep GPU memory small;
/// the shader samples only the red channel.
#[derive(Debug, Clone, Copy, PartialEq, Eq, Structural)]
pub enum TextureFormat {
    Red,
}

impl TextureFormat {
    /// The row alignment to unpack a bitmap of this format with: one byte.
    pub fn unpack_alignment(&self) -> (res: i32)
        ensures
            res == 1,
    {
        1
    }
}

/// The size of a glyph texture in texels, whether it holds colour, and its
/// upload format.
pub struct GlyphBitmapLayout {
    pub width: i32,
    pub height: i32,
    pub is_color: bool,
    pub format: TextureFormat,
}

/// The number of bytes in one row of a bitmap `width` pixels wide: packed
/// bits for the 1-, 2- and 4-bit gray modes, four bytes per pixel for
/// colour, one byte otherwise (a subpixel bitmap's width already counts its
/// bytes).
pub open spec fn row_bytes(mode: Option<GlyphPixelMode>, width: int) -> int {
    match mode {
        Some(GlyphPixelMode::Mono) => (width + 7) / 8,
        Some(GlyphPixelMode::Gray2) => (width + 3) / 4,
        Some(GlyphPixelMode::Gray4) => (width + 1) / 2,
        Some(GlyphPixelMode::Bgra) => width * 4,
        _ => width,
    }
}

/// The bitmap's row length in bytes fits in `i32`.
pub open spec fn layout_defined(mode: Option<GlyphPixelMode>, bitmap_width: i32) -> bool {
    &&& bitmap_width >= 0
    &&& row_bytes(mode, bitmap_width as int) <= i32::MAX
}

/// The texture layout of a glyph bitmap `bitmap_width` pixels wide and
/// `bitmap_rows` rows high in pixel mode `mode` (`None` when the mode is not
/// known). The texture holds one byte per texel, so it is as wide as a
/// bitmap row has bytes and as high as the bitmap has rows; colour bitmaps
/// are the colour glyphs.
pub fn glyph_bitmap_layout(mode: Option<GlyphPixelMode>, bitmap_width: i32, bitmap_rows: i32) -> (res: GlyphBitmapLayout)
    requires
        layout_defined(mode, bitmap_width),
    ensures
        res.width == row_bytes(mode, bitmap_width as int),
        res.height == bitmap_rows,
        res.is_color == (mode == Some(GlyphPixelMode::Bgra)),
        res.format == TextureFormat::Red,
{
    let is_color = match mode {
        Some(GlyphPixelMode::Bgra) => true,
        _ => false,
    };
    let w = bitmap_width;
    let width = match mode {
        Some(GlyphPixelMode::Mono) => w / 8 + if w % 8 != 0 { 1 } else { 0 },
        Some(GlyphPixelMode::Gray2) => w / 4 + if w % 4 != 0 { 1 } else { 0 },
        Some(GlyphPixelMode::Gray4) => w / 2 + if w % 2 != 0 { 1 } else { 0 },
        Some(GlyphPixelMode::Bgra) => w * 4,
        _ => w,
    };
    GlyphBitmapLayout { width, height: bitmap_rows, is_color, format: TextureFormat::Red }
}

/// Where a shaped glyph's bitmap is loaded from.
#[derive(Debug, Clone, Copy, PartialEq, Eq, Structural)]
pub enum GlyphSource {
    /// The shaper found no glyph: look the character up in the fonts.
    ByChar(char),
    /// The glyph the shaper chose.
    ById(u32),
}

/// A glyph index of 0 means the shaper found no glyph, so the character is
/// looked up instead.
pub fn glyph_source(glyph_id: u32, ch: char) -> (res: GlyphSource)
    ensures
        res == if glyph_id == 0 { GlyphSource::ByChar(ch) } else { GlyphSource::ById(glyph_id) },
{
    if glyph_id == 0 {
        GlyphSource::ByChar(ch)
    } else {
        GlyphSource::ById(glyph_id)
    }
}

} // verus!
