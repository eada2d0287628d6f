# termglyph

The core of a GPU terminal text renderer, verified with Verus.

`src/` is the verified library:

- `ansi_parser` — a streaming parser that strips ANSI escape sequences and
  tracks the style selected by SGR sequences; `sgr` holds the meaning of the
  SGR parameters.
- `text_manager` — the monospace cell grid: grid size from window and font
  size, and the pixel position of each cell.
- `font_registry` — the choices made around FreeType: the closest fixed
  bitmap size, the first font with a glyph, the character size setting.
- `glyph_layout` — the texture layout of a rasterised glyph bitmap.
- `shaping` — text shaping with rustybuzz.
- `screen` — what the window draws: the status line's colours, the rows it
  is drawn on, and the font size keys.

`app/` is the windowed program around it (winit, glutin, glow, FreeType).
It reads its font from `assets/fonts/` and its shaders from
`assets/shaders/` (`font.vert`, `font.frag`, `triangle.vert`,
`triangle.frag`); `TERMGLYPH_ASSETS` names another asset directory.
