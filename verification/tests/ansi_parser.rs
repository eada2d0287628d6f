use termglyph::ansi_parser::{AnsiParser, Color, Style};
use termglyph::font_registry::FontStyle;

fn feed(parser: &mut AnsiParser, text: &str) -> String {
    let mut out = String::new();
    for c in text.chars() {
        if let Some(c) = parser.push(c) {
            out.push(c);
        }
    }
    out
}

fn style(fg: Color, bg: Color, font_style: FontStyle) -> Style {
    Style { fg, bg, font_style }
}

#[test]
fn new_parser_has_default_style() {
    let parser = AnsiParser::new();
    assert_eq!(parser.style, Style::default());
    assert_eq!(Style::default(), style(Color::Default, Color::Default, FontStyle::Regular));
}

#[test]
fn plain_text_passes_through() {
    let mut parser = AnsiParser::new();
    assert_eq!(feed(&mut parser, "hello, world [m] 123"), "hello, world [m] 123");
    assert_eq!(parser.style, Style::default());
}

#[test]
fn escape_sequences_are_stripped() {
    let mut parser = AnsiParser::new();
    assert_eq!(feed(&mut parser, "a\u{1b}[31mb\u{1b}[0mc"), "abc");
    assert_eq!(parser.style, Style::default());
}

#[test]
fn push_returns_none_inside_sequence() {
    let mut parser = AnsiParser::new();
    assert_eq!(parser.push('\u{1b}'), None);
    assert_eq!(parser.push('['), None);
    assert_eq!(parser.push('3'), None);
    assert_eq!(parser.push('2'), None);
    assert_eq!(parser.push('m'), None);
    assert_eq!(parser.push('x'), Some('x'));
    assert_eq!(parser.style.fg, Color::Indexed(2));
}

#[test]
fn basic_foreground_and_background() {
    let mut parser = AnsiParser::new();
    feed(&mut parser, "\u{1b}[31;42m");
    assert_eq!(parser.style, style(Color::Indexed(1), Color::Indexed(2), FontStyle::Regular));
}

#[test]
fn bright_colors_map_past_eight() {
    let mut parser = AnsiParser::new();
    feed(&mut parser, "\u{1b}[97;100m");
    assert_eq!(parser.style, style(Color::Indexed(15), Color::Indexed(8), FontStyle::Regular));
}

#[test]
fn default_colour_codes() {
    let mut parser = AnsiParser::new();
    feed(&mut parser, "\u{1b}[33;44;1m\u{1b}[39m");
    assert_eq!(parser.style, style(Color::Default, Color::Indexed(4), FontStyle::Bold));
    feed(&mut parser, "\u{1b}[49m");
    assert_eq!(parser.style, style(Color::Default, Color::Default, FontStyle::Bold));
}

#[test]
fn bold_then_italic_is_italic_bold() {
    let mut parser = AnsiParser::new();
    feed(&mut parser, "\u{1b}[1;3m");
    assert_eq!(parser.style.font_style, FontStyle::ItalicBold);
    let mut parser = AnsiParser::new();
    feed(&mut parser, "\u{1b}[3m\u{1b}[1m");
    assert_eq!(parser.style.font_style, FontStyle::ItalicBold);
}

#[test]
fn bold_on_italic_bold_drops_italic() {
    let mut parser = AnsiParser::new();
    feed(&mut parser, "\u{1b}[1;3;1m");
    assert_eq!(parser.style.font_style, FontStyle::Bold);
}

#[test]
fn empty_and_zero_sequences_reset() {
    let mut parser = AnsiParser::new();
    feed(&mut parser, "\u{1b}[31;1m\u{1b}[m");
    assert_eq!(parser.style, Style::default());
    feed(&mut parser, "\u{1b}[31;1m\u{1b}[0m");
    assert_eq!(parser.style, Style::default());
}

#[test]
fn reset_in_the_middle_of_a_list() {
    let mut parser = AnsiParser::new();
    feed(&mut parser, "\u{1b}[31;0;44m");
    assert_eq!(parser.style, style(Color::Default, Color::Indexed(4), FontStyle::Regular));
}

#[test]
fn indexed_extended_colour() {
    let mut parser = AnsiParser::new();
    feed(&mut parser, "\u{1b}[38;5;200;48;5;17m");
    assert_eq!(parser.style, style(Color::Indexed(200), Color::Indexed(17), FontStyle::Regular));
}

#[test]
fn rgb_extended_colour_wraps_to_eight_bits() {
    let mut parser = AnsiParser::new();
    feed(&mut parser, "\u{1b}[48;2;10;20;300m");
    assert_eq!(parser.style.bg, Color::Rgb(10, 20, 44));
    feed(&mut parser, "\u{1b}[38;5;256m");
    assert_eq!(parser.style.fg, Color::Indexed(0));
}

#[test]
fn incomplete_extended_colour_is_skipped() {
    let mut parser = AnsiParser::new();
    feed(&mut parser, "\u{1b}[38;5m");
    assert_eq!(parser.style, Style::default());
    // The 2 after an incomplete 38;2 is read as a code of its own, which
    // selects nothing; the 31 that follows still applies.
    feed(&mut parser, "\u{1b}[38;2;1;31m");
    assert_eq!(parser.style.fg, Color::Indexed(1));
}

#[test]
fn non_numeric_parameter_reads_as_zero() {
    let mut parser = AnsiParser::new();
    feed(&mut parser, "\u{1b}[31;1m\u{1b}[xm");
    assert_eq!(parser.style, Style::default());
    feed(&mut parser, "\u{1b}[31m\u{1b}[-5m");
    assert_eq!(parser.style, Style::default());
}

#[test]
fn plus_sign_and_overflow_in_parameters() {
    let mut parser = AnsiParser::new();
    feed(&mut parser, "\u{1b}[+32m");
    assert_eq!(parser.style.fg, Color::Indexed(2));
    // 65567 does not fit in 16 bits, so it reads as 0 and resets.
    feed(&mut parser, "\u{1b}[65567m");
    assert_eq!(parser.style, Style::default());
    feed(&mut parser, "\u{1b}[0031m");
    assert_eq!(parser.style.fg, Color::Indexed(1));
}

#[test]
fn only_sixteen_parameters_are_read() {
    let mut parser = AnsiParser::new();
    let params = "1;".repeat(16) + "31";
    feed(&mut parser, &format!("\u{1b}[{}m", params));
    assert_eq!(parser.style, style(Color::Default, Color::Default, FontStyle::Bold));
}

#[test]
fn escape_without_bracket_is_swallowed() {
    let mut parser = AnsiParser::new();
    assert_eq!(feed(&mut parser, "a\u{1b}xb"), "ab");
    assert_eq!(parser.style, Style::default());
}

#[test]
fn overlong_sequence_is_dropped() {
    let mut parser = AnsiParser::new();
    let text = format!("\u{1b}[{}31m", ";".repeat(64));
    // The 65th parameter character overflows the buffer: the sequence is
    // dropped there, and what follows is plain text.
    assert_eq!(feed(&mut parser, &text), "1m");
    assert_eq!(parser.style, Style::default());
}

#[test]
fn sixty_four_parameter_characters_fit() {
    let mut parser = AnsiParser::new();
    let text = format!("\u{1b}[{}31m", "0".repeat(62));
    assert_eq!(feed(&mut parser, &text), "");
    assert_eq!(parser.style.fg, Color::Indexed(1));
}

#[test]
fn to_rgba_values() {
    assert_eq!(Color::Default.to_rgba(), (255, 255, 255, 255));
    assert_eq!(Color::Indexed(0).to_rgba(), (0, 0, 0, 255));
    assert_eq!(Color::Indexed(1).to_rgba(), (255, 0, 0, 255));
    assert_eq!(Color::Indexed(3).to_rgba(), (255, 255, 0, 255));
    assert_eq!(Color::Indexed(6).to_rgba(), (0, 255, 255, 255));
    assert_eq!(Color::Indexed(7).to_rgba(), (255, 255, 255, 255));
    assert_eq!(Color::Rgb(1, 2, 3).to_rgba(), (1, 2, 3, 255));
}

#[test]
fn to_rgb_drops_alpha() {
    assert_eq!(Color::Indexed(4).to_rgb(), (0, 0, 255));
    assert_eq!(Color::Indexed(5).to_rgb(), (255, 0, 255));
    assert_eq!(Color::Indexed(2).to_rgb(), (0, 255, 0));
    assert_eq!(Color::Rgb(9, 8, 7).to_rgb(), (9, 8, 7));
}

#[test]
fn style_accessor_reads_the_current_style() {
    let mut parser = AnsiParser::new();
    assert_eq!(parser.style(), Style::default());
    feed(&mut parser, "\u{1b}[3;35m");
    assert_eq!(parser.style(), style(Color::Indexed(5), Color::Default, FontStyle::Italic));
    assert_eq!(parser.style(), parser.style);
}

#[test]
fn rgb_is_rgba_without_alpha() {
    for c in [Color::Default, Color::Indexed(0), Color::Indexed(7), Color::Rgb(7, 8, 9)] {
        let (r, g, b, a) = c.to_rgba();
        assert_eq!(c.to_rgb(), (r, g, b));
        assert_eq!(a, 255);
    }
}

#[test]
fn set_style_selects_the_style_and_keeps_the_sequence() {
    let mut parser = AnsiParser::new();
    assert_eq!(parser.push('\u{1b}'), None);
    parser.set_style(style(Color::Rgb(1, 2, 3), Color::Indexed(4), FontStyle::Bold));
    assert_eq!(parser.style(), style(Color::Rgb(1, 2, 3), Color::Indexed(4), FontStyle::Bold));
    assert_eq!(feed(&mut parser, "[32mz"), "z");
    assert_eq!(parser.style(), style(Color::Indexed(2), Color::Indexed(4), FontStyle::Bold));
}
