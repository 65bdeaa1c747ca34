//! Styled terminal text: a text with a style, rendered with ANSI escape codes.
use ansi_term::{Colour, Style as AnsiStyle};
use vstd::prelude::*;

verus! {

/// The foreground colours of the palette.
#[derive(Clone, Copy, Debug, PartialEq, Eq)]
pub enum Color {
    Black,
    Red,
    Green,
    Yellow,
    Blue,
    Purple,
    Cyan,
    White,
}

/// Style attributes: bold, underlined, and an optional foreground colour.
#[derive(Clone, Copy, Debug, PartialEq, Eq)]
pub struct Style {
    pub bold: bool,
    pub underline: bool,
    pub color: Option<Color>,
}

/// A text together with the style to show it in. The text is kept as it was
/// given; rendering only wraps it.
#[derive(Clone, Debug, PartialEq, Eq)]
pub struct StyledText {
    pub text: String,
    pub style: Style,
}

/// The style with no attribute set.
pub open spec fn plain_style() -> Style {
    Style { bold: false, underline: false, color: None }
}

/// The style with only the foreground colour `c`.
pub open spec fn color_style(c: Color) -> Style {
    Style { bold: false, underline: false, color: Some(c) }
}

/// The select-graphic-rendition code of a foreground colour.
pub open spec fn color_code(c: Color) -> Seq<char> {
    match c {
        Color::Black => seq!['3', '0'],
        Color::Red => seq!['3', '1'],
        Color::Green => seq!['3', '2'],
        Color::Yellow => seq!['3', '3'],
        Color::Blue => seq!['3', '4'],
        Color::Purple => seq!['3', '5'],
        Color::Cyan => seq!['3', '6'],
        Color::White => seq!['3', '7'],
    }
}

/// Two lists of codes joined by `;`.
pub open spec fn joined_codes(a: Seq<char>, b: Seq<char>) -> Seq<char> {
    if a.len() == 0 {
        b
    } else if b.len() == 0 {
        a
    } else {
        a + seq![';'] + b
    }
}

/// The codes of a style, in order: bold `1`, underline `4`, then the colour.
pub open spec fn style_codes(st: Style) -> Seq<char> {
    let bold = if st.bold {
        seq!['1']
    } else {
        Seq::empty()
    };
    let underline = if st.underline {
        seq!['4']
    } else {
        Seq::empty()
    };
    let color = match st.color {
        Some(c) => color_code(c),
        None => Seq::empty(),
    };
    joined_codes(joined_codes(bold, underline), color)
}

/// What a style writes before the text: nothing for the plain style, else
/// ESC `[`, its codes, and `m`.
pub open spec fn style_prefix(st: Style) -> Seq<char> {
    if st == plain_style() {
        Seq::empty()
    } else {
        seq!['\u{1b}', '['] + style_codes(st) + seq!['m']
    }
}

/// What a style writes after the text: nothing for the plain style, else the
/// reset code ESC `[0m`.
pub open spec fn style_suffix(st: Style) -> Seq<char> {
    if st == plain_style() {
        Seq::empty()
    } else {
        seq!['\u{1b}', '[', '0', 'm']
    }
}

/// The text `text` rendered in the style `st`.
pub open spec fn rendered_text(text: Seq<char>, st: Style) -> Seq<char> {
    style_prefix(st) + text + style_suffix(st)
}

/// Relies on ansi_term's `Style::paint` and the `Display` of the painted
/// string, which write the style's prefix, the text, then its suffix.
#[verifier::external_body]
fn ansi_paint(text: &str, style: Style) -> (r: String)
    ensures
        r@ == rendered_text(text@, style),
{
    let foreground = match style.color {
        Some(Color::Black) => Some(Colour::Black),
        Some(Color::Red) => Some(Colour::Red),
        Some(Color::Green) => Some(Colour::Green),
        Some(Color::Yellow) => Some(Colour::Yellow),
        Some(Color::Blue) => Some(Colour::Blue),
        Some(Color::Purple) => Some(Colour::Purple),
        Some(Color::Cyan) => Some(Colour::Cyan),
        Some(Color::White) => Some(Colour::White),
        None => None,
    };
    let painter = AnsiStyle { foreground, is_bold: style.bold, is_underline: style.underline, ..Default::default() };
    painter.paint(text).to_string()
}

impl Style {
    /// The style with no attribute set.
    pub fn plain() -> (r: Style)
        ensures
            r == plain_style(),
    {
        Style { bold: false, underline: false, color: None }
    }
}

impl StyledText {
    /// The escape-coded form of the text, ready to be written to a terminal.
    pub fn to_text(&self) -> (r: String)
        ensures
            r@ == rendered_text(self.text@, self.style),
    {
        ansi_paint(self.text.as_str(), self.style)
    }

    /// The text without any style.
    pub fn plain(&self) -> (r: &str)
        ensures
            r@ == self.text@,
    {
        self.text.as_str()
    }
}

/// Values that can be styled: text, or styled text whose style grows.
pub trait Styled {
    /// The text that styling wraps.
    spec fn content(&self) -> Seq<char>;

    /// The style that the value already has.
    spec fn current_style(&self) -> Style;

    /// The value with bold added to its style.
    fn bold(&self) -> (r: StyledText)
        ensures
            r.text@ == self.content(),
            r.style == (Style { bold: true, ..self.current_style() }),
    ;

    /// The value with underline added to its style.
    fn underline(&self) -> (r: StyledText)
        ensures
            r.text@ == self.content(),
            r.style == (Style { underline: true, ..self.current_style() }),
    ;

    /// The value with its foreground colour set to `color`.
    fn paint(&self, color: Color) -> (r: StyledText)
        ensures
            r.text@ == self.content(),
            r.style == (Style { color: Some(color), ..self.current_style() }),
    ;
}

impl Styled for str {
    open spec fn content(&self) -> Seq<char> {
        self@
    }

    open spec fn current_style(&self) -> Style {
        plain_style()
    }

    fn bold(&self) -> (r: StyledText) {
        StyledText { text: self.to_owned(), style: Style { bold: true, underline: false, color: None } }
    }

    fn underline(&self) -> (r: StyledText) {
        StyledText { text: self.to_owned(), style: Style { bold: false, underline: true, color: None } }
    }

    fn paint(&self, color: Color) -> (r: StyledText) {
        StyledText {
            text: self.to_owned(),
            style: Style { bold: false, underline: false, color: Some(color) },
        }
    }
}

impl Styled for String {
    open spec fn content(&self) -> Seq<char> {
        self@
    }

    open spec fn current_style(&self) -> Style {
        plain_style()
    }

    fn bold(&self) -> (r: StyledText) {
        self.as_str().bold()
    }

    fn underline(&self) -> (r: StyledText) {
        self.as_str().underline()
    }

    fn paint(&self, color: Color) -> (r: StyledText) {
        self.as_str().paint(color)
    }
}

impl Styled for StyledText {
    open spec fn content(&self) -> Seq<char> {
        self.text@
    }

    open spec fn current_style(&self) -> Style {
        self.style
    }

    fn bold(&self) -> (r: StyledText) {
        StyledText { text: self.text.clone(), style: Style { bold: true, ..self.style } }
    }

    fn underline(&self) -> (r: StyledText) {
        StyledText { text: self.text.clone(), style: Style { underline: true, ..self.style } }
    }

    fn paint(&self, color: Color) -> (r: StyledText) {
        StyledText { text: self.text.clone(), style: Style { color: Some(color), ..self.style } }
    }
}

/// Styling keeps the text: its rendering in any style holds the text whole,
/// as one run of characters.
pub proof fn law_rendering_holds_text(text: Seq<char>, st: Style)
    ensures
        exists|i: int|
            0 <= i && i + text.len() <= rendered_text(text, st).len() && #[trigger] rendered_text(
                text,
                st,
            ).subrange(i, i + text.len()) == text,
{
    let i = style_prefix(st).len() as int;
    assert(rendered_text(text, st).subrange(i, i + text.len()) =~= text);
}

} // verus!
