use ansi_term::{Colour, Style as AnsiStyle};
use rpf::{Color, Style, Styled, StyledText};

#[test]
fn test_styled_bold() {
    assert_eq!(String::from("Styled string test").bold().to_text(),
        AnsiStyle::default().bold().paint("Styled string test").to_string());
}

#[test]
fn test_styled_underline() {
    assert_eq!(String::from("Styled string test").underline().to_text(),
        AnsiStyle::default().underline().paint("Styled string test").to_string());
}

#[test]
fn test_styled_paint() {
    assert_eq!(String::from("Styled string test").paint(Color::Yellow).to_text(),
        Colour::Yellow.paint("Styled string test").to_string());
}

#[test]
fn rendering_holds_the_text_and_plain_gives_it_back() {
    let styled = "some text".bold();
    assert!(styled.to_text().contains("some text"));
    assert_eq!(styled.plain(), "some text");
    assert_eq!(styled.to_text(), "\u{1b}[1msome text\u{1b}[0m");
}

#[test]
fn styles_compose() {
    let styled = "x".bold().paint(Color::Red).underline();
    assert_eq!(styled.style, Style { bold: true, underline: true, color: Some(Color::Red) });
    assert_eq!(styled.to_text(), "\u{1b}[1;4;31mx\u{1b}[0m");
    assert_eq!(styled.plain(), "x");
}

#[test]
fn each_colour_has_its_code() {
    let cases = [
        (Color::Black, "30"),
        (Color::Red, "31"),
        (Color::Green, "32"),
        (Color::Yellow, "33"),
        (Color::Blue, "34"),
        (Color::Purple, "35"),
        (Color::Cyan, "36"),
        (Color::White, "37"),
    ];
    for (color, code) in cases {
        assert_eq!("t".paint(color).to_text(), format!("\u{1b}[{}mt\u{1b}[0m", code));
    }
}

#[test]
fn plain_style_renders_the_text_alone() {
    let styled = StyledText { text: "raw".to_string(), style: Style::plain() };
    assert_eq!(styled.to_text(), "raw");
    assert_eq!("".underline().to_text(), "\u{1b}[4m\u{1b}[0m");
}
