//! Colours and styles.
use vstd::prelude::*;

verus! {

/// A colour of the terminal's palette, or one of 24 bits.
#[derive(Clone, Copy, Debug, PartialEq, Eq, Structural)]
pub enum Color {
    Black,
    White,
    DarkGray,
    Blue,
    Yellow,
    Magenta,
    LightRed,
    LightGreen,
    LightMagenta,
    LightCyan,
    Rgb(u8, u8, u8),
}

/// What a colour is for.
#[derive(Clone, Copy, Debug, PartialEq, Eq, Structural)]
pub enum Paint {
    Pink,
    Cyan,
    Green,
    Violet,
    Text,
    Muted,
    Border,
    SelectionBg,
    Warning,
    Danger,
    Black,
    KeyHint,
}

impl Paint {
    /// The colour of the terminal's palette.
    pub open spec fn ansi(self) -> Color {
        match self {
            Paint::Pink => Color::LightMagenta,
            Paint::Cyan => Color::LightCyan,
            Paint::Green => Color::LightGreen,
            Paint::Violet => Color::Magenta,
            Paint::Text => Color::White,
            Paint::Muted => Color::DarkGray,
            Paint::Border => Color::DarkGray,
            Paint::SelectionBg => Color::Blue,
            Paint::Warning => Color::Yellow,
            Paint::Danger => Color::LightRed,
            Paint::Black => Color::Black,
            Paint::KeyHint => Color::Rgb(80, 220, 255),
        }
    }

    /// The colour where 24 bits can be shown.
    pub open spec fn rgb(self) -> Color {
        match self {
            Paint::Pink => Color::Rgb(255, 102, 170),
            Paint::Cyan => Color::Rgb(68, 196, 255),
            Paint::Green => Color::Rgb(92, 212, 120),
            Paint::Violet => Color::Rgb(132, 107, 255),
            Paint::Text => Color::Rgb(230, 225, 218),
            Paint::Muted => Color::Rgb(117, 124, 134),
            Paint::Border => Color::Rgb(56, 77, 103),
            Paint::SelectionBg => Color::Rgb(38, 78, 123),
            Paint::Warning => Color::Rgb(255, 196, 82),
            Paint::Danger => Color::Rgb(255, 98, 98),
            Paint::Black => Color::Black,
            Paint::KeyHint => Color::Rgb(80, 220, 255),
        }
    }

    /// The colour, of the terminal's palette or of 24 bits.
    pub fn color(self, use_ansi: bool) -> (r: Color)
        ensures
            r == if use_ansi {
                self.ansi()
            } else {
                self.rgb()
            },
    {
        if use_ansi {
            match self {
                Paint::Pink => Color::LightMagenta,
                Paint::Cyan => Color::LightCyan,
                Paint::Green => Color::LightGreen,
                Paint::Violet => Color::Magenta,
                Paint::Text => Color::White,
                Paint::Muted => Color::DarkGray,
                Paint::Border => Color::DarkGray,
                Paint::SelectionBg => Color::Blue,
                Paint::Warning => Color::Yellow,
                Paint::Danger => Color::LightRed,
                Paint::Black => Color::Black,
                Paint::KeyHint => Color::Rgb(80, 220, 255),
            }
        } else {
            match self {
                Paint::Pink => Color::Rgb(255, 102, 170),
                Paint::Cyan => Color::Rgb(68, 196, 255),
                Paint::Green => Color::Rgb(92, 212, 120),
                Paint::Violet => Color::Rgb(132, 107, 255),
                Paint::Text => Color::Rgb(230, 225, 218),
                Paint::Muted => Color::Rgb(117, 124, 134),
                Paint::Border => Color::Rgb(56, 77, 103),
                Paint::SelectionBg => Color::Rgb(38, 78, 123),
                Paint::Warning => Color::Rgb(255, 196, 82),
                Paint::Danger => Color::Rgb(255, 98, 98),
                Paint::Black => Color::Black,
                Paint::KeyHint => Color::Rgb(80, 220, 255),
            }
        }
    }
}

/// How a text is shown.
#[derive(Clone, Copy, Debug, PartialEq, Eq, Structural)]
pub struct Style {
    pub fg: Option<Paint>,
    pub bg: Option<Paint>,
    pub bold: bool,
    pub underlined: bool,
}

/// A text as it comes.
pub open spec fn plain() -> Style {
    Style { fg: None, bg: None, bold: false, underlined: false }
}

/// A text in a colour.
pub open spec fn fg(paint: Paint) -> Style {
    Style { fg: Some(paint), bg: None, bold: false, underlined: false }
}

/// A bold text in a colour.
pub open spec fn bold(paint: Paint) -> Style {
    Style { fg: Some(paint), bg: None, bold: true, underlined: false }
}

/// A bold text in a colour on another.
pub open spec fn bold_on(paint: Paint, ground: Paint) -> Style {
    Style { fg: Some(paint), bg: Some(ground), bold: true, underlined: false }
}

/// A piece of text in one style.
#[derive(Debug)]
pub struct Span {
    pub text: String,
    pub style: Style,
}

#[verifier::ext_equal]
pub struct SpanView {
    pub text: Seq<char>,
    pub style: Style,
}

impl View for Span {
    type V = SpanView;

    open spec fn view(&self) -> SpanView {
        SpanView { text: self.text@, style: self.style }
    }
}

pub open spec fn span_views(spans: Seq<Span>) -> Seq<SpanView> {
    spans.map_values(|s: Span| s@)
}

pub open spec fn line_views(lines: Seq<Vec<Span>>) -> Seq<Seq<SpanView>> {
    lines.map_values(|l: Vec<Span>| span_views(l@))
}

pub open spec fn span(text: Seq<char>, style: Style) -> SpanView {
    SpanView { text, style }
}

/// A piece of text as it comes.
pub fn raw(text: &str) -> (r: Span)
    ensures
        r@ == span(text@, plain()),
{
    Span {
        text: text.to_string(),
        style: Style { fg: None, bg: None, bold: false, underlined: false },
    }
}

/// A piece of text in a colour.
pub fn tinted(text: &str, paint: Paint) -> (r: Span)
    ensures
        r@ == span(text@, fg(paint)),
{
    Span {
        text: text.to_string(),
        style: Style { fg: Some(paint), bg: None, bold: false, underlined: false },
    }
}

/// A bold piece of text in a colour.
pub fn strong(text: &str, paint: Paint) -> (r: Span)
    ensures
        r@ == span(text@, bold(paint)),
{
    Span {
        text: text.to_string(),
        style: Style { fg: Some(paint), bg: None, bold: true, underlined: false },
    }
}

/// A bold piece of text in a colour on another.
pub fn badge(text: &str, paint: Paint, ground: Paint) -> (r: Span)
    ensures
        r@ == span(text@, bold_on(paint, ground)),
{
    Span {
        text: text.to_string(),
        style: Style { fg: Some(paint), bg: Some(ground), bold: true, underlined: false },
    }
}

} // verus!
