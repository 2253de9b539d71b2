//! Styled text.

use vstd::prelude::*;

use crate::ui::area::Area;

verus! {

/// A colour of the terminal. `Reset` is the one that text has by itself.
#[derive(Debug, Clone, Copy, PartialEq, Eq, Structural)]
pub enum Color {
    Reset,
    White,
    DarkGray,
    Red,
    Green,
    Yellow,
    Cyan,
}

/// How text is shown. Without a colour the one beneath shows through.
#[derive(Debug, Clone, Copy, PartialEq, Eq, Structural)]
pub struct Style {
    pub fg: Option<Color>,
    pub bold: bool,
    pub reversed: bool,
}

/// Text as it stands.
pub open spec fn plain_style() -> Style {
    Style { fg: None, bold: false, reversed: false }
}

/// Text in a colour.
pub open spec fn colored_style(c: Color) -> Style {
    Style { fg: Some(c), bold: false, reversed: false }
}

/// Bold text.
pub open spec fn bold_style() -> Style {
    Style { fg: None, bold: true, reversed: false }
}

/// Bold text in a colour.
pub open spec fn strong_style(c: Color) -> Style {
    Style { fg: Some(c), bold: true, reversed: false }
}

impl Style {
    /// Text as it stands.
    pub fn plain() -> (r: Style)
        ensures
            r == plain_style(),
    {
        Style { fg: None, bold: false, reversed: false }
    }

    /// Text in a colour.
    pub fn colored(c: Color) -> (r: Style)
        ensures
            r == colored_style(c),
    {
        Style { fg: Some(c), bold: false, reversed: false }
    }

    /// Bold text.
    pub fn bold() -> (r: Style)
        ensures
            r == bold_style(),
    {
        Style { fg: None, bold: true, reversed: false }
    }

    /// Bold text in a colour.
    pub fn strong(c: Color) -> (r: Style)
        ensures
            r == strong_style(c),
    {
        Style { fg: Some(c), bold: true, reversed: false }
    }
}

/// A piece of text in one style.
#[derive(Debug, PartialEq, Eq)]
pub struct Span {
    pub text: String,
    pub style: Style,
}

/// The model of a `Span`.
pub struct SpanView {
    pub text: Seq<char>,
    pub style: Style,
}

impl View for Span {
    type V = SpanView;

    open spec fn view(&self) -> SpanView {
        SpanView { text: self.text@, style: self.style }
    }
}

/// The model of a line: the pieces that stand in it.
pub type LineView = Seq<SpanView>;

/// The models of the pieces of a line.
pub open spec fn line_view(spans: Seq<Span>) -> LineView {
    spans.map_values(|s: Span| s@)
}

/// The models of lines.
pub open spec fn line_views(lines: Seq<Vec<Span>>) -> Seq<LineView> {
    lines.map_values(|l: Vec<Span>| line_view(l@))
}

/// A piece of text as it stands.
pub open spec fn raw_span(text: Seq<char>) -> SpanView {
    SpanView { text, style: plain_style() }
}

/// A piece of text in a colour.
pub open spec fn colored_span(text: Seq<char>, c: Color) -> SpanView {
    SpanView { text, style: colored_style(c) }
}

/// A piece of bold text.
pub open spec fn bold_span(text: Seq<char>) -> SpanView {
    SpanView { text, style: bold_style() }
}

impl Span {
    /// A piece of text as it stands.
    pub fn raw(text: &str) -> (r: Span)
        ensures
            r@ == raw_span(text@),
    {
        Span { text: text.to_owned(), style: Style::plain() }
    }

    /// A piece of text in a style.
    pub fn styled(text: &str, style: Style) -> (r: Span)
        ensures
            r@ == (SpanView { text: text@, style }),
    {
        Span { text: text.to_owned(), style }
    }

    /// A piece of text in a colour.
    pub fn colored(text: &str, c: Color) -> (r: Span)
        ensures
            r@ == colored_span(text@, c),
    {
        Span { text: text.to_owned(), style: Style::colored(c) }
    }

    /// A piece of bold text.
    pub fn bold(text: &str) -> (r: Span)
        ensures
            r@ == bold_span(text@),
    {
        Span { text: text.to_owned(), style: Style::bold() }
    }
}

/// A framed popup over the board.
#[derive(Debug)]
pub struct PopupView {
    pub area: Area,
    pub title: String,
    pub frame: Style,
    pub lines: Vec<Vec<Span>>,
}

} // verus!
