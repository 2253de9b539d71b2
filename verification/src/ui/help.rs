//! The help screen.

use vstd::prelude::*;

use crate::ui::area::{centered, centered_rect, Area};
use crate::ui::paint::{
    bold_span, line_view, line_views, raw_span, strong_style, Color, LineView, PopupView, Span,
    Style,
};

verus! {

/// A line of plain text.
pub open spec fn text_line(text: Seq<char>) -> LineView {
    seq![raw_span(text)]
}

/// The lines of the help screen.
pub open spec fn help_text() -> Seq<LineView> {
    seq![
        seq![bold_span("Keybindings"@)],
        seq![],
        text_line("  h/l  ←/→     Move between columns"@),
        text_line("  j/k  ↑/↓     Move between repos"@),
        text_line("  Tab/S-Tab    Cycle repos across columns"@),
        text_line("  Enter        Open repo detail"@),
        text_line("  r            Refresh (re-scan + fetch)"@),
        text_line("  p            Pull selected repo"@),
        text_line("  P            Push selected repo"@),
        text_line("  s            Open shell in repo dir"@),
        text_line("  v            Cycle sort: Name/PRs/Issues"@),
        text_line("  ?            Toggle this help"@),
        text_line("  q / Esc      Quit / close overlay"@),
        text_line("  Ctrl+c       Force quit"@),
    ]
}

fn plain_line(text: &str) -> (r: Vec<Span>)
    ensures
        line_view(r@) == text_line(text@),
{
    let mut r: Vec<Span> = Vec::new();
    r.push(Span::raw(text));
    assert(line_view(r@) =~= text_line(text@));
    r
}

/// The lines of the help screen.
pub fn help_lines() -> (r: Vec<Vec<Span>>)
    ensures
        line_views(r@) == help_text(),
{
    let mut heading: Vec<Span> = Vec::new();
    heading.push(Span::bold("Keybindings"));
    let empty: Vec<Span> = Vec::new();
    assert(line_view(heading@) =~= seq![bold_span("Keybindings"@)]);
    assert(line_view(empty@) =~= seq![]);
    let mut lines: Vec<Vec<Span>> = Vec::new();
    lines.push(heading);
    lines.push(empty);
    lines.push(plain_line("  h/l  ←/→     Move between columns"));
    lines.push(plain_line("  j/k  ↑/↓     Move between repos"));
    lines.push(plain_line("  Tab/S-Tab    Cycle repos across columns"));
    lines.push(plain_line("  Enter        Open repo detail"));
    lines.push(plain_line("  r            Refresh (re-scan + fetch)"));
    lines.push(plain_line("  p            Pull selected repo"));
    lines.push(plain_line("  P            Push selected repo"));
    lines.push(plain_line("  s            Open shell in repo dir"));
    lines.push(plain_line("  v            Cycle sort: Name/PRs/Issues"));
    lines.push(plain_line("  ?            Toggle this help"));
    lines.push(plain_line("  q / Esc      Quit / close overlay"));
    lines.push(plain_line("  Ctrl+c       Force quit"));
    assert(line_views(lines@) =~= help_text());
    lines
}

/// The help over a screen.
pub fn render_help(screen: Area) -> (r: PopupView)
    requires
        screen.on_screen(),
    ensures
        r.area == centered(50, 60, screen),
        r.title@ == " Help "@,
        r.frame == strong_style(Color::Reset),
        line_views(r.lines@) == help_text(),
{
    PopupView {
        area: centered_rect(50, 60, screen),
        title: " Help ".to_owned(),
        frame: Style::strong(Color::Reset),
        lines: help_lines(),
    }
}

} // verus!
