//! The status bar.

use vstd::prelude::*;

use crate::app::AppState;
use crate::model::SortMode;
use crate::text::{concat3, has_prefix};
use crate::ui::paint::{colored_span, Color, Span};

verus! {

/// What the status bar says where there is no message: the sort mode and the keys.
pub open spec fn key_hints(mode: SortMode) -> Seq<char> {
    "[Sort: "@ + mode.title()
        + "]  v sort  ? help  r refresh  p pull  P push  s shell  q quit"@
}

/// What the status bar says.
pub open spec fn status_text(s: AppState) -> Seq<char> {
    match s.status_message {
        Some(message) => message@,
        None => key_hints(s.sort_mode),
    }
}

/// What the status bar says: the last message, or the sort mode and the keys.
pub fn render_status_bar(s: &AppState) -> (r: Span)
    ensures
        r@ == colored_span(status_text(*s), Color::DarkGray),
{
    match &s.status_message {
        Some(message) => Span::colored(message.as_str(), Color::DarkGray),
        None => {
            let hints = concat3(
                "[Sort: ",
                s.sort_mode.label(),
                "]  v sort  ? help  r refresh  p pull  P push  s shell  q quit",
            );
            Span::colored(hints.as_str(), Color::DarkGray)
        },
    }
}

/// A message is shown as it is. Where there is none, the sort mode is shown, and which keys
/// are of use.
pub proof fn messages_come_first(s: AppState, other: AppState)
    requires
        other.sort_mode != s.sort_mode,
    ensures
        s.status_message matches Some(message) ==> status_text(s) == message@,
        s.status_message is None ==> has_prefix(
            status_text(s),
            "[Sort: "@ + s.sort_mode.title() + "]"@,
        ),
        s.status_message is None && other.status_message is None ==> status_text(s) != status_text(
            other,
        ),
{
    reveal_strlit("]");
    reveal_strlit("]  v sort  ? help  r refresh  p pull  P push  s shell  q quit");
    reveal_strlit("[Sort: ");
    reveal_strlit("Name");
    reveal_strlit("PRs");
    reveal_strlit("Issues");
    let head = "[Sort: "@ + s.sort_mode.title() + "]"@;
    assert(key_hints(s.sort_mode).take(head.len() as int) =~= head);
    assert(key_hints(s.sort_mode)[7] == s.sort_mode.title()[0]);
    assert(key_hints(other.sort_mode)[7] == other.sort_mode.title()[0]);
    assert("Name"@[0] == 'N' && "PRs"@[0] == 'P' && "Issues"@[0] == 'I');
}

} // verus!
