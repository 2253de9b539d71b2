//! The board: its columns and their cards.

use vstd::prelude::*;

use crate::app::{column, derefs, ordered_column, selection, AppState};
use crate::model::{
    card_rows, state_of_column, tags_are, FetchStatus, FetchStatusView, ForgeStatus,
    ForgeStatusView, Repo, RepoView, SyncState, WorktreeInfo, WorktreeView, COLUMN_COUNT,
};
use crate::number::{decimal, decimal_text};
use crate::path::{file_name, file_name_of};
use crate::text::{concat, concat3, lowercase};
use crate::ui::area::{between_end_rows, frame_shrinks, inside_frame, Area};
use crate::ui::paint::{
    colored_span, colored_style, line_view, line_views, raw_span, strong_style, Color, LineView,
    Span, SpanView, Style,
};

verus! {

// ---------------------------------------------------------------------------
// Scrolling
// ---------------------------------------------------------------------------

/// The sum of the heights from place `from` up to place `to`, which is not counted.
pub open spec fn total(heights: Seq<u16>, from: int, to: int) -> int
    decreases to - from,
{
    if from >= to {
        0
    } else {
        heights[from] + total(heights, from + 1, to)
    }
}

/// The place that stands for `selected` among `count` cards.
pub open spec fn within_cards(selected: usize, count: nat) -> int {
    if selected < count {
        selected as int
    } else {
        count - 1
    }
}

/// `offset` is the first card with which the cards up to the selected one fit in the
/// viewport, or the selected card where it does not fit by itself.
pub open spec fn is_scroll_offset(
    heights: Seq<u16>,
    selected: usize,
    viewport: u16,
    offset: int,
) -> bool {
    let last = within_cards(selected, heights.len());
    if heights.len() == 0 {
        offset == 0
    } else {
        &&& 0 <= offset <= last
        &&& total(heights, offset, last + 1) <= viewport || offset == last
        &&& forall|o: int| 0 <= o < offset ==> #[trigger] total(heights, o, last + 1) > viewport
    }
}

/// More cards are no less high.
pub proof fn total_grows(heights: Seq<u16>, a: int, b: int, to: int)
    requires
        a <= b <= to,
    ensures
        0 <= total(heights, b, to) <= total(heights, a, to),
    decreases to - a,
{
    if a < b {
        total_grows(heights, a + 1, b, to);
    } else if a < to {
        total_grows(heights, a + 1, a + 1, to);
    }
}

proof fn total_at_end(heights: Seq<u16>, from: int, to: int)
    requires
        from <= to,
    ensures
        total(heights, from, to + 1) == total(heights, from, to) + heights[to],
    decreases to - from,
{
    if from < to {
        total_at_end(heights, from + 1, to);
    } else {
        assert(total(heights, to + 1, to + 1) == 0);
    }
}

/// There is only one offset to scroll to.
pub proof fn scroll_offset_is_unique(
    heights: Seq<u16>,
    selected: usize,
    viewport: u16,
    a: int,
    b: int,
)
    requires
        is_scroll_offset(heights, selected, viewport, a),
        is_scroll_offset(heights, selected, viewport, b),
    ensures
        a == b,
{
    let last = within_cards(selected, heights.len());
    if heights.len() > 0 {
        if a < b {
            assert(total(heights, a, last + 1) > viewport);
        }
        if b < a {
            assert(total(heights, b, last + 1) > viewport);
        }
    }
}

/// Finds the smallest scroll offset such that the card at `selected` fits in `viewport`.
pub fn compute_scroll_offset(heights: &[u16], selected: usize, viewport: u16) -> (r: usize)
    ensures
        is_scroll_offset(heights@, selected, viewport, r as int),
{
    if heights.len() == 0 {
        return 0;
    }
    let last: usize = if selected < heights.len() {
        selected
    } else {
        heights.len() - 1
    };
    let mut offset: usize = last;
    let mut height: u32 = heights[last] as u32;
    proof {
        assert(total(heights@, last + 1, last + 1) == 0);
        assert(total(heights@, last as int, last + 1) == heights@[last as int]);
    }
    if height > viewport as u32 {
        proof {
            assert forall|o: int| 0 <= o < last implies #[trigger] total(heights@, o, last + 1)
                > viewport by {
                total_grows(heights@, o, last as int, last + 1);
            }
        }
        return last;
    }
    while offset > 0 && height + heights[offset - 1] as u32 <= viewport as u32
        invariant
            offset <= last < heights@.len(),
            height == total(heights@, offset as int, last + 1),
            height <= viewport,
        decreases offset,
    {
        offset = offset - 1;
        height = height + heights[offset] as u32;
    }
    proof {
        assert forall|o: int| 0 <= o < offset implies #[trigger] total(heights@, o, last + 1)
            > viewport by {
            assert(total(heights@, offset - 1, last + 1) == heights@[offset - 1] + height);
            total_grows(heights@, o, offset - 1, last + 1);
        }
    }
    offset
}

// ---------------------------------------------------------------------------
// Columns
// ---------------------------------------------------------------------------

/// The cards from place `from` on that stand below one another from row `y` on and end
/// above row `bottom`: the place of each and its first row.
pub open spec fn cards_from(heights: Seq<u16>, from: int, y: int, bottom: int) -> Seq<(int, int)>
    decreases heights.len() - from,
{
    if from >= heights.len() || y + heights[from] > bottom {
        seq![]
    } else {
        seq![(from, y)] + cards_from(heights, from + 1, y + heights[from], bottom)
    }
}

/// The area of a card with a height at a row of the column.
pub open spec fn card_area(inner: Area, y: int, height: u16) -> Area {
    Area { y: y as u16, height, ..inner }
}

/// The places and areas of the cards that a column shows.
pub open spec fn shown_cards(
    heights: Seq<u16>,
    offset: int,
    inner: Area,
) -> Seq<(int, Area)> {
    cards_from(heights, offset, inner.y as int, inner.y + inner.height).map_values(
        |c: (int, int)| (c.0, card_area(inner, c.1, heights[c.0])),
    )
}

/// The models of places with areas.
pub open spec fn placed(s: Seq<(usize, Area)>) -> Seq<(int, Area)> {
    s.map_values(|c: (usize, Area)| (c.0 as int, c.1))
}

proof fn cards_from_facts(heights: Seq<u16>, from: int, y: int, bottom: int, k: int)
    requires
        0 <= from,
        0 <= k < cards_from(heights, from, y, bottom).len(),
    ensures
        ({
            let c = cards_from(heights, from, y, bottom)[k];
            &&& c.0 == from + k
            &&& c.0 < heights.len()
            &&& c.1 == y + total(heights, from, from + k)
            &&& y <= c.1
            &&& c.1 + heights[c.0] <= bottom
        }),
    decreases heights.len() - from,
{
    if k > 0 {
        let rest = cards_from(heights, from + 1, y + heights[from], bottom);
        assert(cards_from(heights, from, y, bottom)[k] == rest[k - 1]);
        cards_from_facts(heights, from + 1, y + heights[from], bottom, k - 1);
        assert(total(heights, from, from + k) == heights[from] + total(
            heights,
            from + 1,
            from + k,
        ));
    }
}

/// The cards that a column shows follow one another from the offset on; each begins in
/// the row in which the one before ends, and lies within the column.
pub proof fn shown_cards_are_stacked(heights: Seq<u16>, offset: int, inner: Area, k: int)
    requires
        inner.on_screen(),
        0 <= offset,
        0 <= k < shown_cards(heights, offset, inner).len(),
    ensures
        ({
            let (at, area) = shown_cards(heights, offset, inner)[k];
            &&& at == offset + k
            &&& at < heights.len()
            &&& area.lies_in(inner)
            &&& area.on_screen()
            &&& area.height == heights[at]
            &&& area.y == inner.y + total(heights, offset, at)
        }),
{
    cards_from_facts(heights, offset, inner.y as int, inner.y + inner.height, k);
}

proof fn card_is_shown(heights: Seq<u16>, from: int, y: int, bottom: int, at: int)
    requires
        0 <= from <= at < heights.len(),
        y + total(heights, from, at + 1) <= bottom,
    ensures
        cards_from(heights, from, y, bottom).len() > at - from,
        cards_from(heights, from, y, bottom)[at - from].0 == at,
    decreases at - from,
{
    total_grows(heights, from + 1, from + 1, at + 1);
    total_grows(heights, from + 1, at + 1, at + 1);
    if from < at {
        card_is_shown(heights, from + 1, y + heights[from], bottom, at);
    }
}

/// After scrolling the selected card is shown, if it is no higher than the column.
pub proof fn selected_card_is_shown(heights: Seq<u16>, selected: usize, offset: int, inner: Area)
    requires
        inner.on_screen(),
        selected < heights.len(),
        heights[selected as int] <= inner.height,
        is_scroll_offset(heights, selected, inner.height, offset),
    ensures
        exists|k: int|
            0 <= k < shown_cards(heights, offset, inner).len() && (#[trigger] shown_cards(
                heights,
                offset,
                inner,
            )[k]).0 == selected,
{
    let last = selected as int;
    assert(total(heights, last + 1, last + 1) == 0);
    assert(total(heights, last, last + 1) == heights[last]);
    card_is_shown(heights, offset, inner.y as int, inner.y + inner.height, last);
    assert(shown_cards(heights, offset, inner)[last - offset].0 == last);
}

/// Whether a column needs a scrollbar: where its cards are higher than it is.
pub open spec fn overflows(heights: Seq<u16>, inner: Area) -> bool {
    total(heights, 0, heights.len() as int) > inner.height
}

/// A column that needs no scrollbar, with its first card selected or any other, shows
/// all of its cards.
pub proof fn everything_is_shown_without_scrollbar(
    heights: Seq<u16>,
    selected: usize,
    offset: int,
    inner: Area,
)
    requires
        inner.on_screen(),
        !overflows(heights, inner),
        is_scroll_offset(heights, selected, inner.height, offset),
    ensures
        offset == 0,
        shown_cards(heights, offset, inner).len() == heights.len(),
{
    if heights.len() > 0 {
        let last = within_cards(selected, heights.len());
        let n = heights.len() as int;
        prefix_is_less(heights, 0, last + 1, n);
        assert(offset == 0) by {
            if offset > 0 {
                assert(total(heights, 0, last + 1) > inner.height);
            }
        }
        card_is_shown(heights, 0, inner.y as int, inner.y + inner.height, n - 1);
        cards_at_most(heights, 0, inner.y as int, inner.y + inner.height);
    }
}

proof fn prefix_is_less(heights: Seq<u16>, from: int, a: int, b: int)
    requires
        from <= a <= b,
    ensures
        total(heights, from, a) <= total(heights, from, b),
    decreases b - a,
{
    if a < b {
        prefix_is_less(heights, from, a, b - 1);
        total_at_end(heights, from, b - 1);
    }
}

proof fn cards_at_most(heights: Seq<u16>, from: int, y: int, bottom: int)
    requires
        0 <= from <= heights.len(),
    ensures
        cards_from(heights, from, y, bottom).len() <= heights.len() - from,
    decreases heights.len() - from,
{
    if from < heights.len() && y + heights[from] <= bottom {
        cards_at_most(heights, from + 1, y + heights[from], bottom);
    }
}

fn lay_out_cards(heights: &Vec<u16>, offset: usize, inner: Area) -> (r: Vec<(usize, Area)>)
    requires
        inner.on_screen(),
    ensures
        placed(r@) == shown_cards(heights@, offset as int, inner),
{
    let ghost bottom = inner.y + inner.height;
    let ghost f = |c: (int, int)| (c.0, card_area(inner, c.1, heights@[c.0]));
    let mut out: Vec<(usize, Area)> = Vec::new();
    let mut at: usize = offset;
    let mut y: u16 = inner.y;
    let end: u16 = inner.y + inner.height;
    assert(placed(out@) =~= Seq::<(int, Area)>::empty());
    assert(placed(out@) + cards_from(heights@, at as int, y as int, bottom).map_values(f)
        =~= shown_cards(heights@, offset as int, inner));
    while at < heights.len() && heights[at] <= end - y
        invariant
            inner.on_screen(),
            bottom == inner.y + inner.height,
            end == bottom,
            y <= end,
            f == (|c: (int, int)| (c.0, card_area(inner, c.1, heights@[c.0]))),
            placed(out@) + cards_from(heights@, at as int, y as int, bottom).map_values(f)
                == shown_cards(heights@, offset as int, inner),
        decreases heights.len() - at,
    {
        let h: u16 = heights[at];
        let ghost before = out@;
        out.push((at, Area { x: inner.x, y, width: inner.width, height: h }));
        proof {
            let rest = cards_from(heights@, at + 1, y + h, bottom);
            let all = cards_from(heights@, at as int, y as int, bottom);
            assert(all =~= seq![(at as int, y as int)] + rest);
            assert(all.map_values(f) =~= seq![f((at as int, y as int))] + rest.map_values(f));
            assert(placed(out@) =~= placed(before).push(f((at as int, y as int))));
            assert(placed(out@) + rest.map_values(f) =~= placed(before) + all.map_values(f));
        }
        at = at + 1;
        y = y + h;
    }
    assert(cards_from(heights@, at as int, y as int, bottom) =~= Seq::<(int, int)>::empty());
    assert(placed(out@) + cards_from(heights@, at as int, y as int, bottom).map_values(f)
        =~= placed(out@));
    out
}

fn is_taller(heights: &Vec<u16>, height: u16) -> (r: bool)
    ensures
        r == (total(heights@, 0, heights@.len() as int) > height),
{
    let mut sum: u32 = 0;
    let mut k: usize = 0;
    assert(total(heights@, 0, 0) == 0);
    while k < heights.len()
        invariant
            k <= heights@.len(),
            sum == total(heights@, 0, k as int),
            sum <= height,
        decreases heights@.len() - k,
    {
        proof {
            total_at_end(heights@, 0, k as int);
        }
        sum = sum + heights[k] as u32;
        k = k + 1;
        if sum > height as u32 {
            proof {
                prefix_is_less(heights@, 0, k as int, heights@.len() as int);
            }
            return true;
        }
    }
    false
}

/// What a column shows: its title, the style of its frame, its cards and whether a
/// scrollbar stands at its edge.
#[derive(Debug)]
pub struct ColumnView {
    pub title: String,
    pub frame: Style,
    /// The place of each card that is shown among those of the column, and its area.
    pub cards: Vec<(usize, Area)>,
    pub scrollbar: Option<ScrollbarView>,
}

/// A scrollbar: where it stands, how many cards it stands for, and which of them it
/// points to.
#[derive(Debug, Clone, Copy, PartialEq, Eq, Structural)]
pub struct ScrollbarView {
    pub area: Area,
    pub length: usize,
    pub position: usize,
}

/// The title of a column.
pub open spec fn column_title(state: SyncState, count: nat) -> Seq<char> {
    " "@ + state.heading() + " ("@ + decimal(count) + ") "@
}

/// The style of a column's frame and of its scrollbar.
pub open spec fn column_style(selected: bool) -> Style {
    if selected {
        strong_style(Color::Reset)
    } else {
        colored_style(Color::DarkGray)
    }
}

/// The heights of the cards of repositories.
pub open spec fn card_heights(repos: Seq<Repo>) -> Seq<u16> {
    repos.map_values(|r: Repo| card_rows(r.worktrees@.len()) as u16)
}

/// The view shows column `col` of the board in an area.
pub open spec fn shows_column(view: ColumnView, s: AppState, col: int, area: Area) -> bool {
    let repos = ordered_column(s.repos@, col, s.sort_mode);
    let heights = card_heights(repos);
    let inner = area.framed();
    &&& view.title@ == column_title(state_of_column(col), repos.len())
    &&& view.frame == column_style(s.selected_column == col)
    &&& if inner.height == 0 || repos.len() == 0 {
        view.cards@.len() == 0 && view.scrollbar is None
    } else {
        &&& exists|offset: int|
            {
                &&& #[trigger] is_scroll_offset(
                    heights,
                    s.selected_index@[col],
                    inner.height,
                    offset,
                )
                &&& placed(view.cards@) == shown_cards(heights, offset, inner)
            }
        &&& if overflows(heights, inner) {
            &&& view.scrollbar matches Some(bar)
            &&& bar.area == area.without_end_rows()
            &&& bar.length == repos.len()
            &&& bar.position == s.selected_index@[col]
        } else {
            view.scrollbar is None
        }
    }
}

fn heights_of(repos: &Vec<&Repo>) -> (r: Vec<u16>)
    ensures
        r@ == card_heights(derefs(repos@)),
{
    let mut out: Vec<u16> = Vec::new();
    let mut k: usize = 0;
    while k < repos.len()
        invariant
            k <= repos@.len(),
            out@ =~= card_heights(derefs(repos@)).take(k as int),
        decreases repos@.len() - k,
    {
        out.push(repos[k].card_height());
        k = k + 1;
    }
    assert(out@ =~= card_heights(derefs(repos@)));
    out
}

/// What column `col` of the board shows in an area.
pub fn view_column(s: &AppState, col: usize, area: Area) -> (r: ColumnView)
    requires
        col < COLUMN_COUNT,
        area.on_screen(),
    ensures
        shows_column(r, *s, col as int, area),
{
    let repos = s.repos_in_column(col);
    assert(derefs(repos@).len() == repos@.len());
    let state = SyncState::at_column(col);
    let head = concat3(" ", state.label(), " (");
    let title = concat3(head.as_str(), decimal_text(repos.len() as u64).as_str(), ") ");
    let frame = if s.selected_column == col {
        Style::strong(Color::Reset)
    } else {
        Style::colored(Color::DarkGray)
    };
    let inner = inside_frame(area);
    if inner.height == 0 || repos.len() == 0 {
        return ColumnView { title, frame, cards: Vec::new(), scrollbar: None };
    }
    let heights = heights_of(&repos);
    let offset: usize = compute_scroll_offset(
        heights.as_slice(),
        s.selected_index[col],
        inner.height,
    );
    let cards = lay_out_cards(&heights, offset, inner);
    let scrollbar = if is_taller(&heights, inner.height) {
        Some(
            ScrollbarView {
                area: between_end_rows(area),
                length: repos.len(),
                position: s.selected_index[col],
            },
        )
    } else {
        None
    };
    ColumnView { title, frame, cards, scrollbar }
}

// ---------------------------------------------------------------------------
// Cards
// ---------------------------------------------------------------------------

/// A line of one piece, if a condition holds.
pub open spec fn span_if(condition: bool, span: SpanView) -> LineView {
    if condition {
        seq![span]
    } else {
        seq![]
    }
}

/// Picture `n` of the spinner.
pub open spec fn spinner_picture(n: usize) -> Seq<char> {
    if n == 0 {
        "⠋"@
    } else if n == 1 {
        "⠙"@
    } else if n == 2 {
        "⠹"@
    } else if n == 3 {
        "⠸"@
    } else if n == 4 {
        "⠼"@
    } else if n == 5 {
        "⠴"@
    } else if n == 6 {
        "⠦"@
    } else if n == 7 {
        "⠧"@
    } else if n == 8 {
        "⠇"@
    } else {
        "⠏"@
    }
}

fn spinner(index: usize) -> (r: &'static str)
    ensures
        r@ == spinner_picture(index % 10),
{
    match index % 10 {
        0 => "⠋",
        1 => "⠙",
        2 => "⠹",
        3 => "⠸",
        4 => "⠼",
        5 => "⠴",
        6 => "⠦",
        7 => "⠧",
        8 => "⠇",
        _ => "⠏",
    }
}

/// The sign for how far the fetch of a repository has come.
pub open spec fn fetch_sign(status: FetchStatusView, spinner: usize) -> Seq<char> {
    match status {
        FetchStatusView::Queued => " ⏳"@,
        FetchStatusView::Fetching => " "@ + spinner_picture(spinner % 10),
        FetchStatusView::Done => seq![],
        FetchStatusView::Failed(_) => " ✗"@,
    }
}

/// The first line of a card: the branch, the default branch where it is another one, and
/// the sign of the fetch.
pub open spec fn branch_line(r: RepoView, spinner: usize) -> LineView {
    seq![colored_span("branch:"@ + r.current_branch, Color::White)] + (match r.default_branch {
        Some(default) => if default != r.current_branch {
            seq![raw_span("  "@), colored_span("default:"@ + default, Color::DarkGray)]
        } else {
            seq![]
        },
        None => seq![],
    }) + span_if(
        !(r.fetch_status is Done),
        colored_span(fetch_sign(r.fetch_status, spinner), Color::Yellow),
    )
}

/// A number that is not zero behind a sign, and a space.
pub open spec fn count_spans(sign: Seq<char>, n: u32, c: Color) -> LineView {
    if n > 0 {
        seq![colored_span(sign + decimal(n as nat), c), raw_span(" "@)]
    } else {
        seq![]
    }
}

/// The tags of a card, each followed by a space.
pub open spec fn tag_spans(tags: Seq<SyncState>) -> LineView
    decreases tags.len(),
{
    if tags.len() == 0 {
        seq![]
    } else {
        tag_spans(tags.drop_last()) + seq![
            colored_span("["@ + lowercase(tags.last().heading()) + "]"@, Color::DarkGray),
            raw_span(" "@),
        ]
    }
}

/// The second line of a card: the counts that are not zero and the tags, or a tick.
pub open spec fn stats_line(r: RepoView) -> LineView {
    let line = count_spans("↓"@, r.behind, Color::Red) + count_spans("↑"@, r.ahead, Color::Green)
        + count_spans("*"@, r.dirty_files, Color::Yellow) + tag_spans(r.tags());
    if line.len() == 0 {
        seq![colored_span("✓"@, Color::Green)]
    } else {
        line
    }
}

/// The third line of a card: what the forge says.
pub open spec fn forge_line(r: RepoView) -> LineView {
    match r.forge_status {
        ForgeStatusView::Done => match r.forge_stats {
            Some(stats) => seq![
                colored_span("PR "@ + decimal(stats.open_prs as nat), Color::Green),
                raw_span("  "@),
                colored_span("Issues "@ + decimal(stats.open_issues as nat), Color::Red),
            ] + (if stats.is_fork {
                seq![raw_span("  "@), colored_span("Fork"@, Color::DarkGray)]
            } else {
                seq![]
            }),
            None => seq![],
        },
        ForgeStatusView::Queued | ForgeStatusView::Fetching => seq![
            colored_span("PR ...  Issues ..."@, Color::DarkGray),
        ],
        ForgeStatusView::Failed(_) => seq![colored_span("err"@, Color::Red)],
        ForgeStatusView::NotApplicable => seq![],
    }
}

/// The line of a card for a worktree.
pub open spec fn worktree_line(w: WorktreeView) -> LineView {
    seq![
        colored_span("↳ "@, Color::DarkGray),
        colored_span(w.branch, Color::Cyan),
        if w.dirty_files > 0 {
            colored_span("  *"@ + decimal(w.dirty_files as nat), Color::Yellow)
        } else {
            colored_span("  ✓"@, Color::Green)
        },
    ]
}

/// Line `k` of a card.
pub open spec fn card_line(r: RepoView, k: int, spinner: usize) -> LineView {
    if k == 0 {
        branch_line(r, spinner)
    } else if k == 1 {
        stats_line(r)
    } else if k == 2 {
        forge_line(r)
    } else {
        worktree_line(r.worktrees[k - 3])
    }
}

/// The number of lines that a card shows within its frame: three, and one for each
/// worktree, as far as there is room.
pub open spec fn line_count(r: RepoView, inner: Area) -> nat {
    if inner.width == 0 {
        0
    } else if r.worktrees.len() + 3 <= inner.height {
        r.worktrees.len() + 3
    } else {
        inner.height as nat
    }
}

/// The lines of a card; line `k` stands in row `k` within the frame.
pub open spec fn card_text(r: RepoView, inner: Area, spinner: usize) -> Seq<LineView> {
    Seq::new(line_count(r, inner), |k: int| card_line(r, k, spinner))
}

/// The colour of a repository's name.
pub open spec fn name_color(r: RepoView) -> Color {
    if !r.has_remote {
        Color::Yellow
    } else {
        match r.state() {
            SyncState::Behind => Color::Red,
            SyncState::Uncommitted => Color::Yellow,
            SyncState::Ahead => Color::Green,
            SyncState::InSync => Color::Reset,
        }
    }
}

/// The name under which a card shows a repository: for a worktree that of its main
/// repository, as far as it has a name.
pub open spec fn shown_name(r: RepoView) -> Seq<char> {
    if r.is_worktree && r.worktree_main is Some && file_name_of(r.worktree_main->0) is Some {
        file_name_of(r.worktree_main->0)->0
    } else {
        r.name
    }
}

/// The title of a card: the name; the branch of a worktree, or the number of worktrees;
/// and a warning where there is no remote.
pub open spec fn title_line(r: RepoView, c: Color) -> LineView {
    seq![raw_span(" "@), SpanView { text: shown_name(r), style: strong_style(c) }] + span_if(
        r.is_worktree,
        colored_span(" ["@ + r.current_branch + "]"@, Color::Cyan),
    ) + span_if(
        !r.is_worktree && r.worktrees.len() > 0,
        colored_span(" (+"@ + decimal(r.worktrees.len()) + " wt)"@, Color::DarkGray),
    ) + span_if(!r.has_remote, colored_span(" ⚠"@, Color::Yellow)) + seq![raw_span(" "@)]
}

/// The style of a card's frame.
pub open spec fn card_style(selected: bool, in_focused_column: bool) -> Style {
    if selected {
        strong_style(Color::Reset)
    } else if in_focused_column {
        colored_style(Color::Reset)
    } else {
        colored_style(Color::DarkGray)
    }
}

fn push_count(line: &mut Vec<Span>, sign: &str, n: u32, c: Color)
    ensures
        line_view(final(line)@) == line_view(old(line)@) + count_spans(sign@, n, c),
{
    if n > 0 {
        let ghost before = line@;
        line.push(Span::colored(concat(sign, decimal_text(n as u64).as_str()).as_str(), c));
        line.push(Span::raw(" "));
        assert(line_view(line@) =~= line_view(before) + count_spans(sign@, n, c));
    } else {
        assert(line_view(line@) =~= line_view(line@) + count_spans(sign@, n, c));
    }
}

/// Line 1: branch info and fetch indicator.
pub fn render_branch_line(repo: &Repo, spinner_index: usize) -> (r: Vec<Span>)
    ensures
        line_view(r@) == branch_line(repo@, spinner_index),
{
    let mut line: Vec<Span> = Vec::new();
    line.push(
        Span::colored(concat("branch:", repo.current_branch.as_str()).as_str(), Color::White),
    );
    match &repo.default_branch {
        Some(default) => {
            if *default != repo.current_branch {
                line.push(Span::raw("  "));
                line.push(
                    Span::colored(concat("default:", default.as_str()).as_str(), Color::DarkGray),
                );
            }
        },
        None => {},
    }
    match &repo.fetch_status {
        FetchStatus::Queued => {
            line.push(Span::colored(" ⏳", Color::Yellow));
        },
        FetchStatus::Fetching => {
            line.push(
                Span::colored(concat(" ", spinner(spinner_index)).as_str(), Color::Yellow),
            );
        },
        FetchStatus::Done => {},
        FetchStatus::Failed(_) => {
            line.push(Span::colored(" ✗", Color::Yellow));
        },
    }
    assert(line_view(line@) =~= branch_line(repo@, spinner_index));
    line
}

/// Line 2: git stats and secondary state tags.
pub fn render_stats_line(repo: &Repo) -> (r: Vec<Span>)
    ensures
        line_view(r@) == stats_line(repo@),
{
    let mut line: Vec<Span> = Vec::new();
    assert(line_view(line@) =~= seq![]);
    push_count(&mut line, "↓", repo.behind, Color::Red);
    push_count(&mut line, "↑", repo.ahead, Color::Green);
    push_count(&mut line, "*", repo.dirty_files, Color::Yellow);
    let ghost counts = line_view(line@);
    assert(counts =~= count_spans("↓"@, repo.behind, Color::Red) + count_spans(
        "↑"@,
        repo.ahead,
        Color::Green,
    ) + count_spans("*"@, repo.dirty_files, Color::Yellow));
    let tags = repo.secondary_states();
    let mut k: usize = 0;
    assert(line_view(line@) =~= counts + tag_spans(tags@.take(0)));
    while k < tags.len()
        invariant
            k <= tags@.len(),
            line_view(line@) == counts + tag_spans(tags@.take(k as int)),
        decreases tags@.len() - k,
    {
        let ghost before = line@;
        let label = tags[k].label().to_lowercase();
        line.push(Span::colored(concat3("[", label.as_str(), "]").as_str(), Color::DarkGray));
        line.push(Span::raw(" "));
        proof {
            let next = tags@.take(k + 1);
            assert(next.drop_last() =~= tags@.take(k as int));
            assert(next.last() == tags@[k as int]);
            let added = seq![
                colored_span(
                    "["@ + lowercase(tags@[k as int].heading()) + "]"@,
                    Color::DarkGray,
                ),
                raw_span(" "@),
            ];
            assert(tag_spans(next) == tag_spans(tags@.take(k as int)) + added);
            assert(line_view(line@) =~= line_view(before) + added);
            assert(line_view(line@) =~= counts + tag_spans(next));
        }
        k = k + 1;
    }
    assert(tags@.take(tags@.len() as int) =~= tags@);
    assert(line_view(line@).len() == line@.len());
    if line.len() == 0 {
        line.push(Span::colored("✓", Color::Green));
        assert(line_view(line@) =~= stats_line(repo@));
    }
    line
}

/// Line 3: forge stats (PRs, issues, fork).
pub fn render_forge_line(repo: &Repo) -> (r: Vec<Span>)
    ensures
        line_view(r@) == forge_line(repo@),
{
    let mut line: Vec<Span> = Vec::new();
    match &repo.forge_status {
        ForgeStatus::Done => match &repo.forge_stats {
            Some(stats) => {
                let prs = concat("PR ", decimal_text(stats.open_prs as u64).as_str());
                let issues = concat("Issues ", decimal_text(stats.open_issues as u64).as_str());
                line.push(Span::colored(prs.as_str(), Color::Green));
                line.push(Span::raw("  "));
                line.push(Span::colored(issues.as_str(), Color::Red));
                if stats.is_fork {
                    line.push(Span::raw("  "));
                    line.push(Span::colored("Fork", Color::DarkGray));
                }
            },
            None => {},
        },
        ForgeStatus::Queued | ForgeStatus::Fetching => {
            line.push(Span::colored("PR ...  Issues ...", Color::DarkGray));
        },
        ForgeStatus::Failed(_) => {
            line.push(Span::colored("err", Color::Red));
        },
        ForgeStatus::NotApplicable => {},
    }
    assert(line_view(line@) =~= forge_line(repo@));
    line
}

fn render_worktree_line(wt: &WorktreeInfo) -> (r: Vec<Span>)
    ensures
        line_view(r@) == worktree_line(wt@),
{
    let mut line: Vec<Span> = Vec::new();
    line.push(Span::colored("↳ ", Color::DarkGray));
    line.push(Span::colored(wt.branch.as_str(), Color::Cyan));
    if wt.dirty_files > 0 {
        let count = concat("  *", decimal_text(wt.dirty_files as u64).as_str());
        line.push(Span::colored(count.as_str(), Color::Yellow));
    } else {
        line.push(Span::colored("  ✓", Color::Green));
    }
    assert(line_view(line@) =~= worktree_line(wt@));
    line
}

/// The lines of a card; line `k` stands in row `k` within the frame.
pub fn render_card_lines(repo: &Repo, inner: Area, spinner_index: usize) -> (r: Vec<Vec<Span>>)
    ensures
        line_views(r@) == card_text(repo@, inner, spinner_index),
{
    let ghost want = card_text(repo@, inner, spinner_index);
    let mut lines: Vec<Vec<Span>> = Vec::new();
    if inner.height == 0 || inner.width == 0 {
        assert(line_views(lines@) =~= want);
        return lines;
    }
    lines.push(render_branch_line(repo, spinner_index));
    if inner.height >= 2 {
        lines.push(render_stats_line(repo));
    }
    if inner.height >= 3 {
        lines.push(render_forge_line(repo));
    }
    assert(repo@.worktrees.len() == repo.worktrees@.len());
    if inner.height <= 3 {
        assert(line_views(lines@) =~= want);
        return lines;
    }
    let mut k: usize = 0;
    assert(line_views(lines@) =~= want.take(3));
    while k < repo.worktrees.len() && k < (inner.height - 3) as usize
        invariant
            inner.height > 3,
            inner.width > 0,
            want == card_text(repo@, inner, spinner_index),
            repo@.worktrees.len() == repo.worktrees@.len(),
            k + 3 <= want.len(),
            line_views(lines@) == want.take(k + 3),
        decreases repo.worktrees@.len() - k,
    {
        let ghost before = lines@;
        let line = render_worktree_line(&repo.worktrees[k]);
        proof {
            assert(want[k + 3] == worktree_line(repo@.worktrees[k as int]));
            assert(line_views(before.push(line)) =~= line_views(before).push(line_view(line@)));
            assert(want.take(k + 4) =~= want.take(k + 3).push(want[k + 3]));
        }
        lines.push(line);
        k = k + 1;
    }
    assert(want.take(k + 3) =~= want);
    lines
}

/// The colour of a repository's name, by its sync status.
pub fn status_color(repo: &Repo) -> (r: Color)
    ensures
        r == name_color(repo@),
{
    if !repo.has_remote {
        return Color::Yellow;
    }
    match repo.sync_state() {
        SyncState::Behind => Color::Red,
        SyncState::Uncommitted => Color::Yellow,
        SyncState::Ahead => Color::Green,
        SyncState::InSync => Color::Reset,
    }
}

fn title_name(repo: &Repo) -> (r: &str)
    ensures
        r@ == shown_name(repo@),
{
    if repo.is_worktree {
        match &repo.worktree_main {
            Some(main) => match file_name(main.as_str()) {
                Some(name) => name,
                None => repo.name.as_str(),
            },
            None => repo.name.as_str(),
        }
    } else {
        repo.name.as_str()
    }
}

/// The title of a card, with the name in a colour: `reponame (+N wt) ⚠` for a repository,
/// `reponame [branch]` for a worktree.
pub fn build_card_title(repo: &Repo, name_color: Color) -> (r: Vec<Span>)
    ensures
        line_view(r@) == title_line(repo@, name_color),
{
    let mut line: Vec<Span> = Vec::new();
    line.push(Span::raw(" "));
    line.push(Span::styled(title_name(repo), Style::strong(name_color)));
    if repo.is_worktree {
        let branch = concat3(" [", repo.current_branch.as_str(), "]");
        line.push(Span::colored(branch.as_str(), Color::Cyan));
    }
    assert(repo@.worktrees.len() == repo.worktrees@.len());
    if !repo.is_worktree && repo.worktrees.len() > 0 {
        let count = decimal_text(repo.worktrees.len() as u64);
        line.push(Span::colored(concat3(" (+", count.as_str(), " wt)").as_str(), Color::DarkGray));
    }
    if !repo.has_remote {
        line.push(Span::colored(" ⚠", Color::Yellow));
    }
    line.push(Span::raw(" "));
    assert(line_view(line@) =~= title_line(repo@, name_color));
    line
}

/// What a card shows: its title, its frame and the lines within.
#[derive(Debug)]
pub struct CardView {
    pub title: Vec<Span>,
    /// Whether the frame is thick, or thin with rounded corners.
    pub thick: bool,
    pub frame: Style,
    pub inner: Area,
    pub lines: Vec<Vec<Span>>,
}

/// What the card of a repository shows in an area.
pub fn view_card(
    repo: &Repo,
    area: Area,
    selected: bool,
    in_focused_column: bool,
    spinner_index: usize,
) -> (r: CardView)
    requires
        area.on_screen(),
    ensures
        line_view(r.title@) == title_line(repo@, name_color(repo@)),
        r.thick == selected,
        r.frame == card_style(selected, in_focused_column),
        r.inner == area.framed(),
        line_views(r.lines@) == card_text(repo@, area.framed(), spinner_index),
{
    let frame = if selected {
        Style::strong(Color::Reset)
    } else if in_focused_column {
        Style::colored(Color::Reset)
    } else {
        Style::colored(Color::DarkGray)
    };
    let title = build_card_title(repo, status_color(repo));
    let inner = inside_frame(area);
    let lines = render_card_lines(repo, inner, spinner_index);
    CardView { title, thick: selected, frame, inner, lines }
}

/// The card at a place of a column is the selected one.
pub open spec fn chosen(s: AppState, col: int, place: int) -> bool {
    s.selected_column == col && s.selected_index@[col] == place
}

/// Whether the card at a place of a column is the selected one.
pub fn is_chosen(s: &AppState, col: usize, place: usize) -> (r: bool)
    requires
        col < COLUMN_COUNT,
    ensures
        r == chosen(*s, col as int, place as int),
{
    s.selected_column == col && s.selected_index[col] == place
}

/// What the card at a place of a column shows in an area.
pub fn view_card_at(s: &AppState, col: usize, place: usize, area: Area) -> (r: CardView)
    requires
        col < COLUMN_COUNT,
        place < ordered_column(s.repos@, col as int, s.sort_mode).len(),
        area.on_screen(),
    ensures
        ({
            let repo = ordered_column(s.repos@, col as int, s.sort_mode)[place as int]@;
            &&& line_view(r.title@) == title_line(repo, name_color(repo))
            &&& r.thick == chosen(*s, col as int, place as int)
            &&& r.frame == card_style(
                chosen(*s, col as int, place as int),
                s.selected_column == col,
            )
            &&& r.inner == area.framed()
            &&& line_views(r.lines@) == card_text(repo, area.framed(), (s.frame / 2) as usize)
        }),
{
    let repos = s.repos_in_column(col);
    assert(derefs(repos@).len() == repos@.len());
    assert(derefs(repos@)[place as int] == *repos@[place as int]);
    view_card(
        repos[place],
        area,
        is_chosen(s, col, place),
        s.selected_column == col,
        s.spinner_index(),
    )
}

/// The card that is drawn as the selected one is that of the selected repository, and no
/// other card is drawn so.
pub proof fn chosen_card_is_the_selection(s: AppState, col: int, place: int)
    requires
        s.well_formed(),
        0 <= col < COLUMN_COUNT,
        0 <= place < ordered_column(s.repos@, col, s.sort_mode).len(),
    ensures
        chosen(s, col, place) ==> selection(s) == Some(
            ordered_column(s.repos@, col, s.sort_mode)[place],
        ),
        chosen(s, col, place) <==> selection(s) is Some && col == s.selected_column && place
            == s.selected_index@[s.selected_column as int],
{
}

/// A card as high as its repository asks for, and wide enough for its frame, shows all
/// of its lines, as far as sixteen bits can count them.
pub proof fn full_height_shows_all_lines(r: RepoView, area: Area, spinner: usize)
    requires
        area.on_screen(),
        area.width > 2,
        r.worktrees.len() <= 0xffff - 5,
        area.height == card_rows(r.worktrees.len()),
    ensures
        card_text(r, area.framed(), spinner).len() == 3 + r.worktrees.len(),
{
}

// ---------------------------------------------------------------------------
// Laws on what a card says
// ---------------------------------------------------------------------------

/// A piece of text in a colour, and not in bold.
pub open spec fn reads(span: SpanView, text: Seq<char>, c: Color) -> bool {
    &&& span.text == text
    &&& span.style.fg == Some(c)
    &&& !span.style.bold
    &&& !span.style.reversed
}

/// One for a count that is not zero.
pub open spec fn shown_once(n: u32) -> int {
    if n > 0 {
        1
    } else {
        0
    }
}

/// The second line of a card is a tick exactly where there is nothing to pull, to push or
/// to commit. Otherwise each of the three numbers that is not zero stands in it behind its
/// sign, in that order and in its colour, whatever the others are; then come the tags, and
/// nothing else.
pub proof fn card_shows_each_count(r: RepoView)
    ensures
        ({
            let line = stats_line(r);
            let clean = r.behind == 0 && r.ahead == 0 && r.dirty_files == 0;
            let ahead_at = 2 * shown_once(r.behind);
            let dirty_at = ahead_at + 2 * shown_once(r.ahead);
            let tags_at = dirty_at + 2 * shown_once(r.dirty_files);
            &&& clean <==> line.len() == 1
            &&& clean ==> reads(line[0], "✓"@, Color::Green)
            &&& !clean ==> line.len() == tags_at + 2 * r.tags().len()
            &&& r.behind > 0 ==> reads(line[0], "↓"@ + decimal(r.behind as nat), Color::Red)
                && line[1].text == " "@
            &&& r.ahead > 0 ==> reads(
                line[ahead_at],
                "↑"@ + decimal(r.ahead as nat),
                Color::Green,
            ) && line[ahead_at + 1].text == " "@
            &&& r.dirty_files > 0 ==> reads(
                line[dirty_at],
                "*"@ + decimal(r.dirty_files as nat),
                Color::Yellow,
            ) && line[dirty_at + 1].text == " "@
        }),
{
    let b = count_spans("↓"@, r.behind, Color::Red);
    let a = count_spans("↑"@, r.ahead, Color::Green);
    let d = count_spans("*"@, r.dirty_files, Color::Yellow);
    let t = tag_spans(r.tags());
    let all = b + a + d + t;
    let ahead_at = 2 * shown_once(r.behind);
    let dirty_at = ahead_at + 2 * shown_once(r.ahead);
    assert(b.len() == 2 * shown_once(r.behind));
    assert(a.len() == 2 * shown_once(r.ahead));
    assert(d.len() == 2 * shown_once(r.dirty_files));
    tag_spans_len(r.tags());
    assert(all.len() == b.len() + a.len() + d.len() + 2 * r.tags().len());
    if r.behind == 0 && r.ahead == 0 && r.dirty_files == 0 {
        assert(r.tags().len() == 0) by {
            tags_are(r);
        }
        assert(stats_line(r) == seq![colored_span("✓"@, Color::Green)]);
    } else {
        assert(all.len() >= 2);
        assert(stats_line(r) == all);
        assert(r.behind > 0 ==> all[0] == b[0] && all[1] == b[1]);
        assert(r.ahead > 0 ==> all[ahead_at] == a[0] && all[ahead_at + 1] == a[1]);
        assert(r.dirty_files > 0 ==> all[dirty_at] == d[0] && all[dirty_at + 1] == d[1]);
    }
}

/// Behind the counts, the second line of a card shows each of the tags in brackets and in
/// lower case.
pub proof fn card_shows_the_tags(r: RepoView, k: int)
    requires
        0 <= k < r.tags().len(),
    ensures
        ({
            let line = stats_line(r);
            let at = line.len() - 2 * (r.tags().len() - k);
            &&& reads(line[at], "["@ + lowercase(r.tags()[k].heading()) + "]"@, Color::DarkGray)
            &&& line[at + 1].text == " "@
        }),
{
    let counts = count_spans("↓"@, r.behind, Color::Red) + count_spans("↑"@, r.ahead, Color::Green)
        + count_spans("*"@, r.dirty_files, Color::Yellow);
    let t = tag_spans(r.tags());
    let all = counts + t;
    tag_spans_len(r.tags());
    tag_span_at(r.tags(), k);
    assert(all.len() > 0);
    assert(all[counts.len() + 2 * k] == t[2 * k]);
    assert(all[counts.len() + 2 * k + 1] == t[2 * k + 1]);
}

proof fn tag_spans_len(tags: Seq<SyncState>)
    ensures
        tag_spans(tags).len() == 2 * tags.len(),
    decreases tags.len(),
{
    if tags.len() > 0 {
        tag_spans_len(tags.drop_last());
    }
}

proof fn tag_span_at(tags: Seq<SyncState>, k: int)
    requires
        0 <= k < tags.len(),
    ensures
        tag_spans(tags)[2 * k] == colored_span(
            "["@ + lowercase(tags[k].heading()) + "]"@,
            Color::DarkGray,
        ),
        tag_spans(tags)[2 * k + 1] == raw_span(" "@),
    decreases tags.len(),
{
    let t = tags.drop_last();
    tag_spans_len(t);
    if k < t.len() {
        tag_span_at(t, k);
        assert(tag_spans(tags)[2 * k] == tag_spans(t)[2 * k]);
        assert(tag_spans(tags)[2 * k + 1] == tag_spans(t)[2 * k + 1]);
    }
}

/// The first line of a card begins with the branch. The default branch follows exactly
/// where it is known and another one; a sign follows exactly while the fetch is not done.
pub proof fn card_shows_the_branch(r: RepoView, spinner: usize)
    ensures
        ({
            let line = branch_line(r, spinner);
            let other = r.default_branch is Some && r.default_branch->0 != r.current_branch;
            let busy = !(r.fetch_status is Done);
            &&& reads(line[0], "branch:"@ + r.current_branch, Color::White)
            &&& line.len() == 1 + (if other {
                2int
            } else {
                0
            }) + (if busy {
                1int
            } else {
                0
            })
            &&& other ==> reads(line[2], "default:"@ + r.default_branch->0, Color::DarkGray)
            &&& busy ==> line.last().style.fg == Some(Color::Yellow)
            &&& r.fetch_status is Queued ==> line.last().text == " ⏳"@
            &&& r.fetch_status is Failed ==> line.last().text == " ✗"@
            &&& r.fetch_status is Fetching ==> line.last().text == " "@ + spinner_picture(
                spinner % 10,
            )
        }),
{
}

/// The spinner shows ten pictures, no two of them the same.
pub proof fn spinner_turns(a: usize, b: usize)
    requires
        a < 10,
        b < 10,
    ensures
        spinner_picture(a).len() == 1,
        spinner_picture(a) == spinner_picture(b) ==> a == b,
{
    reveal_strlit("⠋");
    reveal_strlit("⠙");
    reveal_strlit("⠹");
    reveal_strlit("⠸");
    reveal_strlit("⠼");
    reveal_strlit("⠴");
    reveal_strlit("⠦");
    reveal_strlit("⠧");
    reveal_strlit("⠇");
    reveal_strlit("⠏");
    let c = spinner_picture(a)[0];
    let d = spinner_picture(b)[0];
    assert(c == picture_char(a));
    assert(d == picture_char(b));
}

spec fn picture_char(n: usize) -> char {
    if n == 0 {
        '⠋'
    } else if n == 1 {
        '⠙'
    } else if n == 2 {
        '⠹'
    } else if n == 3 {
        '⠸'
    } else if n == 4 {
        '⠼'
    } else if n == 5 {
        '⠴'
    } else if n == 6 {
        '⠦'
    } else if n == 7 {
        '⠧'
    } else if n == 8 {
        '⠇'
    } else {
        '⠏'
    }
}

/// The third line of a card shows the pull requests and the issues once the forge has told
/// them, and that the project is a fork exactly where it is one. Before that it shows that
/// they are awaited, and after a failure that there was one; without a forge it is empty.
pub proof fn card_shows_the_figures(r: RepoView)
    ensures
        ({
            let line = forge_line(r);
            let told = r.forge_status is Done && r.forge_stats is Some;
            let stats = r.forge_stats->0;
            let awaited = r.forge_status is Queued || r.forge_status is Fetching;
            &&& told ==> reads(line[0], "PR "@ + decimal(stats.open_prs as nat), Color::Green)
            &&& told ==> reads(
                line[2],
                "Issues "@ + decimal(stats.open_issues as nat),
                Color::Red,
            )
            &&& told ==> (stats.is_fork <==> line.len() == 5)
            &&& told && stats.is_fork ==> reads(line[4], "Fork"@, Color::DarkGray)
            &&& told && !stats.is_fork ==> line.len() == 3
            &&& awaited ==> line.len() == 1 && reads(
                line[0],
                "PR ...  Issues ..."@,
                Color::DarkGray,
            )
            &&& r.forge_status is Failed ==> line.len() == 1 && reads(line[0], "err"@, Color::Red)
            &&& r.forge_status is NotApplicable ==> line.len() == 0
        }),
{
}

/// The line for a worktree shows its branch and the number of its changed files, or a tick
/// exactly where there is none.
pub proof fn card_shows_the_worktrees(w: WorktreeView)
    ensures
        ({
            let line = worktree_line(w);
            &&& line.len() == 3
            &&& reads(line[1], w.branch, Color::Cyan)
            &&& w.dirty_files == 0 ==> reads(line[2], "  ✓"@, Color::Green)
            &&& w.dirty_files > 0 ==> reads(
                line[2],
                "  *"@ + decimal(w.dirty_files as nat),
                Color::Yellow,
            )
        }),
{
}

/// The lines of a card stand below one another: the branch, the counts, the figures of the
/// forge, and the worktrees in their order. A card that has room leaves none of them out.
pub proof fn card_lines_are_in_order(r: RepoView, inner: Area, spinner: usize, k: int)
    requires
        inner.width > 0,
    ensures
        ({
            let lines = card_text(r, inner, spinner);
            &&& lines.len() <= inner.height
            &&& lines.len() <= 3 + r.worktrees.len()
            &&& lines.len() == inner.height || lines.len() == 3 + r.worktrees.len()
            &&& inner.height > 0 ==> lines[0] == branch_line(r, spinner)
            &&& inner.height > 1 ==> lines[1] == stats_line(r)
            &&& inner.height > 2 ==> lines[2] == forge_line(r)
            &&& 0 <= k < r.worktrees.len() && inner.height > 3 + k ==> lines[3 + k]
                == worktree_line(r.worktrees[k])
        }),
{
}

/// The title of a card names the repository in bold and in the colour of its state. It
/// warns exactly where there is no remote. A worktree is shown under the name of its main
/// repository, with its branch; a repository with worktrees shows how many there are.
pub proof fn title_names_the_repository(r: RepoView, c: Color)
    ensures
        ({
            let line = title_line(r, c);
            let extra = r.is_worktree || r.worktrees.len() > 0;
            &&& line.len() == 3 + (if extra {
                1int
            } else {
                0
            }) + (if r.has_remote {
                0int
            } else {
                1
            })
            &&& line[1].style.bold && line[1].style.fg == Some(c)
            &&& !r.is_worktree ==> line[1].text == r.name
            &&& r.is_worktree ==> (r.worktree_main matches Some(main) ==> (file_name_of(
                main,
            ) matches Some(name) ==> line[1].text == name))
            &&& r.is_worktree ==> reads(line[2], " ["@ + r.current_branch + "]"@, Color::Cyan)
            &&& !r.is_worktree && r.worktrees.len() > 0 ==> reads(
                line[2],
                " (+"@ + decimal(r.worktrees.len()) + " wt)"@,
                Color::DarkGray,
            )
            &&& !r.has_remote ==> reads(line[line.len() - 2], " ⚠"@, Color::Yellow)
        }),
{
}

/// A repository without a remote is yellow. Any other is red where there is something to
/// pull, yellow where there are changes, green where there is something to push, and has no
/// colour of its own where there is nothing to do.
pub proof fn colors_tell_the_state(repo: Repo)
    ensures
        !repo.has_remote ==> name_color(repo@) == Color::Yellow,
        repo.has_remote && repo.behind > 0 ==> name_color(repo@) == Color::Red,
        repo.has_remote && repo.behind == 0 && repo.dirty_files > 0 ==> name_color(repo@)
            == Color::Yellow,
        repo.has_remote && repo.behind == 0 && repo.dirty_files == 0 && repo.ahead > 0
            ==> name_color(repo@) == Color::Green,
        repo.has_remote && repo.behind == 0 && repo.dirty_files == 0 && repo.ahead == 0
            ==> name_color(repo@) == Color::Reset,
{
}

/// Only the selected card has a bold frame, only the selected column too, and what is
/// neither selected nor in the selected column is grey.
pub proof fn frames_show_the_selection(selected: bool, focused: bool)
    ensures
        card_style(selected, focused).bold <==> selected,
        column_style(selected).bold <==> selected,
        card_style(selected, focused).fg == Some(Color::DarkGray) <==> !selected && !focused,
        column_style(selected).fg == Some(Color::DarkGray) <==> !selected,
{
}

/// The title of a column holds its heading and the number of its repositories.
pub proof fn column_title_counts(col: int, repos: Seq<Repo>)
    requires
        0 <= col < COLUMN_COUNT,
    ensures
        ({
            let count = repos.filter(|r: Repo| r@.state() == state_of_column(col)).len();
            let title = column_title(state_of_column(col), column(repos, col).len());
            title == " "@ + state_of_column(col).heading() + " ("@ + decimal(count) + ") "@
        }),
{
}

/// The height of cards is that of one part of them and of the other, and one card is as
/// high as it is.
pub proof fn heights_add_up(heights: Seq<u16>, a: int, b: int, c: int)
    requires
        0 <= a <= b <= c <= heights.len(),
    ensures
        total(heights, a, c) == total(heights, a, b) + total(heights, b, c),
        a < heights.len() ==> total(heights, a, a + 1) == heights[a],
    decreases b - a,
{
    assert(total(heights, a + 1, a + 1) == 0);
    if a < b {
        heights_add_up(heights, a + 1, b, c);
    }
}

/// A scrollbar stands only where the column cannot show all of its cards.
pub proof fn scrollbar_means_hidden_cards(heights: Seq<u16>, offset: int, inner: Area)
    requires
        inner.on_screen(),
        0 <= offset <= heights.len(),
        overflows(heights, inner),
    ensures
        shown_cards(heights, offset, inner).len() < heights.len(),
{
    let n = heights.len() as int;
    let bottom = inner.y + inner.height;
    let cards = cards_from(heights, offset, inner.y as int, bottom);
    cards_at_most(heights, offset, inner.y as int, bottom);
    if cards.len() == n {
        assert(total(heights, 0, 0) == 0);
        cards_from_facts(heights, offset, inner.y as int, bottom, n - 1);
        total_at_end(heights, 0, n - 1);
    }
}

/// The column scrolls no further than it takes: with one card more above, the selected one
/// would not fit.
pub proof fn scrolling_goes_no_further(
    heights: Seq<u16>,
    selected: usize,
    viewport: u16,
    offset: int,
)
    requires
        selected < heights.len(),
        is_scroll_offset(heights, selected, viewport, offset),
    ensures
        0 <= offset <= selected,
        offset > 0 ==> total(heights, offset - 1, selected + 1) > viewport,
        heights[selected as int] <= viewport ==> total(heights, offset, selected + 1) <= viewport,
{
    let last = selected as int;
    assert(total(heights, last + 1, last + 1) == 0);
    assert(total(heights, last, last + 1) == heights[last]);
}

/// A card is as wide as the column.
pub proof fn shown_cards_are_as_wide(heights: Seq<u16>, offset: int, inner: Area, k: int)
    requires
        0 <= k < shown_cards(heights, offset, inner).len(),
    ensures
        shown_cards(heights, offset, inner)[k].1.x == inner.x,
        shown_cards(heights, offset, inner)[k].1.width == inner.width,
{
}

/// A worktree whose main repository has no name is shown under its own.
pub proof fn nameless_main_repositories_are_not_shown(r: RepoView, c: Color)
    requires
        r.worktree_main is None || file_name_of(r.worktree_main->0) is None,
    ensures
        title_line(r, c)[1].text == r.name,
{
}

/// A column shows its selected card, if there is room for it, and its cards from one on
/// without a gap. Without a scrollbar it shows them all; with one it does not, and the
/// scrollbar stands for them all and points to the selected one. Only the selected column
/// has a bold frame.
pub proof fn column_shows_its_cards(
    view: ColumnView,
    s: AppState,
    col: int,
    area: Area,
    k: int,
)
    requires
        shows_column(view, s, col, area),
        0 <= col < COLUMN_COUNT,
        area.on_screen(),
        area.framed().height > 0,
    ensures
        ({
            let repos = ordered_column(s.repos@, col, s.sort_mode);
            let at = s.selected_index@[col];
            let room = area.framed().height;
            &&& view.frame.bold <==> s.selected_column == col
            &&& 0 <= k < view.cards@.len() ==> {
                &&& view.cards@[k].0 == view.cards@[0].0 + k
                &&& view.cards@[k].0 < repos.len()
                &&& view.cards@[k].1.lies_in(area.framed())
                &&& view.cards@[k].1.height == card_rows(
                    repos[view.cards@[k].0 as int].worktrees@.len(),
                )
            }
            &&& view.scrollbar is None ==> view.cards@.len() == repos.len()
            &&& view.scrollbar matches Some(bar) ==> {
                &&& view.cards@.len() < repos.len()
                &&& bar.length == repos.len()
                &&& bar.position == at
            }
            &&& at < repos.len() && card_rows(repos[at as int].worktrees@.len()) <= room
                ==> exists|j: int|
                0 <= j < view.cards@.len() && (#[trigger] view.cards@[j]).0 == at
        }),
{
    let repos = ordered_column(s.repos@, col, s.sort_mode);
    frame_shrinks(area);
    if repos.len() > 0 {
        cards_of_column(view, s, col, area, k);
    }
}

proof fn cards_of_column(view: ColumnView, s: AppState, col: int, area: Area, k: int)
    requires
        shows_column(view, s, col, area),
        0 <= col < COLUMN_COUNT,
        area.on_screen(),
        area.framed().on_screen(),
        area.framed().height > 0,
        ordered_column(s.repos@, col, s.sort_mode).len() > 0,
    ensures
        ({
            let repos = ordered_column(s.repos@, col, s.sort_mode);
            let at = s.selected_index@[col];
            &&& 0 <= k < view.cards@.len() ==> {
                &&& view.cards@[k].0 == view.cards@[0].0 + k
                &&& view.cards@[k].0 < repos.len()
                &&& view.cards@[k].1.lies_in(area.framed())
                &&& view.cards@[k].1.height == card_rows(
                    repos[view.cards@[k].0 as int].worktrees@.len(),
                )
            }
            &&& view.scrollbar is None ==> view.cards@.len() == repos.len()
            &&& view.scrollbar is Some ==> view.cards@.len() < repos.len()
            &&& at < repos.len() && card_rows(repos[at as int].worktrees@.len())
                <= area.framed().height ==> exists|j: int|
                0 <= j < view.cards@.len() && (#[trigger] view.cards@[j]).0 == at
        }),
{
    let repos = ordered_column(s.repos@, col, s.sort_mode);
    let heights = card_heights(repos);
    let inner = area.framed();
    let at = s.selected_index@[col];
    let offset = choose|offset: int|
        {
            &&& #[trigger] is_scroll_offset(heights, at, inner.height, offset)
            &&& placed(view.cards@) == shown_cards(heights, offset, inner)
        };
    let cards = shown_cards(heights, offset, inner);
    assert(placed(view.cards@).len() == view.cards@.len());
    if 0 <= k < view.cards@.len() {
        assert(cards[k] == (view.cards@[k].0 as int, view.cards@[k].1));
        assert(cards[0] == (view.cards@[0].0 as int, view.cards@[0].1));
        shown_cards_are_stacked(heights, offset, inner, k);
        shown_cards_are_stacked(heights, offset, inner, 0);
    }
    if view.scrollbar is None {
        everything_is_shown_without_scrollbar(heights, at, offset, inner);
    } else {
        scrollbar_means_hidden_cards(heights, offset, inner);
    }
    if at < repos.len() && heights[at as int] <= inner.height {
        selected_card_is_shown(heights, at, offset, inner);
        let j = choose|j: int| 0 <= j < cards.len() && (#[trigger] cards[j]).0 == at;
        assert(cards[j] == (view.cards@[j].0 as int, view.cards@[j].1));
        assert(view.cards@[j].0 == at);
    }
}

} // verus!
