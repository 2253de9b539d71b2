//! The board: which repositories it shows where, which one is selected, and what keys
//! and messages do to it.

use vstd::arithmetic::div_mod::lemma_small_mod;
use vstd::prelude::*;

use crate::filters::{filter_keeps_order, filter_of_map, filter_one_more};
use crate::model::{
    column_of_state, columns_and_states_match, state_of_column, Repo, SortMode, SyncState,
    COLUMN_COUNT,
};
use crate::nav::{
    all_cards, cards_before, count_views, find_place, place_at, place_of_rank, rank_of,
    rank_of_place, step, step_from, step_leads_to_a_card,
};
use crate::order::{
    in_order, is_stable_sort, of_rank, same_rank, stable_sort, stable_sort_exists,
    stable_sort_is_unique, stable_sort_keeps_len, Ranked,
};

verus! {

/// The number of repositories that are fetched at the same time.
pub const MAX_CONCURRENT_FETCHES: usize = 8;

/// The number of forges that are queried at the same time.
pub const MAX_CONCURRENT_FORGE_FETCHES: usize = 4;

/// What lies over the board.
#[derive(Debug)]
pub enum Overlay {
    Board,
    Detail,
    Help,
    /// A choice of directories to open a shell in, each with its label.
    ShellPicker { paths: Vec<(String, String)>, index: usize },
}

/// The state of the board.
#[derive(Debug)]
pub struct AppState {
    pub repos: Vec<Repo>,
    pub selected_column: usize,
    pub selected_index: [usize; 4],
    pub overlay: Overlay,
    pub status_message: Option<String>,
    pub should_quit: bool,
    pub scan_path: String,
    pub sort_mode: SortMode,
    pub frame: usize,
    pub pending_shell: Option<String>,
}

impl AppState {
    /// The selected column is one of the board's columns.
    pub open spec fn well_formed(self) -> bool {
        self.selected_column < COLUMN_COUNT
    }
}

// ---------------------------------------------------------------------------
// Columns
// ---------------------------------------------------------------------------

/// The repositories of a column, in the order in which they were scanned.
pub open spec fn column(repos: Seq<Repo>, col: int) -> Seq<Repo> {
    repos.filter(|r: Repo| r@.state() == state_of_column(col))
}

/// The value that a sort mode other than by name orders a repository by: zero where the
/// forge has told nothing.
pub open spec fn sort_value(repo: Repo, mode: SortMode) -> u32 {
    match repo.forge_stats {
        Some(stats) => match mode {
            SortMode::Issues => stats.open_issues,
            _ => stats.open_prs,
        },
        None => 0,
    }
}

/// The repositories of `s` that have the given sort value.
pub open spec fn of_value(s: Seq<Repo>, mode: SortMode, value: u32) -> Seq<Repo> {
    s.filter(|r: Repo| sort_value(r, mode) == value)
}

/// `output` holds the repositories of `input` with the greatest sort values first;
/// repositories with the same value stand as they stood.
pub open spec fn sorted_by_value(input: Seq<Repo>, output: Seq<Repo>, mode: SortMode) -> bool {
    &&& forall|i: int, j: int|
        0 <= i < j < output.len() ==> sort_value(#[trigger] output[i], mode) >= sort_value(
            #[trigger] output[j],
            mode,
        )
    &&& forall|value: u32| #[trigger]
        of_value(output, mode, value) == of_value(input, mode, value)
}

/// `output` holds the repositories of a column in the order of a sort mode. By name
/// they stand as they were scanned, which is the order of their names.
pub open spec fn is_ordered(input: Seq<Repo>, output: Seq<Repo>, mode: SortMode) -> bool {
    match mode {
        SortMode::Name => output == input,
        _ => sorted_by_value(input, output, mode),
    }
}

/// The repositories of a column in the order of a sort mode.
pub open spec fn ordered_column(repos: Seq<Repo>, col: int, mode: SortMode) -> Seq<Repo> {
    choose|output: Seq<Repo>| is_ordered(column(repos, col), output, mode)
}

/// The repositories that references point to.
pub open spec fn derefs(s: Seq<&Repo>) -> Seq<Repo> {
    s.map_values(|r: &Repo| *r)
}

/// A repository with the value that it is ordered by.
struct Card<'a> {
    repo: &'a Repo,
    value: u32,
}

impl<'a> Ranked for Card<'a> {
    closed spec fn not_after(self, other: Card<'a>) -> bool {
        self.value >= other.value
    }

    proof fn rank_total(a: Card<'a>, b: Card<'a>) {
    }

    proof fn rank_transitive(a: Card<'a>, b: Card<'a>, c: Card<'a>) {
    }

    fn may_precede(&self, other: &Card<'a>) -> (r: bool) {
        self.value >= other.value
    }
}

spec fn cards<'a>(s: Seq<Repo>, mode: SortMode) -> Seq<Card<'a>> {
    s.map_values(|r: Repo| Card { repo: &r, value: sort_value(r, mode) })
}

proof fn cards_of_rank(s: Seq<Repo>, mode: SortMode, x: Card)
    ensures
        of_rank(cards(s, mode), x) == cards(of_value(s, mode, x.value), mode),
{
    let f = |r: Repo| Card { repo: &r, value: sort_value(r, mode) };
    let p = |r: Repo| sort_value(r, mode) == x.value;
    let q = |y: Card| same_rank(x, y);
    filter_of_map(s, f, p, q);
}

proof fn sorted_cards(input: Seq<Repo>, output: Seq<Repo>, mode: SortMode)
    requires
        sorted_by_value(input, output, mode),
    ensures
        is_stable_sort(cards(input, mode), cards(output, mode)),
{
    let out = cards(output, mode);
    assert forall|i: int, j: int| 0 <= i < j < out.len() implies (#[trigger] out[i]).not_after(
        #[trigger] out[j],
    ) by {
        assert(sort_value(output[i], mode) >= sort_value(output[j], mode));
    }
    assert forall|x: Card| #[trigger] of_rank(out, x) == of_rank(cards(input, mode), x) by {
        cards_of_rank(output, mode, x);
        cards_of_rank(input, mode, x);
        assert(of_value(output, mode, x.value) == of_value(input, mode, x.value));
    }
}

/// A column has only one order by a sort mode.
pub proof fn order_is_unique(input: Seq<Repo>, a: Seq<Repo>, b: Seq<Repo>, mode: SortMode)
    requires
        is_ordered(input, a, mode),
        is_ordered(input, b, mode),
    ensures
        a == b,
{
    if mode != SortMode::Name {
        sorted_cards(input, a, mode);
        sorted_cards(input, b, mode);
        stable_sort_is_unique(cards(input, mode), cards(a, mode), cards(b, mode));
        cards_injective(a, b, mode);
    }
}

/// The value that a sort mode other than by name orders a repository by.
pub fn forge_sort_val(repo: &Repo, mode: SortMode) -> (r: u32)
    requires
        mode is Name ==> repo.forge_stats is None,
    ensures
        r == sort_value(*repo, mode),
{
    match &repo.forge_stats {
        Some(stats) => match mode {
            SortMode::Issues => stats.open_issues,
            _ => stats.open_prs,
        },
        None => 0,
    }
}

fn in_state<'a>(repos: &'a Vec<Repo>, state: SyncState) -> (r: Vec<&'a Repo>)
    ensures
        derefs(r@) == repos@.filter(|x: Repo| x@.state() == state),
{
    let ghost p = |x: Repo| x@.state() == state;
    let mut out: Vec<&'a Repo> = Vec::new();
    let mut k: usize = 0;
    proof {
        reveal(Seq::filter);
        assert(derefs(out@) =~= repos@.take(0).filter(p));
    }
    while k < repos.len()
        invariant
            k <= repos.len(),
            p == (|x: Repo| x@.state() == state),
            derefs(out@) == repos@.take(k as int).filter(p),
        decreases repos.len() - k,
    {
        let repo: &'a Repo = &repos[k];
        proof {
            filter_one_more(repos@, k as int, p);
            assert(derefs(out@.push(repo)) =~= derefs(out@).push(*repo));
        }
        if repo.sync_state() == state {
            out.push(repo);
        }
        k = k + 1;
    }
    assert(repos@.take(repos@.len() as int) =~= repos@);
    out
}

fn by_value<'a>(repos: Vec<&'a Repo>, mode: SortMode) -> (r: Vec<&'a Repo>)
    requires
        mode !is Name,
    ensures
        sorted_by_value(derefs(repos@), derefs(r@), mode),
{
    let ghost input = derefs(repos@);
    let mut scored: Vec<Card<'a>> = Vec::new();
    let mut k: usize = 0;
    while k < repos.len()
        invariant
            k <= repos.len(),
            mode !is Name,
            input == derefs(repos@),
            scored@ =~= cards(input, mode).take(k as int),
        decreases repos.len() - k,
    {
        let repo: &'a Repo = repos[k];
        scored.push(Card { repo, value: forge_sort_val(repo, mode) });
        k = k + 1;
    }
    assert(scored@ =~= cards(input, mode));
    let sorted = stable_sort(scored);
    let mut out: Vec<&'a Repo> = Vec::new();
    let mut m: usize = 0;
    while m < sorted.len()
        invariant
            m <= sorted.len(),
            out@.len() == m,
            forall|i: int| 0 <= i < m ==> *(#[trigger] out@[i]) == *sorted@[i].repo,
        decreases sorted.len() - m,
    {
        out.push(sorted[m].repo);
        m = m + 1;
    }
    proof {
        let output = repos_of_cards(input, sorted@, mode);
        assert(derefs(out@) =~= output);
    }
    out
}

proof fn cards_injective(a: Seq<Repo>, b: Seq<Repo>, mode: SortMode)
    requires
        cards(a, mode) == cards(b, mode),
    ensures
        a == b,
{
    assert(a.len() == cards(a, mode).len());
    assert(b.len() == cards(b, mode).len());
    assert forall|i: int| 0 <= i < a.len() implies a[i] == b[i] by {
        assert(cards(a, mode)[i].repo == a[i]);
        assert(cards(b, mode)[i].repo == b[i]);
    }
    assert(a =~= b);
}

/// Sorting keeps the value of each card.
proof fn sorted_is_cards(input: Seq<Repo>, sorted: Seq<Card>, mode: SortMode)
    requires
        is_stable_sort(cards(input, mode), sorted),
    ensures
        forall|i: int|
            0 <= i < sorted.len() ==> (#[trigger] sorted[i]).value == sort_value(
                *sorted[i].repo,
                mode,
            ),
{
    assert forall|i: int| 0 <= i < sorted.len() implies (#[trigger] sorted[i]).value == sort_value(
        *sorted[i].repo,
        mode,
    ) by {
        let x = sorted[i];
        let p = |y: Card| same_rank(x, y);
        sorted.lemma_filter_contains(p, i);
        assert(of_rank(sorted, x).contains(x));
        assert(of_rank(sorted, x) == of_rank(cards(input, mode), x));
        cards_of_rank(input, mode, x);
        let k = choose|k: int|
            0 <= k < of_rank(sorted, x).len() && of_rank(sorted, x)[k] == x;
        let within = of_value(input, mode, x.value);
        assert(cards(within, mode)[k] == x);
        assert(*x.repo == within[k]);
    }
}

impl AppState {
    /// The number of repositories in a column.
    pub fn column_count(&self, col: usize) -> (r: usize)
        requires
            col < COLUMN_COUNT,
        ensures
            r == column(self.repos@, col as int).len(),
    {
        let repos = in_state(&self.repos, SyncState::at_column(col));
        assert(derefs(repos@).len() == repos@.len());
        repos.len()
    }

    /// The repositories of a column, in the order of the sort mode.
    pub fn repos_in_column(&self, col: usize) -> (r: Vec<&Repo>)
        requires
            col < COLUMN_COUNT,
        ensures
            is_ordered(column(self.repos@, col as int), derefs(r@), self.sort_mode),
            derefs(r@) == ordered_column(self.repos@, col as int, self.sort_mode),
            r@.len() == column(self.repos@, col as int).len(),
    {
        let repos = in_state(&self.repos, SyncState::at_column(col));
        let ghost input = derefs(repos@);
        let r = match self.sort_mode {
            SortMode::Name => repos,
            mode => by_value(repos, mode),
        };
        proof {
            assert(is_ordered(column(self.repos@, col as int), derefs(r@), self.sort_mode));
            order_is_unique(
                input,
                derefs(r@),
                ordered_column(self.repos@, col as int, self.sort_mode),
                self.sort_mode,
            );
            order_keeps_len(input, derefs(r@), self.sort_mode);
        }
        r
    }
}

/// Ordering a column keeps the number of its repositories.
pub proof fn order_keeps_len(input: Seq<Repo>, output: Seq<Repo>, mode: SortMode)
    requires
        is_ordered(input, output, mode),
    ensures
        output.len() == input.len(),
{
    if mode != SortMode::Name {
        sorted_cards(input, output, mode);
        stable_sort_keeps_len(cards(input, mode), cards(output, mode));
        assert(cards(input, mode).len() == input.len());
        assert(cards(output, mode).len() == output.len());
    }
}

proof fn repos_of_cards(input: Seq<Repo>, sorted: Seq<Card>, mode: SortMode) -> (r: Seq<Repo>)
    requires
        is_stable_sort(cards(input, mode), sorted),
    ensures
        r.len() == sorted.len(),
        forall|i: int| 0 <= i < r.len() ==> #[trigger] r[i] == *sorted[i].repo,
        sorted_by_value(input, r, mode),
{
    let output = Seq::new(sorted.len(), |i: int| *sorted[i].repo);
    sorted_is_cards(input, sorted, mode);
    assert(cards(output, mode) =~= sorted);
    assert forall|value: u32| #[trigger]
        of_value(output, mode, value) == of_value(input, mode, value) by {
        if input.len() > 0 {
            let x = Card { repo: &input[0], value };
            cards_of_rank(output, mode, x);
            cards_of_rank(input, mode, x);
            assert(of_rank(sorted, x) == of_rank(cards(input, mode), x));
            cards_injective(of_value(output, mode, value), of_value(input, mode, value), mode);
        } else {
            stable_sort_keeps_len(cards(input, mode), sorted);
            assert(output =~= input);
        }
    }
    assert forall|i: int, j: int| 0 <= i < j < output.len() implies sort_value(
        #[trigger] output[i],
        mode,
    ) >= sort_value(#[trigger] output[j], mode) by {
        assert(sorted[i].not_after(sorted[j]));
    }
    output
}

/// The repositories of a column, in the order of a sort mode, are in that order.
pub proof fn column_has_an_order(repos: Seq<Repo>, col: int, mode: SortMode)
    ensures
        is_ordered(column(repos, col), ordered_column(repos, col, mode), mode),
        ordered_column(repos, col, mode).len() == column(repos, col).len(),
{
    let input = column(repos, col);
    let output = if mode == SortMode::Name {
        input
    } else {
        let sorted = stable_sort_exists(cards(input, mode));
        repos_of_cards(input, sorted, mode)
    };
    assert(is_ordered(input, output, mode));
    order_keeps_len(input, ordered_column(repos, col, mode), mode);
}

/// Ordering a column keeps the repositories that it holds.
pub proof fn order_keeps_repos(repos: Seq<Repo>, col: int, mode: SortMode, repo: Repo)
    ensures
        ordered_column(repos, col, mode).contains(repo) <==> column(repos, col).contains(repo),
{
    let a = column(repos, col);
    let b = ordered_column(repos, col, mode);
    column_has_an_order(repos, col, mode);
    if mode != SortMode::Name {
        let value = sort_value(repo, mode);
        assert(of_value(b, mode, value) == of_value(a, mode, value));
        held_by_value(a, mode, repo);
        held_by_value(b, mode, repo);
    }
}

proof fn held_by_value(s: Seq<Repo>, mode: SortMode, repo: Repo)
    ensures
        s.contains(repo) <==> of_value(s, mode, sort_value(repo, mode)).contains(repo),
{
    let p = |r: Repo| sort_value(r, mode) == sort_value(repo, mode);
    let t = of_value(s, mode, sort_value(repo, mode));
    if s.contains(repo) {
        let i = choose|i: int| 0 <= i < s.len() && s[i] == repo;
        s.lemma_filter_contains(p, i);
    }
    if t.contains(repo) {
        s.lemma_filter_contains_rev(p, repo);
    }
}

/// Where the repositories were scanned in the order of their names, every column sorted
/// by name is in that order.
pub proof fn name_order_is_alphabetical(repos: Seq<Repo>, col: int)
    requires
        in_order(repos),
    ensures
        in_order(ordered_column(repos, col, SortMode::Name)),
{
    column_has_an_order(repos, col, SortMode::Name);
    filter_keeps_order(repos, |r: Repo| r@.state() == state_of_column(col));
}

/// The repository that is selected stands in the selected column.
pub proof fn selection_stands_in_selected_column(s: AppState)
    requires
        s.well_formed(),
        selection(s) is Some,
    ensures
        s.repos@.contains(selection(s)->0),
        selection(s)->0@.state() == state_of_column(s.selected_column as int),
{
    let col = s.selected_column as int;
    let shown = ordered_column(s.repos@, col, s.sort_mode);
    let repo = selection(s)->0;
    assert(shown.contains(repo)) by {
        assert(shown[s.selected_index@[col] as int] == repo);
    }
    order_keeps_repos(s.repos@, col, s.sort_mode, repo);
    let c = column(s.repos@, col);
    let k = choose|k: int| 0 <= k < c.len() && c[k] == repo;
    let p = |r: Repo| r@.state() == state_of_column(col);
    s.repos@.lemma_filter_pred(p, k);
    s.repos@.lemma_filter_contains_rev(p, repo);
}

/// A repository is selected exactly where the index lies within the column.
pub proof fn selection_is_within_column(s: AppState)
    requires
        s.well_formed(),
    ensures
        selection(s) is Some <==> s.selected_index@[s.selected_column as int] < column(
            s.repos@,
            s.selected_column as int,
        ).len(),
{
    column_has_an_order(s.repos@, s.selected_column as int, s.sort_mode);
}

// ---------------------------------------------------------------------------
// Selection
// ---------------------------------------------------------------------------

/// The numbers of repositories in the columns.
pub open spec fn column_sizes(repos: Seq<Repo>) -> Seq<nat> {
    Seq::new(COLUMN_COUNT as nat, |col: int| column(repos, col).len())
}

proof fn sizes_sum(repos: Seq<Repo>)
    ensures
        column(repos, 0).len() + column(repos, 1).len() + column(repos, 2).len() + column(
            repos,
            3,
        ).len() == repos.len(),
    decreases repos.len(),
{
    reveal(Seq::filter);
    if repos.len() > 0 {
        sizes_sum(repos.drop_last());
    }
}

/// Every repository stands in one column: the columns together hold as many as there are.
pub proof fn columns_hold_every_repo(repos: Seq<Repo>)
    ensures
        all_cards(column_sizes(repos)) == repos.len(),
{
    let n = column_sizes(repos);
    sizes_sum(repos);
    reveal_with_fuel(cards_before, 5);
    assert(all_cards(n) == n[0] + n[1] + n[2] + n[3]);
}

/// A repository stands in the column of its state, and in no other.
pub proof fn repo_stands_in_its_column(repos: Seq<Repo>, i: int, col: int)
    requires
        0 <= i < repos.len(),
        0 <= col < COLUMN_COUNT,
    ensures
        column(repos, col).contains(repos[i]) <==> col == column_of_state(repos[i]@.state()),
{
    let p = |r: Repo| r@.state() == state_of_column(col);
    if p(repos[i]) {
        repos.lemma_filter_contains(p, i);
    } else if column(repos, col).contains(repos[i]) {
        let k = choose|k: int|
            0 <= k < column(repos, col).len() && column(repos, col)[k] == repos[i];
        repos.lemma_filter_pred(p, k);
    }
    columns_and_states_match(repos[i]@.state(), col);
}

/// An index brought within a column of `count` cards.
pub open spec fn clamped(index: usize, count: nat) -> usize {
    if count == 0 {
        0
    } else if index < count {
        index
    } else {
        (count - 1) as usize
    }
}

/// `after` differs from `before` in the selection at most.
pub open spec fn only_selection_differs(before: AppState, after: AppState) -> bool {
    after == (AppState {
        selected_column: after.selected_column,
        selected_index: after.selected_index,
        ..before
    })
}

/// The selected repository: the one at the selected index of the selected column.
pub open spec fn selection(s: AppState) -> Option<Repo> {
    let shown = ordered_column(s.repos@, s.selected_column as int, s.sort_mode);
    let index = s.selected_index@[s.selected_column as int];
    if index < shown.len() {
        Some(shown[index as int])
    } else {
        None
    }
}

/// What a move by one column does.
pub open spec fn column_moved(before: AppState, after: AppState, delta: i32) -> bool {
    let from = before.selected_column;
    let to: int = if delta < 0 && from > 0 {
        from - 1
    } else if delta >= 0 && from + 1 < COLUMN_COUNT {
        from + 1
    } else {
        from as int
    };
    let count = column(before.repos@, to).len();
    &&& only_selection_differs(before, after)
    &&& after.selected_column == to
    &&& after.selected_index@ == if to != from && count > 0 {
        before.selected_index@.update(to, clamped(before.selected_index@[to], count))
    } else {
        before.selected_index@
    }
}

/// What a move by `delta` cards within the column does: the index moves as far as the
/// column reaches. It is read as a signed number of 32 bits.
pub open spec fn card_moved(before: AppState, after: AppState, delta: i32) -> bool {
    let col = before.selected_column as int;
    let count = column(before.repos@, col).len();
    let aim = (before.selected_index@[col] as i32) + delta;
    &&& only_selection_differs(before, after)
    &&& after.selected_column == before.selected_column
    &&& after.selected_index@ == if count == 0 {
        before.selected_index@
    } else if aim < 0 {
        before.selected_index@.update(col, 0)
    } else if aim >= count {
        before.selected_index@.update(col, (count - 1) as usize)
    } else {
        before.selected_index@.update(col, aim as usize)
    }
}

/// What a step through all repositories does.
pub open spec fn repo_cycled(before: AppState, after: AppState, direction: i32) -> bool {
    let sizes = column_sizes(before.repos@);
    let from = before.selected_column as int;
    let (col, row) = place_at(
        sizes,
        step_from(sizes, from, before.selected_index@[from] as int, direction as int),
    );
    if before.repos@.len() == 0 {
        after == before
    } else {
        &&& only_selection_differs(before, after)
        &&& after.selected_column == col
        &&& after.selected_index@ == before.selected_index@.update(col, row as usize)
    }
}

/// What bringing all indices within their columns does.
pub open spec fn indices_clamped(before: AppState, after: AppState) -> bool {
    &&& only_selection_differs(before, after)
    &&& after.selected_column == before.selected_column
    &&& forall|col: int|
        0 <= col < COLUMN_COUNT ==> #[trigger] after.selected_index@[col] == clamped(
            before.selected_index@[col],
            column(before.repos@, col).len(),
        )
}

/// After a step through the repositories one of them is selected, if there is one.
pub proof fn cycling_selects_a_repo(before: AppState, after: AppState, direction: i32)
    requires
        before.well_formed(),
        before.repos@.len() > 0,
        repo_cycled(before, after, direction),
    ensures
        after.well_formed(),
        after.selected_index@[after.selected_column as int] < column(
            after.repos@,
            after.selected_column as int,
        ).len(),
{
    let sizes = column_sizes(before.repos@);
    let from = before.selected_column as int;
    columns_hold_every_repo(before.repos@);
    step_leads_to_a_card(
        sizes,
        from,
        before.selected_index@[from] as int,
        direction as int,
    );
    let rank = step_from(sizes, from, before.selected_index@[from] as int, direction as int);
    rank_of_place(sizes, rank);
    let (col, row) = place_at(sizes, rank);
    sizes_fit(before.repos, col);
}

proof fn sizes_fit(repos: Vec<Repo>, col: int)
    requires
        0 <= col < COLUMN_COUNT,
    ensures
        column(repos@, col).len() <= repos@.len() <= usize::MAX,
{
    repos@.lemma_filter_len(|r: Repo| r@.state() == state_of_column(col));
    assert(repos.len() == repos@.len());
}

/// Within a column with cards, going down and up again comes back to a card that is not
/// the last one.
pub proof fn down_and_up_come_back(before: AppState, mid: AppState, after: AppState)
    requires
        before.well_formed(),
        card_moved(before, mid, 1i32),
        card_moved(mid, after, -1i32),
        before.selected_index@[before.selected_column as int] + 1 < column(
            before.repos@,
            before.selected_column as int,
        ).len(),
        before.selected_index@[before.selected_column as int] < i32::MAX,
    ensures
        after.selected_column == before.selected_column,
        after.selected_index@ == before.selected_index@,
{
    assert(after.selected_index@ =~= before.selected_index@);
}

/// Bringing the indices within their columns once more changes nothing.
pub proof fn clamping_is_idempotent(before: AppState, once: AppState, twice: AppState)
    requires
        indices_clamped(before, once),
        indices_clamped(once, twice),
        before.repos@.len() <= usize::MAX,
    ensures
        twice.selected_index@ == once.selected_index@,
{
    assert forall|col: int| 0 <= col < COLUMN_COUNT implies #[trigger] twice.selected_index@[col]
        == once.selected_index@[col] by {
        sizes_fit(before.repos, col);
    }
    assert(twice.selected_index@ =~= once.selected_index@);
}

impl AppState {
    /// The board for the outcome of a first scan.
    pub fn new(scan_path: &str, scan: Result<Vec<Repo>, String>) -> (r: AppState)
        ensures
            r.well_formed(),
            r.repos@ == match scan {
                Ok(repos) => repos@,
                Err(_) => Seq::<Repo>::empty(),
            },
            r.status_message == match scan {
                Ok(_) => None::<String>,
                Err(e) => Some(e),
            },
            r.selected_column == 0,
            forall|col: int| 0 <= col < COLUMN_COUNT ==> r.selected_index@[col] == 0,
            r.overlay is Board,
            !r.should_quit,
            r.frame == 0,
            r.scan_path@ == scan_path@,
            r.sort_mode is Name,
            r.pending_shell is None,
    {
        let (repos, error) = match scan {
            Ok(repos) => (repos, None),
            Err(e) => (Vec::new(), Some(e)),
        };
        AppState {
            repos,
            selected_column: 0,
            selected_index: [0, 0, 0, 0],
            overlay: Overlay::Board,
            status_message: error,
            should_quit: false,
            scan_path: scan_path.to_owned(),
            sort_mode: SortMode::Name,
            frame: 0,
            pending_shell: None,
        }
    }

    /// The board for given repositories.
    pub fn new_with_repos(repos: Vec<Repo>) -> (r: AppState)
        ensures
            r.well_formed(),
            r.repos@ == repos@,
            r.status_message is None,
            r.selected_column == 0,
            forall|col: int| 0 <= col < COLUMN_COUNT ==> r.selected_index@[col] == 0,
            r.overlay is Board,
            !r.should_quit,
            r.frame == 0,
            r.scan_path@ == "/tmp"@,
            r.sort_mode is Name,
            r.pending_shell is None,
    {
        AppState::new("/tmp", Ok(repos))
    }

    /// Begins the next frame.
    pub fn tick(&mut self)
        ensures
            *final(self) == (AppState { frame: final(self).frame, ..*old(self) }),
            final(self).frame == if old(self).frame == usize::MAX {
                0
            } else {
                (old(self).frame + 1) as usize
            },
    {
        self.frame = if self.frame == usize::MAX {
            0
        } else {
            self.frame + 1
        };
    }

    /// The position of the spinner: it moves with every other frame.
    pub fn spinner_index(&self) -> (r: usize)
        ensures
            r == self.frame / 2,
    {
        self.frame / 2
    }

    /// Brings the index of every column within the column.
    pub fn clamp_all_indices(&mut self)
        ensures
            indices_clamped(*old(self), *final(self)),
    {
        let ghost before = *self;
        let mut col: usize = 0;
        while col < COLUMN_COUNT
            invariant
                col <= COLUMN_COUNT,
                only_selection_differs(before, *self),
                self.selected_column == before.selected_column,
                forall|c: int|
                    0 <= c < col ==> #[trigger] self.selected_index@[c] == clamped(
                        before.selected_index@[c],
                        column(before.repos@, c).len(),
                    ),
                forall|c: int|
                    col <= c < COLUMN_COUNT ==> #[trigger] self.selected_index@[c]
                        == before.selected_index@[c],
            decreases COLUMN_COUNT - col,
        {
            let count: usize = self.column_count(col);
            let index: usize = self.selected_index[col];
            if count == 0 {
                self.selected_index[col] = 0;
            } else if index >= count {
                self.selected_index[col] = count - 1;
            }
            col = col + 1;
        }
    }

    /// Moves the selection by one column; it stays at the ends of the board.
    pub fn move_column(&mut self, delta: i32)
        requires
            old(self).well_formed(),
        ensures
            column_moved(*old(self), *final(self), delta),
            final(self).well_formed(),
    {
        let col: usize = if delta < 0 {
            if self.selected_column == 0 {
                return;
            }
            self.selected_column - 1
        } else {
            if self.selected_column + 1 >= COLUMN_COUNT {
                return;
            }
            self.selected_column + 1
        };
        self.selected_column = col;
        let count: usize = self.column_count(col);
        if count > 0 {
            let index: usize = self.selected_index[col];
            let within: usize = if index < count {
                index
            } else {
                count - 1
            };
            self.selected_index[col] = within;
        }
    }

    /// Moves the selection by `delta` cards within the column.
    pub fn move_card(&mut self, delta: i32)
        requires
            old(self).well_formed(),
        ensures
            card_moved(*old(self), *final(self), delta),
            final(self).well_formed(),
    {
        let col: usize = self.selected_column;
        let count: usize = self.column_count(col);
        if count == 0 {
            return;
        }
        let current: i32 = #[verifier::truncate] (self.selected_index[col] as i32);
        let aim: i128 = current as i128 + delta as i128;
        let row: usize = if aim < 0 {
            0
        } else if aim >= count as i128 {
            count - 1
        } else {
            aim as usize
        };
        self.selected_index[col] = row;
    }

    /// Cycles through all repositories across the columns. Wraps around.
    pub fn cycle_repo(&mut self, direction: i32)
        requires
            old(self).well_formed(),
        ensures
            repo_cycled(*old(self), *final(self), direction),
            final(self).well_formed(),
    {
        if self.repos.len() == 0 {
            return;
        }
        let mut counts: Vec<usize> = Vec::new();
        let mut col: usize = 0;
        while col < COLUMN_COUNT
            invariant
                col <= COLUMN_COUNT,
                *self == *old(self),
                counts@.len() == col,
                forall|c: int|
                    0 <= c < col ==> #[trigger] counts@[c] == column(self.repos@, c).len(),
            decreases COLUMN_COUNT - col,
        {
            let count: usize = self.column_count(col);
            counts.push(count);
            col = col + 1;
        }
        proof {
            assert(count_views(counts@) =~= column_sizes(self.repos@));
            columns_hold_every_repo(self.repos@);
            assert(self.repos.len() == self.repos@.len());
        }
        let from: usize = self.selected_column;
        let rank: usize = step(&counts, from, self.selected_index[from], direction);
        let (col, row) = find_place(&counts, rank);
        self.selected_column = col;
        self.selected_index[col] = row;
    }

    /// The repository at the selected index of the selected column.
    pub fn selected_repo(&self) -> (r: Option<&Repo>)
        requires
            self.well_formed(),
        ensures
            match r {
                Some(repo) => selection(*self) == Some(*repo),
                None => selection(*self) is None,
            },
    {
        let index: usize = self.selected_index[self.selected_column];
        let shown = self.repos_in_column(self.selected_column);
        assert(derefs(shown@).len() == shown@.len());
        if index < shown.len() {
            assert(derefs(shown@)[index as int] == *shown@[index as int]);
            Some(shown[index])
        } else {
            None
        }
    }
}

// ---------------------------------------------------------------------------
// Laws on order and movement
// ---------------------------------------------------------------------------

/// The open pull requests and the open issues of a repository: none where the forge has
/// told nothing.
pub open spec fn figures(repo: Repo) -> (int, int) {
    match repo.forge_stats {
        Some(stats) => (stats.open_prs as int, stats.open_issues as int),
        None => (0, 0),
    }
}

/// Sorted by pull requests, a repository with more of them stands above one with fewer, and
/// sorted by issues one with more issues. Sorted by names, the cards stand as they were
/// scanned.
pub proof fn more_stands_above_less(repos: Seq<Repo>, col: int, i: int, j: int)
    ensures
        ({
            let by_prs = ordered_column(repos, col, SortMode::PullRequests);
            let by_issues = ordered_column(repos, col, SortMode::Issues);
            let two = 0 <= i < j < column(repos, col).len();
            &&& by_prs.len() == column(repos, col).len()
            &&& two ==> figures(by_prs[i]).0 >= figures(by_prs[j]).0
            &&& by_issues.len() == column(repos, col).len()
            &&& two ==> figures(by_issues[i]).1 >= figures(by_issues[j]).1
            &&& ordered_column(repos, col, SortMode::Name) == column(repos, col)
        }),
{
    column_has_an_order(repos, col, SortMode::PullRequests);
    column_has_an_order(repos, col, SortMode::Issues);
    column_has_an_order(repos, col, SortMode::Name);
    let by_prs = ordered_column(repos, col, SortMode::PullRequests);
    let by_issues = ordered_column(repos, col, SortMode::Issues);
    if 0 <= i < j < column(repos, col).len() {
        assert(sort_value(by_prs[i], SortMode::PullRequests) >= sort_value(
            by_prs[j],
            SortMode::PullRequests,
        ));
        assert(sort_value(by_issues[i], SortMode::Issues) >= sort_value(
            by_issues[j],
            SortMode::Issues,
        ));
    }
}

/// A repository stands in the column that its counts call for, whatever the cards are
/// sorted by.
pub proof fn columns_show_what_is_to_do(repos: Seq<Repo>, i: int, mode: SortMode)
    requires
        0 <= i < repos.len(),
    ensures
        ordered_column(repos, 0, mode).contains(repos[i]) <==> repos[i].behind > 0,
        ordered_column(repos, 1, mode).contains(repos[i]) <==> repos[i].behind == 0
            && repos[i].dirty_files > 0,
        ordered_column(repos, 2, mode).contains(repos[i]) <==> repos[i].behind == 0
            && repos[i].dirty_files == 0 && repos[i].ahead == 0,
        ordered_column(repos, 3, mode).contains(repos[i]) <==> repos[i].behind == 0
            && repos[i].dirty_files == 0 && repos[i].ahead > 0,
{
    repo_stands_in_its_column(repos, i, 0);
    repo_stands_in_its_column(repos, i, 1);
    repo_stands_in_its_column(repos, i, 2);
    repo_stands_in_its_column(repos, i, 3);
    order_keeps_repos(repos, 0, mode, repos[i]);
    order_keeps_repos(repos, 1, mode, repos[i]);
    order_keeps_repos(repos, 2, mode, repos[i]);
    order_keeps_repos(repos, 3, mode, repos[i]);
}

/// The selected repository is the one whose card stands at the selected place.
pub proof fn selection_is_the_selected_card(s: AppState)
    requires
        s.well_formed(),
    ensures
        ({
            let shown = ordered_column(s.repos@, s.selected_column as int, s.sort_mode);
            let at = s.selected_index@[s.selected_column as int] as int;
            &&& at < shown.len() ==> selection(s) == Some(shown[at])
            &&& at >= shown.len() ==> selection(s) is None
        }),
{
}

/// An index that lies within a column stays; one that does not becomes that of the last
/// card, or zero where there is no card.
pub proof fn clamping_leads_into_the_column(index: usize, count: usize)
    ensures
        index < count ==> clamped(index, count as nat) == index,
        index >= count && count > 0 ==> clamped(index, count as nat) == count - 1,
        count == 0 ==> clamped(index, count as nat) == 0,
{
}

/// Going down leads to the next card and going up to the one before, as far as there are
/// cards; the selection stays in its column, and everything else stays.
pub proof fn moving_leads_to_the_next_card(before: AppState, down: AppState, up: AppState)
    requires
        before.well_formed(),
        card_moved(before, down, 1i32),
        card_moved(before, up, -1i32),
        before.selected_index@[before.selected_column as int] < column(
            before.repos@,
            before.selected_column as int,
        ).len(),
        before.selected_index@[before.selected_column as int] < i32::MAX,
    ensures
        ({
            let col = before.selected_column as int;
            let count = column(before.repos@, col).len();
            let at = before.selected_index@[col];
            &&& down.selected_column == before.selected_column
            &&& up.selected_column == before.selected_column
            &&& at + 1 < count ==> down.selected_index@[col] == at + 1
            &&& at + 1 == count ==> down.selected_index@[col] == at
            &&& at > 0 ==> up.selected_index@[col] == at - 1
            &&& at == 0 ==> up.selected_index@[col] == 0
            &&& down.repos == before.repos && up.repos == before.repos
            &&& down.overlay == before.overlay && up.overlay == before.overlay
        }),
        forall|c: int|
            0 <= c < COLUMN_COUNT && c != before.selected_column ==> (
            #[trigger] down.selected_index@[c]) == before.selected_index@[c],
        forall|c: int|
            0 <= c < COLUMN_COUNT && c != before.selected_column ==> (
            #[trigger] up.selected_index@[c]) == before.selected_index@[c],
{
}

/// Going left leads to the column on the left and going right to the one on the right, as
/// far as there are columns. In a column with cards a card is selected: the one that was
/// selected there before, if it is still there.
pub proof fn moving_leads_to_the_next_column(before: AppState, left: AppState, right: AppState)
    requires
        before.well_formed(),
        column_moved(before, left, -1i32),
        column_moved(before, right, 1i32),
    ensures
        before.selected_column > 0 ==> left.selected_column == before.selected_column - 1,
        before.selected_column == 0 ==> left.selected_column == 0,
        before.selected_column < COLUMN_COUNT - 1 ==> right.selected_column
            == before.selected_column + 1,
        before.selected_column == COLUMN_COUNT - 1 ==> right.selected_column
            == before.selected_column,
        ({
            let to = right.selected_column as int;
            let count = column(before.repos@, to).len();
            &&& to != before.selected_column && count > 0 ==> right.selected_index@[to] < count
            &&& before.selected_index@[to] < count ==> right.selected_index@[to]
                == before.selected_index@[to]
        }),
        ({
            let to = left.selected_column as int;
            let count = column(before.repos@, to).len();
            &&& to != before.selected_column && count > 0 ==> left.selected_index@[to] < count
            &&& before.selected_index@[to] < count ==> left.selected_index@[to]
                == before.selected_index@[to]
        }),
{
    sizes_fit(before.repos, left.selected_column as int);
    sizes_fit(before.repos, right.selected_column as int);
}

/// Tab leads to the next card of the column, and shift-tab to the one before.
pub proof fn cycling_leads_to_the_next_card(
    before: AppState,
    forward: AppState,
    backward: AppState,
)
    requires
        before.well_formed(),
        repo_cycled(before, forward, 1i32),
        repo_cycled(before, backward, -1i32),
        before.selected_index@[before.selected_column as int] < column(
            before.repos@,
            before.selected_column as int,
        ).len(),
    ensures
        ({
            let col = before.selected_column as int;
            let at = before.selected_index@[col];
            let count = column(before.repos@, col).len();
            &&& at + 1 < count ==> forward.selected_column == col && forward.selected_index@[col]
                == at + 1
            &&& at > 0 ==> backward.selected_column == col && backward.selected_index@[col] == at
                - 1
            &&& forward.repos == before.repos && backward.repos == before.repos
        }),
{
    let sizes = column_sizes(before.repos@);
    let col = before.selected_column as int;
    let at = before.selected_index@[col] as int;
    let count = column(before.repos@, col).len();
    columns_hold_every_repo(before.repos@);
    let n = all_cards(sizes);
    place_of_rank(sizes, col, at);
    sizes_fit(before.repos, col);
    let rank = rank_of(sizes, col, at);
    if at + 1 < count {
        place_of_rank(sizes, col, at + 1);
        lemma_small_mod((rank + 1) as nat, n as nat);
    }
    if at > 0 {
        place_of_rank(sizes, col, at - 1);
        lemma_small_mod((rank - 1) as nat, n as nat);
    }
}

/// From the last card of a column, tab leads to the first card of the next column that has
/// any. From there, shift-tab leads back.
pub proof fn cycling_leads_to_the_next_column(
    before: AppState,
    forward: AppState,
    other: AppState,
    backward: AppState,
    next: int,
)
    requires
        before.well_formed(),
        before.selected_index@[before.selected_column as int] + 1 == column(
            before.repos@,
            before.selected_column as int,
        ).len(),
        before.selected_column < next < COLUMN_COUNT,
        column(before.repos@, next).len() > 0,
        forall|c: int|
            before.selected_column < c < next ==> #[trigger] column(before.repos@, c).len() == 0,
        repo_cycled(before, forward, 1i32),
        other.repos == before.repos,
        other.selected_column == next,
        other.selected_index@[next] == 0,
        repo_cycled(other, backward, -1i32),
    ensures
        forward.selected_column == next,
        forward.selected_index@[next] == 0,
        backward.selected_column == before.selected_column,
        backward.selected_index@[backward.selected_column as int]
            == before.selected_index@[before.selected_column as int],
{
    let sizes = column_sizes(before.repos@);
    let col = before.selected_column as int;
    let at = before.selected_index@[col] as int;
    columns_hold_every_repo(before.repos@);
    let n = all_cards(sizes);
    place_of_rank(sizes, col, at);
    place_of_rank(sizes, next, 0);
    sizes_fit(before.repos, col);
    no_cards_between(sizes, col + 1, next);
    let rank = rank_of(sizes, col, at);
    assert(rank + 1 == rank_of(sizes, next, 0));
    lemma_small_mod((rank + 1) as nat, n as nat);
    lemma_small_mod(rank as nat, n as nat);
}

proof fn no_cards_between(sizes: Seq<nat>, from: int, to: int)
    requires
        0 <= from <= to <= sizes.len(),
        forall|c: int| from <= c < to ==> #[trigger] sizes[c] == 0,
    ensures
        cards_before(sizes, from) == cards_before(sizes, to),
    decreases to - from,
{
    if from < to {
        no_cards_between(sizes, from, to - 1);
    }
}

/// From the last card of the board, tab leads to the first card of it.
pub proof fn cycling_goes_around(before: AppState, forward: AppState, first: int)
    requires
        before.well_formed(),
        repo_cycled(before, forward, 1i32),
        0 <= first < COLUMN_COUNT,
        column(before.repos@, first).len() > 0,
        forall|c: int| 0 <= c < first ==> #[trigger] column(before.repos@, c).len() == 0,
        forall|c: int|
            before.selected_column < c < COLUMN_COUNT ==> #[trigger] column(
                before.repos@,
                c,
            ).len() == 0,
        before.selected_index@[before.selected_column as int] + 1 == column(
            before.repos@,
            before.selected_column as int,
        ).len(),
    ensures
        forward.selected_column == first,
        forward.selected_index@[first] == 0,
{
    let sizes = column_sizes(before.repos@);
    let col = before.selected_column as int;
    let at = before.selected_index@[col] as int;
    columns_hold_every_repo(before.repos@);
    let n = all_cards(sizes);
    place_of_rank(sizes, col, at);
    place_of_rank(sizes, first, 0);
    no_cards_between(sizes, 0, first);
    no_cards_between(sizes, col + 1, COLUMN_COUNT as int);
    assert(rank_of(sizes, col, at) + 1 == n);
    assert(n % n == 0) by (nonlinear_arith)
        requires
            n > 0,
    ;
    assert(rank_of(sizes, first, 0) == 0);
}

} // verus!
