//! What keys do to the board.

use vstd::prelude::*;

use crate::app::{
    card_moved, column, column_moved, column_sizes, columns_hold_every_repo,
    cycling_selects_a_repo, repo_cycled, selection, AppState, Overlay,
};
use crate::model::{state_of_column, Repo, RepoView, WorktreeView, COLUMN_COUNT};
use crate::nav::{
    cycle_visits_every_card, place_at, place_of_rank, rank_of, rank_of_place, step_from,
    step_leads_to_a_card, steps_undo_each_other,
};
use crate::text::{concat, concat3, opt_text};

verus! {

/// A key of the keyboard.
#[derive(Debug, Clone, Copy, PartialEq, Eq, Structural)]
pub enum Key {
    Char(char),
    Left,
    Right,
    Up,
    Down,
    Tab,
    BackTab,
    Enter,
    Esc,
    Other,
}

/// A key that was pressed, and whether the control key was held.
#[derive(Debug, Clone, Copy, PartialEq, Eq, Structural)]
pub struct KeyPress {
    pub code: Key,
    pub ctrl: bool,
}

/// The work outside the board that a key asks for.
#[derive(Debug, PartialEq, Eq)]
pub enum Effect {
    Nothing,
    /// Scan the directory again.
    Rescan,
    /// Pull the repository at a path.
    Pull { path: String, name: String },
    /// Push the repository at a path.
    Push { path: String, name: String },
}

/// The model of an `Effect`.
pub enum EffectView {
    Nothing,
    Rescan,
    Pull { path: Seq<char>, name: Seq<char> },
    Push { path: Seq<char>, name: Seq<char> },
}

impl View for Effect {
    type V = EffectView;

    open spec fn view(&self) -> EffectView {
        match *self {
            Effect::Nothing => EffectView::Nothing,
            Effect::Rescan => EffectView::Rescan,
            Effect::Pull { path, name } => EffectView::Pull { path: path@, name: name@ },
            Effect::Push { path, name } => EffectView::Push { path: path@, name: name@ },
        }
    }
}

// ---------------------------------------------------------------------------
// What keys mean
// ---------------------------------------------------------------------------

/// The models of labelled directories.
pub open spec fn choice_views(s: Seq<(String, String)>) -> Seq<(Seq<char>, Seq<char>)> {
    s.map_values(|x: (String, String)| (x.0@, x.1@))
}

/// The directories that a shell can be opened in for a repository: its own, and those of
/// its worktrees.
pub open spec fn shell_choices(repo: RepoView) -> Seq<(Seq<char>, Seq<char>)> {
    seq![("main: "@ + repo.name, repo.path)] + repo.worktrees.map_values(
        |w: WorktreeView| ("wt: "@ + w.branch, w.path),
    )
}

/// A request for a shell: it opens in a repository without worktrees, and asks where for
/// one with worktrees.
pub open spec fn shell_asked(before: AppState, after: AppState) -> bool {
    match selection(before) {
        None => after == before,
        Some(repo) => if repo@.worktrees.len() == 0 {
            &&& after == (AppState { pending_shell: after.pending_shell, ..before })
            &&& opt_text(after.pending_shell) == Some(repo@.path)
        } else {
            &&& after == (AppState { overlay: after.overlay, ..before })
            &&& after.overlay matches Overlay::ShellPicker { paths, index } && index == 0
                && choice_views(paths@) == shell_choices(repo@)
        },
    }
}

/// A request to pull: the status line says so, and the work is asked for.
pub open spec fn pull_asked(before: AppState, after: AppState, effect: EffectView) -> bool {
    match selection(before) {
        None => after == before && effect is Nothing,
        Some(repo) => {
            &&& after == (AppState { status_message: after.status_message, ..before })
            &&& opt_text(after.status_message) == Some("Pulling "@ + repo@.name + "..."@)
            &&& effect == (EffectView::Pull { path: repo@.path, name: repo@.name })
        },
    }
}

/// A request to push: the status line says so, and the work is asked for.
pub open spec fn push_asked(before: AppState, after: AppState, effect: EffectView) -> bool {
    match selection(before) {
        None => after == before && effect is Nothing,
        Some(repo) => {
            &&& after == (AppState { status_message: after.status_message, ..before })
            &&& opt_text(after.status_message) == Some("Pushing "@ + repo@.name + "..."@)
            &&& effect == (EffectView::Push { path: repo@.path, name: repo@.name })
        },
    }
}

/// What a key does on the board.
pub open spec fn board_key(
    before: AppState,
    code: Key,
    after: AppState,
    effect: EffectView,
) -> bool {
    if code == Key::Char('p') {
        pull_asked(before, after, effect)
    } else if code == Key::Char('P') {
        push_asked(before, after, effect)
    } else if code == Key::Char('r') {
        after == before && effect is Rescan
    } else {
        &&& effect is Nothing
        &&& if code == Key::Char('q') || code == Key::Esc {
            after == (AppState { should_quit: true, ..before })
        } else if code == Key::Char('h') || code == Key::Left {
            column_moved(before, after, -1i32)
        } else if code == Key::Char('l') || code == Key::Right {
            column_moved(before, after, 1i32)
        } else if code == Key::Char('j') || code == Key::Down {
            card_moved(before, after, 1i32)
        } else if code == Key::Char('k') || code == Key::Up {
            card_moved(before, after, -1i32)
        } else if code == Key::Tab {
            repo_cycled(before, after, 1i32)
        } else if code == Key::BackTab {
            repo_cycled(before, after, -1i32)
        } else if code == Key::Enter {
            if selection(before) is Some {
                after == (AppState { overlay: Overlay::Detail, ..before })
            } else {
                after == before
            }
        } else if code == Key::Char('?') {
            after == (AppState { overlay: Overlay::Help, ..before })
        } else if code == Key::Char('s') {
            shell_asked(before, after)
        } else if code == Key::Char('v') {
            after == (AppState { sort_mode: before.sort_mode.following(), ..before })
        } else {
            after == before
        }
    }
}

/// What a key does while the details of a repository are shown.
pub open spec fn detail_key(
    before: AppState,
    code: Key,
    after: AppState,
    effect: EffectView,
) -> bool {
    if code == Key::Char('p') {
        pull_asked(before, after, effect)
    } else if code == Key::Char('P') {
        push_asked(before, after, effect)
    } else {
        &&& effect is Nothing
        &&& if code == Key::Esc || code == Key::Char('q') {
            after == (AppState { overlay: Overlay::Board, ..before })
        } else if code == Key::Tab {
            repo_cycled(before, after, 1i32)
        } else if code == Key::BackTab {
            repo_cycled(before, after, -1i32)
        } else if code == Key::Char('s') {
            shell_asked(before, after)
        } else {
            after == before
        }
    }
}

/// What a key does while the help is shown.
pub open spec fn help_key(before: AppState, code: Key, after: AppState) -> bool {
    if code == Key::Esc || code == Key::Char('q') || code == Key::Char('?') {
        after == (AppState { overlay: Overlay::Board, ..before })
    } else {
        after == before
    }
}

/// The index that a key leads to among `count` directories.
pub open spec fn picked(index: int, count: int, code: Key) -> int {
    if (code == Key::Char('j') || code == Key::Down) && count > 0 {
        if index + 1 < count {
            index + 1
        } else {
            count - 1
        }
    } else if (code == Key::Char('k') || code == Key::Up) && index > 0 {
        index - 1
    } else {
        index
    }
}

/// What a key does while a directory is being picked.
pub open spec fn picker_key(before: AppState, code: Key, after: AppState) -> bool {
    match before.overlay {
        Overlay::ShellPicker { paths, index } => if code == Key::Esc || code == Key::Char('q') {
            after == (AppState { overlay: Overlay::Board, ..before })
        } else if code == Key::Enter {
            if index < paths@.len() {
                &&& after == (AppState {
                    overlay: Overlay::Board,
                    pending_shell: after.pending_shell,
                    ..before
                })
                &&& opt_text(after.pending_shell) == Some(paths@[index as int].1@)
            } else {
                after == before
            }
        } else {
            after == (AppState {
                overlay: Overlay::ShellPicker {
                    paths,
                    index: picked(index as int, paths@.len() as int, code) as usize,
                },
                ..before
            })
        },
        _ => after == before,
    }
}

/// What a key does: with the control key, `c` quits whatever is shown; any other key
/// does what it does there.
pub open spec fn key_applied(
    before: AppState,
    key: KeyPress,
    after: AppState,
    effect: EffectView,
) -> bool {
    if key.ctrl && key.code == Key::Char('c') {
        after == (AppState { should_quit: true, ..before }) && effect is Nothing
    } else {
        match before.overlay {
            Overlay::Board => board_key(before, key.code, after, effect),
            Overlay::Detail => detail_key(before, key.code, after, effect),
            Overlay::Help => help_key(before, key.code, after) && effect is Nothing,
            Overlay::ShellPicker { .. } => picker_key(before, key.code, after) && effect
                is Nothing,
        }
    }
}

// ---------------------------------------------------------------------------
// Laws
// ---------------------------------------------------------------------------

/// Control and `c` quit whatever is shown.
pub proof fn ctrl_c_quits(before: AppState, key: KeyPress, after: AppState, effect: EffectView)
    requires
        key_applied(before, key, after, effect),
        key.ctrl,
        key.code == Key::Char('c'),
    ensures
        after.should_quit,
{
}

/// Only control and `c`, or `q` and the escape key on the board, quit.
pub proof fn other_keys_do_not_quit(
    before: AppState,
    key: KeyPress,
    after: AppState,
    effect: EffectView,
)
    requires
        key_applied(before, key, after, effect),
        !(key.ctrl && key.code == Key::Char('c')),
        !(before.overlay is Board && (key.code == Key::Char('q') || key.code == Key::Esc)),
    ensures
        after.should_quit == before.should_quit,
{
}

/// A key that opens the help closes it again, and leaves everything else as it was.
pub proof fn question_mark_toggles_help(
    before: AppState,
    key: KeyPress,
    between: AppState,
    after: AppState,
    first: EffectView,
    second: EffectView,
)
    requires
        before.overlay is Board,
        key.code == Key::Char('?'),
        key_applied(before, key, between, first),
        key_applied(between, key, after, second),
    ensures
        between.overlay is Help,
        after == before,
{
}

/// The escape key closes every overlay, and asks for nothing.
pub proof fn esc_closes_overlays(
    before: AppState,
    key: KeyPress,
    after: AppState,
    effect: EffectView,
)
    requires
        key_applied(before, key, after, effect),
        key.code == Key::Esc,
        !(before.overlay is Board),
    ensures
        after == (AppState { overlay: Overlay::Board, ..before }),
        effect is Nothing,
{
}

/// The escape key quits where there is no overlay to close, as `q` does.
pub proof fn esc_quits_from_the_board(
    before: AppState,
    key: KeyPress,
    after: AppState,
    effect: EffectView,
)
    requires
        key_applied(before, key, after, effect),
        key.code == Key::Esc || key.code == Key::Char('q'),
        before.overlay is Board,
    ensures
        after == (AppState { should_quit: true, ..before }),
        effect is Nothing,
{
}

/// No key changes what is known of the repositories.
pub proof fn keys_keep_repos(
    before: AppState,
    key: KeyPress,
    after: AppState,
    effect: EffectView,
)
    requires
        before.well_formed(),
        key_applied(before, key, after, effect),
    ensures
        after.repos == before.repos,
        after.scan_path == before.scan_path,
        after.frame == before.frame,
{
}

/// A key pulls or pushes the repository that is selected, and no other.
pub proof fn work_is_on_the_selection(
    before: AppState,
    key: KeyPress,
    after: AppState,
    effect: EffectView,
)
    requires
        key_applied(before, key, after, effect),
    ensures
        effect matches EffectView::Pull { path, name } ==> selection(before) is Some && path
            == selection(before)->0@.path && name == selection(before)->0@.name,
        effect matches EffectView::Push { path, name } ==> selection(before) is Some && path
            == selection(before)->0@.path && name == selection(before)->0@.name,
{
}

/// The index of the picker stays among the directories, and the picker never changes
/// them.
pub proof fn picker_stays_within_choices(
    before: AppState,
    key: KeyPress,
    after: AppState,
    effect: EffectView,
)
    requires
        key_applied(before, key, after, effect),
        before.overlay matches Overlay::ShellPicker { paths, index } && index < paths@.len(),
        after.overlay is ShellPicker,
    ensures
        after.overlay->paths == before.overlay->paths,
        after.overlay->index < after.overlay->paths@.len(),
{
    if let Overlay::ShellPicker { paths, index } = before.overlay {
        assert(paths.len() == paths@.len());
    }
}

/// Tab and shift-tab, one after the other, come back to the repository they began with.
pub proof fn tab_and_back_tab_come_back(
    before: AppState,
    between: AppState,
    after: AppState,
    direction: i32,
)
    requires
        before.well_formed(),
        i32::MIN < direction,
        before.selected_index@[before.selected_column as int] < column(
            before.repos@,
            before.selected_column as int,
        ).len(),
        repo_cycled(before, between, direction),
        repo_cycled(between, after, (-direction) as i32),
    ensures
        after.selected_column == before.selected_column,
        after.selected_index@[after.selected_column as int]
            == before.selected_index@[before.selected_column as int],
        selection(after) == selection(before),
{
    let sizes = column_sizes(before.repos@);
    let col = before.selected_column as int;
    let row = before.selected_index@[col] as int;
    let d = direction as int;
    columns_hold_every_repo(before.repos@);
    place_of_rank(sizes, col, row);
    steps_undo_each_other(sizes, col, row, d);
    cycling_selects_a_repo(before, between, direction);
    step_leads_to_a_card(sizes, col, row, d);
    let rank = step_from(sizes, col, row, d);
    rank_of_place(sizes, rank);
    let (c, r) = place_at(sizes, rank);
    assert(column(before.repos@, c).len() <= usize::MAX) by {
        before.repos@.lemma_filter_len(
            |x: Repo| x@.state() == state_of_column(c),
        );
        assert(before.repos.len() == before.repos@.len());
    }
    assert(between.selected_index@[c] == r);
}

/// The states follow one another by a step forward through the repositories each.
pub open spec fn is_tab_run(states: Seq<AppState>) -> bool {
    forall|i: int|
        0 <= i < states.len() - 1 ==> repo_cycled(#[trigger] states[i], states[i + 1], 1i32)
}

/// Tab visits the repositories in turn: after `k` steps the selection stands `k` cards
/// further, around the end of the board, and after as many steps as there are
/// repositories it stands where it began.
pub proof fn tab_goes_round(states: Seq<AppState>, k: int)
    requires
        is_tab_run(states),
        0 <= k < states.len(),
        states[0].well_formed(),
        states[0].selected_index@[states[0].selected_column as int] < column(
            states[0].repos@,
            states[0].selected_column as int,
        ).len(),
    ensures
        ({
            let sizes = column_sizes(states[0].repos@);
            let col = states[0].selected_column as int;
            let row = states[0].selected_index@[col] as int;
            let now = states[k].selected_column as int;
            let at = (now, states[k].selected_index@[now] as int);
            &&& states[k].repos == states[0].repos
            &&& states[k].well_formed()
            &&& at == place_at(
                sizes,
                (rank_of(sizes, col, row) + k) % (states[0].repos@.len() as int),
            )
            &&& k == states[0].repos@.len() ==> at == (col, row)
        }),
    decreases k,
{
    let repos = states[0].repos;
    let sizes = column_sizes(repos@);
    let col = states[0].selected_column as int;
    let row = states[0].selected_index@[col] as int;
    columns_hold_every_repo(repos@);
    place_of_rank(sizes, col, row);
    cycle_visits_every_card(sizes, col, row, k as nat);
    if k > 0 {
        tab_goes_round(states, k - 1);
        cycle_visits_every_card(sizes, col, row, (k - 1) as nat);
        let before = states[k - 1];
        let c = before.selected_column as int;
        let r = before.selected_index@[c] as int;
        let rank = step_from(sizes, c, r, 1);
        assert(repo_cycled(states[k - 1], states[k - 1 + 1], 1i32));
        step_leads_to_a_card(sizes, c, r, 1);
        rank_of_place(sizes, rank);
        let to = place_at(sizes, rank).0;
        repos@.lemma_filter_len(|x: Repo| x@.state() == state_of_column(to));
        assert(repos.len() == repos@.len());
    }
}

/// A step to the next column and one back lead to the column they began with.
pub proof fn columns_come_back(before: AppState, between: AppState, after: AppState)
    requires
        before.well_formed(),
        before.selected_column + 1 < COLUMN_COUNT,
        column_moved(before, between, 1i32),
        column_moved(between, after, -1i32),
    ensures
        after.selected_column == before.selected_column,
{
}

// ---------------------------------------------------------------------------
// Handling
// ---------------------------------------------------------------------------

impl AppState {
    /// Asks for the selected repository to be pulled.
    pub fn pull_selected(&mut self) -> (r: Effect)
        requires
            old(self).well_formed(),
        ensures
            pull_asked(*old(self), *final(self), r@),
            final(self).well_formed(),
    {
        let (path, name) = match self.selected_repo() {
            Some(repo) => (repo.path.clone(), repo.name.clone()),
            None => {
                return Effect::Nothing;
            },
        };
        self.status_message = Some(concat3("Pulling ", name.as_str(), "..."));
        Effect::Pull { path, name }
    }

    /// Asks for the selected repository to be pushed.
    pub fn push_selected(&mut self) -> (r: Effect)
        requires
            old(self).well_formed(),
        ensures
            push_asked(*old(self), *final(self), r@),
            final(self).well_formed(),
    {
        let (path, name) = match self.selected_repo() {
            Some(repo) => (repo.path.clone(), repo.name.clone()),
            None => {
                return Effect::Nothing;
            },
        };
        self.status_message = Some(concat3("Pushing ", name.as_str(), "..."));
        Effect::Push { path, name }
    }

    /// Opens a shell in the selected repository, or asks where if it has worktrees.
    pub fn open_shell(&mut self)
        requires
            old(self).well_formed(),
        ensures
            shell_asked(*old(self), *final(self)),
            final(self).well_formed(),
    {
        let choices = match self.selected_repo() {
            Some(repo) => {
                if repo.worktrees.len() == 0 {
                    let path = repo.path.clone();
                    self.pending_shell = Some(path);
                    return;
                }
                list_choices(repo)
            },
            None => {
                return;
            },
        };
        self.overlay = Overlay::ShellPicker { paths: choices, index: 0 };
    }

    /// Handles a key on the board.
    pub fn handle_board_key(&mut self, code: Key) -> (r: Effect)
        requires
            old(self).well_formed(),
        ensures
            board_key(*old(self), code, *final(self), r@),
            final(self).well_formed(),
    {
        match code {
            Key::Char('q') | Key::Esc => {
                self.should_quit = true;
            },
            Key::Char('h') | Key::Left => {
                self.move_column(-1);
            },
            Key::Char('l') | Key::Right => {
                self.move_column(1);
            },
            Key::Char('j') | Key::Down => {
                self.move_card(1);
            },
            Key::Char('k') | Key::Up => {
                self.move_card(-1);
            },
            Key::Tab => {
                self.cycle_repo(1);
            },
            Key::BackTab => {
                self.cycle_repo(-1);
            },
            Key::Enter => {
                if self.selected_repo().is_some() {
                    self.overlay = Overlay::Detail;
                }
            },
            Key::Char('?') => {
                self.overlay = Overlay::Help;
            },
            Key::Char('r') => {
                return Effect::Rescan;
            },
            Key::Char('p') => {
                return self.pull_selected();
            },
            Key::Char('P') => {
                return self.push_selected();
            },
            Key::Char('s') => {
                self.open_shell();
            },
            Key::Char('v') => {
                self.sort_mode = self.sort_mode.next();
            },
            _ => {},
        }
        Effect::Nothing
    }

    /// Handles a key while the details of a repository are shown.
    pub fn handle_detail_key(&mut self, code: Key) -> (r: Effect)
        requires
            old(self).well_formed(),
        ensures
            detail_key(*old(self), code, *final(self), r@),
            final(self).well_formed(),
    {
        match code {
            Key::Esc | Key::Char('q') => {
                self.overlay = Overlay::Board;
            },
            Key::Tab => {
                self.cycle_repo(1);
            },
            Key::BackTab => {
                self.cycle_repo(-1);
            },
            Key::Char('p') => {
                return self.pull_selected();
            },
            Key::Char('P') => {
                return self.push_selected();
            },
            Key::Char('s') => {
                self.open_shell();
            },
            _ => {},
        }
        Effect::Nothing
    }

    /// Handles a key while the help is shown.
    pub fn handle_help_key(&mut self, code: Key)
        ensures
            help_key(*old(self), code, *final(self)),
    {
        match code {
            Key::Esc | Key::Char('q') | Key::Char('?') => {
                self.overlay = Overlay::Board;
            },
            _ => {},
        }
    }

    /// Handles a key while a directory is being picked.
    pub fn handle_shell_picker_key(&mut self, code: Key)
        ensures
            picker_key(*old(self), code, *final(self)),
    {
        match &mut self.overlay {
            Overlay::ShellPicker { paths, index } => match code {
                Key::Esc | Key::Char('q') => {
                    self.overlay = Overlay::Board;
                },
                Key::Char('j') | Key::Down => {
                    if paths.len() > 0 {
                        if *index < paths.len() - 1 {
                            *index = *index + 1;
                        } else {
                            *index = paths.len() - 1;
                        }
                    }
                },
                Key::Char('k') | Key::Up => {
                    if *index > 0 {
                        *index = *index - 1;
                    }
                },
                Key::Enter => {
                    if *index < paths.len() {
                        let path = paths[*index].1.clone();
                        self.pending_shell = Some(path);
                        self.overlay = Overlay::Board;
                    }
                },
                _ => {},
            },
            _ => {},
        }
    }

    /// Handles a key. The work that it asks for is left to the caller.
    pub fn handle_key(&mut self, key: KeyPress) -> (r: Effect)
        requires
            old(self).well_formed(),
        ensures
            key_applied(*old(self), key, *final(self), r@),
            final(self).well_formed(),
    {
        if key.ctrl && key.code == Key::Char('c') {
            self.should_quit = true;
            return Effect::Nothing;
        }
        match self.overlay {
            Overlay::Detail => self.handle_detail_key(key.code),
            Overlay::Help => {
                self.handle_help_key(key.code);
                Effect::Nothing
            },
            Overlay::Board => self.handle_board_key(key.code),
            Overlay::ShellPicker { .. } => {
                self.handle_shell_picker_key(key.code);
                Effect::Nothing
            },
        }
    }
}

fn list_choices(repo: &Repo) -> (r: Vec<(String, String)>)
    ensures
        choice_views(r@) == shell_choices(repo@),
{
    let mut out: Vec<(String, String)> = Vec::new();
    out.push((concat("main: ", repo.name.as_str()), repo.path.clone()));
    let mut k: usize = 0;
    while k < repo.worktrees.len()
        invariant
            k <= repo.worktrees.len(),
            out@.len() == k + 1,
            choice_views(out@) == shell_choices(repo@).take(k + 1),
        decreases repo.worktrees.len() - k,
    {
        let wt = &repo.worktrees[k];
        let ghost before = out@;
        out.push((concat("wt: ", wt.branch.as_str()), wt.path.clone()));
        assert(choice_views(out@) =~= shell_choices(repo@).take(k + 2));
        k = k + 1;
    }
    assert(shell_choices(repo@).take(k + 1) =~= shell_choices(repo@));
    out
}

// ---------------------------------------------------------------------------
// Laws on single keys
// ---------------------------------------------------------------------------

/// `p` pulls and `P` pushes the selected repository, on the board and in its details, and
/// the status line says so; nothing else changes. Where none is selected nothing happens.
pub proof fn p_pulls_and_shift_p_pushes(
    before: AppState,
    key: KeyPress,
    after: AppState,
    effect: EffectView,
)
    requires
        key_applied(before, key, after, effect),
        before.overlay is Board || before.overlay is Detail,
    ensures
        ({
            let chosen = selection(before);
            &&& effect is Pull <==> key.code == Key::Char('p') && chosen is Some
            &&& effect is Push <==> key.code == Key::Char('P') && chosen is Some
            &&& effect matches EffectView::Pull { path, name } ==> {
                &&& path == chosen->0.path@
                &&& opt_text(after.status_message) == Some("Pulling "@ + chosen->0.name@ + "..."@)
            }
            &&& effect matches EffectView::Push { path, name } ==> {
                &&& path == chosen->0.path@
                &&& opt_text(after.status_message) == Some("Pushing "@ + chosen->0.name@ + "..."@)
            }
            &&& effect is Pull || effect is Push ==> after == (AppState {
                status_message: after.status_message,
                ..before
            })
            &&& effect is Rescan <==> key.code == Key::Char('r') && before.overlay is Board
        }),
{
}

/// Nothing is pulled, pushed or scanned by a key while the help or the picker is shown.
pub proof fn overlays_ask_for_nothing(
    before: AppState,
    key: KeyPress,
    after: AppState,
    effect: EffectView,
)
    requires
        key_applied(before, key, after, effect),
        before.overlay is Help || before.overlay is ShellPicker,
    ensures
        effect is Nothing,
        after.selected_column == before.selected_column,
        after.selected_index == before.selected_index,
        after.sort_mode == before.sort_mode,
        after.status_message == before.status_message,
{
}

/// On the board, the keys of the home row and the arrows do the same.
pub proof fn letters_and_arrows_agree(before: AppState, after: AppState, effect: EffectView)
    requires
        before.overlay is Board,
    ensures
        ({
            let does = |code: Key|
                key_applied(before, KeyPress { code, ctrl: false }, after, effect);
            &&& does(Key::Char('h')) == does(Key::Left)
            &&& does(Key::Char('l')) == does(Key::Right)
            &&& does(Key::Char('j')) == does(Key::Down)
            &&& does(Key::Char('k')) == does(Key::Up)
            &&& does(Key::Char('q')) == does(Key::Esc)
        }),
{
}

/// On the board, left and right move by a column, down and up by a card, and tab and
/// shift-tab by a repository.
pub proof fn keys_move_the_selection(
    before: AppState,
    key: KeyPress,
    after: AppState,
    effect: EffectView,
)
    requires
        before.well_formed(),
        before.overlay is Board,
        key_applied(before, key, after, effect),
    ensures
        ({
            let col = before.selected_column;
            let at = before.selected_index@[col as int];
            let count = column(before.repos@, col as int).len();
            let small = at < count && at < i32::MAX;
            &&& key.code == Key::Left && col > 0 ==> after.selected_column == col - 1
            &&& key.code == Key::Right && col < COLUMN_COUNT - 1 ==> after.selected_column == col
                + 1
            &&& key.code == Key::Down && small && at + 1 < count ==> after.selected_column == col
                && after.selected_index@[col as int] == at + 1
            &&& key.code == Key::Up && small && at > 0 ==> after.selected_column == col
                && after.selected_index@[col as int] == at - 1
            &&& key.code == Key::Tab ==> repo_cycled(before, after, 1i32)
            &&& key.code == Key::BackTab ==> repo_cycled(before, after, -1i32)
            &&& key.code == Key::Enter ==> (after.overlay is Detail <==> selection(before) is Some)
            &&& key.code == Key::Char('?') ==> after.overlay is Help
            &&& key.code == Key::Char('v') ==> after.sort_mode != before.sort_mode
            &&& key.code != Key::Char('v') ==> after.sort_mode == before.sort_mode
        }),
{
}

/// A shell opens where the user is: in the repository where it has no worktrees, and else
/// in the directory that is picked, of which the repository's own is the first and those of
/// the worktrees follow in their order.
pub proof fn shells_open_in_the_selection(
    before: AppState,
    key: KeyPress,
    after: AppState,
    effect: EffectView,
    k: int,
)
    requires
        before.overlay is Board || before.overlay is Detail,
        key.code == Key::Char('s'),
        key_applied(before, key, after, effect),
        selection(before) is Some,
        0 <= k < selection(before)->0.worktrees@.len(),
    ensures
        ({
            let repo = selection(before)->0;
            &&& after.pending_shell == before.pending_shell
            &&& after.overlay matches Overlay::ShellPicker { paths, index } && {
                &&& index == 0
                &&& paths@.len() == repo.worktrees@.len() + 1
                &&& paths@[0].0@ == "main: "@ + repo.name@
                &&& paths@[0].1@ == repo.path@
                &&& paths@[k + 1].0@ == "wt: "@ + repo.worktrees@[k].branch@
                &&& paths@[k + 1].1@ == repo.worktrees@[k].path@
            }
        }),
{
    let repo = selection(before)->0;
    if let Overlay::ShellPicker { paths, index } = after.overlay {
        let views = choice_views(paths@);
        let want = shell_choices(repo@);
        assert(views.len() == paths@.len());
        assert(want.len() == repo.worktrees@.len() + 1);
        assert(views[0] == (paths@[0].0@, paths@[0].1@));
        assert(views[k + 1] == (paths@[k + 1].0@, paths@[k + 1].1@));
        assert(want[k + 1] == ("wt: "@ + repo@.worktrees[k].branch, repo@.worktrees[k].path));
    }
}

/// A repository without worktrees gets its shell at once.
pub proof fn shells_open_at_once(
    before: AppState,
    key: KeyPress,
    after: AppState,
    effect: EffectView,
)
    requires
        before.overlay is Board || before.overlay is Detail,
        key.code == Key::Char('s'),
        key_applied(before, key, after, effect),
        selection(before) matches Some(repo) ==> repo.worktrees@.len() == 0,
    ensures
        selection(before) matches Some(repo) ==> opt_text(after.pending_shell) == Some(repo.path@),
        selection(before) is None ==> after == before,
        after.overlay == before.overlay,
{
    if let Some(repo) = selection(before) {
        assert(repo@.worktrees.len() == repo.worktrees@.len());
    }
}

/// In the picker, down and up move by one choice as far as there are choices, and enter
/// opens the shell in the marked one and closes the picker.
pub proof fn picker_moves_and_picks(
    before: AppState,
    key: KeyPress,
    after: AppState,
    effect: EffectView,
    paths: Vec<(String, String)>,
    index: usize,
)
    requires
        before.overlay == (Overlay::ShellPicker { paths, index }),
        index < paths@.len(),
        key_applied(before, key, after, effect),
        !key.ctrl,
    ensures
        ({
            let down = key.code == Key::Down || key.code == Key::Char('j');
            let up = key.code == Key::Up || key.code == Key::Char('k');
            &&& down || up ==> after.overlay is ShellPicker && after.overlay->paths == paths
            &&& down ==> after.overlay->index == if index + 1 < paths@.len() {
                index + 1
            } else {
                index as int
            }
            &&& up ==> after.overlay->index == if index > 0 {
                index - 1
            } else {
                0
            }
            &&& key.code == Key::Enter ==> after.overlay is Board && opt_text(after.pending_shell)
                == Some(paths@[index as int].1@)
            &&& key.code != Key::Enter ==> after.pending_shell == before.pending_shell
        }),
{
    assert(paths.len() == paths@.len());
}

/// In the details, tab and shift-tab lead to another repository; no other key does, and
/// none changes what the cards are sorted by.
pub proof fn details_follow_tab(
    before: AppState,
    key: KeyPress,
    after: AppState,
    effect: EffectView,
)
    requires
        before.overlay is Detail,
        key_applied(before, key, after, effect),
    ensures
        key.code == Key::Tab ==> repo_cycled(before, after, 1i32),
        key.code == Key::BackTab ==> repo_cycled(before, after, -1i32),
        key.code != Key::Tab && key.code != Key::BackTab ==> after.selected_column
            == before.selected_column && after.selected_index == before.selected_index,
        after.sort_mode == before.sort_mode,
{
}

/// `q` closes what lies over the board, as the escape key does.
pub proof fn q_closes_overlays(
    before: AppState,
    key: KeyPress,
    after: AppState,
    effect: EffectView,
)
    requires
        key_applied(before, key, after, effect),
        key.code == Key::Char('q'),
        !(before.overlay is Board),
    ensures
        after == (AppState { overlay: Overlay::Board, ..before }),
        effect is Nothing,
{
}

/// A key without a meaning does nothing, whatever is shown. A letter has no meaning but for
/// those that the help names.
pub proof fn other_keys_do_nothing(
    before: AppState,
    key: KeyPress,
    after: AppState,
    effect: EffectView,
)
    requires
        key_applied(before, key, after, effect),
        match key.code {
            Key::Char(c) => !seq!['h', 'j', 'k', 'l', 'r', 'p', 'P', 's', 'v', '?', 'q', 'c']
                .contains(c),
            Key::Other => true,
            _ => false,
        },
    ensures
        after == before,
        effect is Nothing,
{
    let named = seq!['h', 'j', 'k', 'l', 'r', 'p', 'P', 's', 'v', '?', 'q', 'c'];
    assert(named[0] == 'h' && named[1] == 'j' && named[2] == 'k' && named[3] == 'l');
    assert(named[4] == 'r' && named[5] == 'p' && named[6] == 'P' && named[7] == 's');
    assert(named[8] == 'v' && named[9] == '?' && named[10] == 'q' && named[11] == 'c');
    if let Overlay::ShellPicker { paths, index } = before.overlay {
        assert(paths.len() == paths@.len());
    }
}

} // verus!
