//! Repositories and the states they can be in.

use vstd::prelude::*;

use crate::text::{concat, opt_text};

verus! {

/// The number of columns on the board.
pub const COLUMN_COUNT: usize = 4;

// ---------------------------------------------------------------------------
// Sync state
// ---------------------------------------------------------------------------

/// How a repository stands to its upstream and its working tree.
#[derive(Debug, Clone, Copy, PartialEq, Eq, Structural)]
pub enum SyncState {
    Behind,
    Uncommitted,
    Ahead,
    InSync,
}

/// The state that column `col` of the board shows.
pub open spec fn state_of_column(col: int) -> SyncState {
    if col == 0 {
        SyncState::Behind
    } else if col == 1 {
        SyncState::Uncommitted
    } else if col == 2 {
        SyncState::InSync
    } else {
        SyncState::Ahead
    }
}

/// The column of the board that shows `state`.
pub open spec fn column_of_state(state: SyncState) -> int {
    match state {
        SyncState::Behind => 0,
        SyncState::Uncommitted => 1,
        SyncState::InSync => 2,
        SyncState::Ahead => 3,
    }
}

/// Every state has one column, and every column one state.
pub proof fn columns_and_states_match(state: SyncState, col: int)
    requires
        0 <= col < COLUMN_COUNT,
    ensures
        0 <= column_of_state(state) < COLUMN_COUNT,
        state_of_column(column_of_state(state)) == state,
        column_of_state(state_of_column(col)) == col,
{
}

impl SyncState {
    /// The states in the order of their columns.
    pub const ALL: [SyncState; 4] = [
        SyncState::Behind,
        SyncState::Uncommitted,
        SyncState::InSync,
        SyncState::Ahead,
    ];

    /// The heading of the state's column.
    pub open spec fn heading(self) -> Seq<char> {
        match self {
            SyncState::Behind => "Behind"@,
            SyncState::Uncommitted => "Uncommitted"@,
            SyncState::InSync => "In Sync"@,
            SyncState::Ahead => "Ahead"@,
        }
    }

    /// The name of the state in machine-readable output.
    pub open spec fn key(self) -> Seq<char> {
        match self {
            SyncState::Behind => "behind"@,
            SyncState::Uncommitted => "uncommitted"@,
            SyncState::InSync => "in_sync"@,
            SyncState::Ahead => "ahead"@,
        }
    }

    /// The heading of the state's column.
    pub fn label(self) -> (r: &'static str)
        ensures
            r@ == self.heading(),
    {
        match self {
            SyncState::Behind => "Behind",
            SyncState::Uncommitted => "Uncommitted",
            SyncState::InSync => "In Sync",
            SyncState::Ahead => "Ahead",
        }
    }

    /// The name of the state in machine-readable output.
    pub fn json_key(self) -> (r: &'static str)
        ensures
            r@ == self.key(),
    {
        match self {
            SyncState::Behind => "behind",
            SyncState::Uncommitted => "uncommitted",
            SyncState::InSync => "in_sync",
            SyncState::Ahead => "ahead",
        }
    }

    /// The state that column `col` of the board shows.
    pub fn at_column(col: usize) -> (r: SyncState)
        requires
            col < COLUMN_COUNT,
        ensures
            r == state_of_column(col as int),
    {
        let all = SyncState::ALL;
        all[col]
    }
}

// ---------------------------------------------------------------------------
// Fetch status, forges
// ---------------------------------------------------------------------------

/// How far the fetch of a repository has come.
#[derive(Debug, Clone, PartialEq, Eq)]
pub enum FetchStatus {
    Queued,
    Fetching,
    Done,
    Failed(String),
}

/// The model of a `FetchStatus`.
pub enum FetchStatusView {
    Queued,
    Fetching,
    Done,
    Failed(Seq<char>),
}

impl View for FetchStatus {
    type V = FetchStatusView;

    open spec fn view(&self) -> FetchStatusView {
        match *self {
            FetchStatus::Queued => FetchStatusView::Queued,
            FetchStatus::Fetching => FetchStatusView::Fetching,
            FetchStatus::Done => FetchStatusView::Done,
            FetchStatus::Failed(e) => FetchStatusView::Failed(e@),
        }
    }
}

/// The software that hosts a remote.
#[derive(Debug, Clone, Copy, PartialEq, Eq, Structural)]
pub enum ForgeKind {
    GitHub,
    GitLab,
    Gitea,
}

impl ForgeKind {
    /// The name of the forge.
    pub open spec fn title(self) -> Seq<char> {
        match self {
            ForgeKind::GitHub => "GitHub"@,
            ForgeKind::GitLab => "GitLab"@,
            ForgeKind::Gitea => "Gitea"@,
        }
    }

    /// The name of the forge.
    pub fn label(self) -> (r: &'static str)
        ensures
            r@ == self.title(),
    {
        match self {
            ForgeKind::GitHub => "GitHub",
            ForgeKind::GitLab => "GitLab",
            ForgeKind::Gitea => "Gitea",
        }
    }
}

/// The protocol that a forge's interface is reached by.
#[derive(Debug, Clone, Copy, PartialEq, Eq, Structural)]
pub enum Scheme {
    Http,
    Https,
}

impl Scheme {
    /// The scheme as it stands in a URL.
    pub open spec fn text(self) -> Seq<char> {
        match self {
            Scheme::Http => "http"@,
            Scheme::Https => "https"@,
        }
    }

    /// The scheme as it stands in a URL.
    pub fn as_str(self) -> (r: &'static str)
        ensures
            r@ == self.text(),
    {
        match self {
            Scheme::Http => "http",
            Scheme::Https => "https",
        }
    }
}

/// Where on which forge a repository's remote lies.
#[derive(Debug, PartialEq, Eq)]
pub struct RemoteInfo {
    pub kind: ForgeKind,
    pub host: String,
    pub scheme: Scheme,
    pub owner: String,
    pub repo_name: String,
}

/// The model of a `RemoteInfo`.
pub struct RemoteInfoView {
    pub kind: ForgeKind,
    pub host: Seq<char>,
    pub scheme: Scheme,
    pub owner: Seq<char>,
    pub repo_name: Seq<char>,
}

impl View for RemoteInfo {
    type V = RemoteInfoView;

    open spec fn view(&self) -> RemoteInfoView {
        RemoteInfoView {
            kind: self.kind,
            host: self.host@,
            scheme: self.scheme,
            owner: self.owner@,
            repo_name: self.repo_name@,
        }
    }
}

impl Clone for RemoteInfo {
    fn clone(&self) -> (r: Self)
        ensures
            r == *self,
    {
        RemoteInfo {
            kind: self.kind,
            host: self.host.clone(),
            scheme: self.scheme,
            owner: self.owner.clone(),
            repo_name: self.repo_name.clone(),
        }
    }
}

/// What a forge says about a repository.
#[derive(Debug, Clone, Copy, PartialEq, Eq, Structural)]
pub struct ForgeStats {
    pub open_prs: u32,
    pub open_issues: u32,
    pub is_fork: bool,
}

impl Default for ForgeStats {
    fn default() -> (r: Self)
        ensures
            r == (ForgeStats { open_prs: 0, open_issues: 0, is_fork: false }),
    {
        ForgeStats { open_prs: 0, open_issues: 0, is_fork: false }
    }
}

/// How far the query of a repository's forge has come.
#[derive(Debug, Clone, PartialEq, Eq)]
pub enum ForgeStatus {
    NotApplicable,
    Queued,
    Fetching,
    Done,
    Failed(String),
}

/// The model of a `ForgeStatus`.
pub enum ForgeStatusView {
    NotApplicable,
    Queued,
    Fetching,
    Done,
    Failed(Seq<char>),
}

impl View for ForgeStatus {
    type V = ForgeStatusView;

    open spec fn view(&self) -> ForgeStatusView {
        match *self {
            ForgeStatus::NotApplicable => ForgeStatusView::NotApplicable,
            ForgeStatus::Queued => ForgeStatusView::Queued,
            ForgeStatus::Fetching => ForgeStatusView::Fetching,
            ForgeStatus::Done => ForgeStatusView::Done,
            ForgeStatus::Failed(e) => ForgeStatusView::Failed(e@),
        }
    }
}

// ---------------------------------------------------------------------------
// Sort mode
// ---------------------------------------------------------------------------

/// What the cards of a column are ordered by.
#[derive(Debug, Clone, Copy, PartialEq, Eq, Structural)]
pub enum SortMode {
    Name,
    PullRequests,
    Issues,
}

impl SortMode {
    /// The name of the sort mode.
    pub open spec fn title(self) -> Seq<char> {
        match self {
            SortMode::Name => "Name"@,
            SortMode::PullRequests => "PRs"@,
            SortMode::Issues => "Issues"@,
        }
    }

    /// The sort mode that follows in the cycle.
    pub open spec fn following(self) -> SortMode {
        match self {
            SortMode::Name => SortMode::PullRequests,
            SortMode::PullRequests => SortMode::Issues,
            SortMode::Issues => SortMode::Name,
        }
    }

    /// The name of the sort mode.
    pub fn label(self) -> (r: &'static str)
        ensures
            r@ == self.title(),
    {
        match self {
            SortMode::Name => "Name",
            SortMode::PullRequests => "PRs",
            SortMode::Issues => "Issues",
        }
    }

    /// The sort mode that follows in the cycle.
    pub fn next(self) -> (r: SortMode)
        ensures
            r == self.following(),
    {
        match self {
            SortMode::Name => SortMode::PullRequests,
            SortMode::PullRequests => SortMode::Issues,
            SortMode::Issues => SortMode::Name,
        }
    }
}

/// Cycling through the sort modes comes back to where it began after three steps, and
/// not before.
pub proof fn sort_modes_cycle(m: SortMode)
    ensures
        m.following() != m,
        m.following().following() != m,
        m.following().following().following() == m,
{
}

// ---------------------------------------------------------------------------
// Repositories
// ---------------------------------------------------------------------------

/// A linked working tree of a repository.
#[derive(Debug)]
pub struct WorktreeInfo {
    pub path: String,
    pub name: String,
    pub branch: String,
    pub dirty_files: u32,
}

/// The model of a `WorktreeInfo`.
pub struct WorktreeView {
    pub path: Seq<char>,
    pub name: Seq<char>,
    pub branch: Seq<char>,
    pub dirty_files: u32,
}

impl View for WorktreeInfo {
    type V = WorktreeView;

    open spec fn view(&self) -> WorktreeView {
        WorktreeView {
            path: self.path@,
            name: self.name@,
            branch: self.branch@,
            dirty_files: self.dirty_files,
        }
    }
}

impl Clone for WorktreeInfo {
    fn clone(&self) -> (r: Self)
        ensures
            r == *self,
    {
        WorktreeInfo {
            path: self.path.clone(),
            name: self.name.clone(),
            branch: self.branch.clone(),
            dirty_files: self.dirty_files,
        }
    }
}

/// The models of a sequence of worktrees.
pub open spec fn worktree_views(s: Seq<WorktreeInfo>) -> Seq<WorktreeView> {
    s.map_values(|w: WorktreeInfo| w@)
}

/// A repository and what is known of it.
#[derive(Debug)]
pub struct Repo {
    pub path: String,
    pub name: String,
    pub default_branch: Option<String>,
    pub current_branch: String,
    pub ahead: u32,
    pub behind: u32,
    pub dirty_files: u32,
    pub has_remote: bool,
    pub fetch_status: FetchStatus,
    pub remote_url: Option<String>,
    pub remote_info: Option<RemoteInfo>,
    pub forge_stats: Option<ForgeStats>,
    pub forge_status: ForgeStatus,
    pub worktrees: Vec<WorktreeInfo>,
    pub is_worktree: bool,
    pub worktree_main: Option<String>,
}

/// The model of a `Repo`.
pub struct RepoView {
    pub path: Seq<char>,
    pub name: Seq<char>,
    pub default_branch: Option<Seq<char>>,
    pub current_branch: Seq<char>,
    pub ahead: u32,
    pub behind: u32,
    pub dirty_files: u32,
    pub has_remote: bool,
    pub fetch_status: FetchStatusView,
    pub remote_url: Option<Seq<char>>,
    pub remote_info: Option<RemoteInfoView>,
    pub forge_stats: Option<ForgeStats>,
    pub forge_status: ForgeStatusView,
    pub worktrees: Seq<WorktreeView>,
    pub is_worktree: bool,
    pub worktree_main: Option<Seq<char>>,
}

/// The model of an optional `RemoteInfo`.
pub open spec fn opt_remote(o: Option<RemoteInfo>) -> Option<RemoteInfoView> {
    match o {
        Some(info) => Some(info@),
        None => None,
    }
}

impl View for Repo {
    type V = RepoView;

    open spec fn view(&self) -> RepoView {
        RepoView {
            path: self.path@,
            name: self.name@,
            default_branch: opt_text(self.default_branch),
            current_branch: self.current_branch@,
            ahead: self.ahead,
            behind: self.behind,
            dirty_files: self.dirty_files,
            has_remote: self.has_remote,
            fetch_status: self.fetch_status@,
            remote_url: opt_text(self.remote_url),
            remote_info: opt_remote(self.remote_info),
            forge_stats: self.forge_stats,
            forge_status: self.forge_status@,
            worktrees: worktree_views(self.worktrees@),
            is_worktree: self.is_worktree,
            worktree_main: opt_text(self.worktree_main),
        }
    }
}

/// A repository without a remote, without worktrees and with nothing left to do.
pub open spec fn idle_repo(name: Seq<char>) -> RepoView {
    RepoView {
        path: "/tmp/"@ + name,
        name: name,
        default_branch: None,
        current_branch: "main"@,
        ahead: 0,
        behind: 0,
        dirty_files: 0,
        has_remote: false,
        fetch_status: FetchStatusView::Done,
        remote_url: None,
        remote_info: None,
        forge_stats: None,
        forge_status: ForgeStatusView::NotApplicable,
        worktrees: seq![],
        is_worktree: false,
        worktree_main: None,
    }
}

impl RepoView {
    /// The state that decides on the repository's column: the first that applies of
    /// behind, uncommitted, ahead and in sync.
    pub open spec fn state(self) -> SyncState {
        if self.behind > 0 {
            SyncState::Behind
        } else if self.dirty_files > 0 {
            SyncState::Uncommitted
        } else if self.ahead > 0 {
            SyncState::Ahead
        } else {
            SyncState::InSync
        }
    }

    /// `state` applies to the repository, be it the one that decides or not.
    pub open spec fn is_in(self, state: SyncState) -> bool {
        match state {
            SyncState::Behind => self.behind > 0,
            SyncState::Uncommitted => self.dirty_files > 0,
            SyncState::Ahead => self.ahead > 0,
            SyncState::InSync => self.behind == 0 && self.dirty_files == 0 && self.ahead == 0,
        }
    }

    /// Those of the given states that apply to the repository without deciding on its
    /// column.
    pub open spec fn tags_among(self, states: Seq<SyncState>) -> Seq<SyncState> {
        states.filter(|s: SyncState| self.is_in(s) && s != self.state())
    }

    /// The states shown as tags.
    pub open spec fn tags(self) -> Seq<SyncState> {
        self.tags_among(
            seq![
                SyncState::Behind,
                SyncState::Uncommitted,
                SyncState::Ahead,
                SyncState::InSync,
            ],
        )
    }
}

/// The tags of a repository are the changes to commit and the commits to push, each
/// where it applies and something more urgent decides on the column.
pub proof fn tags_are(r: RepoView)
    ensures
        r.tags() == (if r.state() != SyncState::Uncommitted && r.dirty_files > 0 {
            seq![SyncState::Uncommitted]
        } else {
            Seq::<SyncState>::empty()
        }) + (if r.state() != SyncState::Ahead && r.ahead > 0 {
            seq![SyncState::Ahead]
        } else {
            Seq::<SyncState>::empty()
        }),
{
    reveal_with_fuel(Seq::filter, 5);
    let p = |s: SyncState| r.is_in(s) && s != r.state();
    let s1 = seq![SyncState::Behind];
    let s2 = s1.push(SyncState::Uncommitted);
    let s3 = s2.push(SyncState::Ahead);
    let s4 = s3.push(SyncState::InSync);
    let all = seq![
        SyncState::Behind,
        SyncState::Uncommitted,
        SyncState::Ahead,
        SyncState::InSync,
    ];
    assert(all =~= s4);
    assert(s4.drop_last() =~= s3);
    assert(s3.drop_last() =~= s2);
    assert(s2.drop_last() =~= s1);
    assert(s1.drop_last() =~= Seq::<SyncState>::empty());
    assert(s1.filter(p) =~= Seq::<SyncState>::empty());
    assert(r.tags() =~= (if r.state() != SyncState::Uncommitted && r.dirty_files > 0 {
        seq![SyncState::Uncommitted]
    } else {
        Seq::<SyncState>::empty()
    }) + (if r.state() != SyncState::Ahead && r.ahead > 0 {
        seq![SyncState::Ahead]
    } else {
        Seq::<SyncState>::empty()
    }));
}

/// The state that decides on the column applies, no more urgent one does, and being
/// behind is never a tag.
pub proof fn deciding_state_is_most_urgent(r: RepoView)
    ensures
        r.is_in(r.state()),
        r.is_in(SyncState::Behind) ==> r.state() == SyncState::Behind,
        r.is_in(SyncState::Uncommitted) ==> r.state() == SyncState::Behind || r.state()
            == SyncState::Uncommitted,
        r.is_in(SyncState::Ahead) <==> r.state() == SyncState::Ahead || r.tags().contains(
            SyncState::Ahead,
        ),
        !r.tags().contains(SyncState::Behind),
        !r.tags().contains(r.state()),
{
    tags_are(r);
    if r.state() != SyncState::Ahead && r.ahead > 0 {
        assert(r.tags().last() == SyncState::Ahead);
    }
}

impl Repo {
    /// A repository at `/tmp/<name>` that has nothing to do.
    pub fn test_default(name: &str) -> (r: Repo)
        ensures
            r@ == idle_repo(name@),
    {
        let r = Repo {
            path: concat("/tmp/", name),
            name: name.to_owned(),
            default_branch: None,
            current_branch: "main".to_owned(),
            ahead: 0,
            behind: 0,
            dirty_files: 0,
            has_remote: false,
            fetch_status: FetchStatus::Done,
            remote_url: None,
            remote_info: None,
            forge_stats: None,
            forge_status: ForgeStatus::NotApplicable,
            worktrees: Vec::new(),
            is_worktree: false,
            worktree_main: None,
        };
        assert(r@.worktrees =~= seq![]);
        r
    }

    /// The number of rows that the repository's card takes: five, and one for each of
    /// its worktrees, as far as sixteen bits can count.
    pub fn card_height(&self) -> (r: u16)
        ensures
            r == card_rows(self.worktrees@.len()),
    {
        let n: usize = self.worktrees.len();
        let low: u16 = (n & 0xffff) as u16;
        assert(n & 0xffff == n % 0x10000) by (bit_vector);
        5u16.saturating_add(low)
    }

    /// Determines the primary sync state by priority: behind, uncommitted, ahead, in sync.
    pub fn sync_state(&self) -> (r: SyncState)
        ensures
            r == self@.state(),
    {
        if self.behind > 0 {
            SyncState::Behind
        } else if self.dirty_files > 0 {
            SyncState::Uncommitted
        } else if self.ahead > 0 {
            SyncState::Ahead
        } else {
            SyncState::InSync
        }
    }

    /// The states besides the primary one that are shown as tags on the card.
    pub fn secondary_states(&self) -> (r: Vec<SyncState>)
        ensures
            r@ == self@.tags(),
    {
        let primary = self.sync_state();
        let mut secondary: Vec<SyncState> = Vec::new();
        proof {
            tags_are(self@);
        }
        if primary != SyncState::Uncommitted && self.dirty_files > 0 {
            secondary.push(SyncState::Uncommitted);
        }
        if primary != SyncState::Ahead && self.ahead > 0 {
            secondary.push(SyncState::Ahead);
        }
        assert(secondary@ =~= self@.tags());
        secondary
    }
}

/// The number of rows that a card with `worktrees` worktrees takes.
pub open spec fn card_rows(worktrees: nat) -> int {
    let n = 5 + worktrees % 0x10000;
    if n <= 0xffff {
        n as int
    } else {
        0xffff
    }
}

/// A repository is in the column Behind where there is something to pull, whatever else
/// there is to do; in Uncommitted where there are changes and nothing to pull; in Ahead
/// where there are only commits to push; and in In Sync where there is nothing to do.
pub proof fn counts_decide_on_the_column(repo: Repo)
    ensures
        repo@.state() == SyncState::Behind <==> repo.behind > 0,
        repo@.state() == SyncState::Uncommitted <==> repo.behind == 0 && repo.dirty_files > 0,
        repo@.state() == SyncState::Ahead <==> repo.behind == 0 && repo.dirty_files == 0
            && repo.ahead > 0,
        repo@.state() == SyncState::InSync <==> repo.behind == 0 && repo.dirty_files == 0
            && repo.ahead == 0,
        column_of_state(SyncState::Behind) < column_of_state(SyncState::Uncommitted),
        column_of_state(SyncState::Uncommitted) < column_of_state(SyncState::InSync),
        column_of_state(SyncState::InSync) < column_of_state(SyncState::Ahead),
{
}

/// What does not decide on the column stands as a tag: changes where there is something to
/// pull, and commits to push where there is anything else to do.
pub proof fn tags_tell_the_rest(repo: Repo)
    ensures
        repo@.tags().contains(SyncState::Uncommitted) <==> repo.dirty_files > 0 && repo.behind > 0,
        repo@.tags().contains(SyncState::Ahead) <==> repo.ahead > 0 && (repo.behind > 0
            || repo.dirty_files > 0),
        !repo@.tags().contains(SyncState::Behind),
        !repo@.tags().contains(SyncState::InSync),
        repo@.tags().no_duplicates(),
        repo@.tags().len() == 2 ==> repo@.tags()[0] == SyncState::Uncommitted,
{
    tags_are(repo@);
    let t = repo@.tags();
    if repo.dirty_files > 0 && repo.behind > 0 {
        assert(t[0] == SyncState::Uncommitted);
    }
    if repo.ahead > 0 && (repo.behind > 0 || repo.dirty_files > 0) {
        assert(t.last() == SyncState::Ahead);
    }
}

/// The model of a repository holds what the repository holds.
pub proof fn view_keeps_everything(repo: Repo, k: int)
    ensures
        repo@.path == repo.path@,
        repo@.name == repo.name@,
        repo@.current_branch == repo.current_branch@,
        repo@.ahead == repo.ahead,
        repo@.behind == repo.behind,
        repo@.dirty_files == repo.dirty_files,
        repo@.has_remote == repo.has_remote,
        repo@.forge_stats == repo.forge_stats,
        repo@.is_worktree == repo.is_worktree,
        repo.fetch_status matches FetchStatus::Failed(e) ==> repo@.fetch_status
            == FetchStatusView::Failed(e@),
        repo.forge_status matches ForgeStatus::Failed(e) ==> repo@.forge_status
            == ForgeStatusView::Failed(e@),
        repo.default_branch matches Some(b) ==> repo@.default_branch == Some(b@),
        repo.default_branch is None <==> repo@.default_branch is None,
        repo.remote_url matches Some(url) ==> repo@.remote_url == Some(url@),
        repo.remote_url is None <==> repo@.remote_url is None,
        repo.worktree_main matches Some(main) ==> repo@.worktree_main == Some(main@),
        repo.worktree_main is None <==> repo@.worktree_main is None,
        repo.remote_info matches Some(info) ==> (repo@.remote_info matches Some(seen)
            && seen.kind == info.kind && seen.host == info.host@ && seen.scheme == info.scheme
            && seen.owner == info.owner@ && seen.repo_name == info.repo_name@),
        repo.remote_info is None <==> repo@.remote_info is None,
        repo@.worktrees.len() == repo.worktrees@.len(),
        0 <= k < repo.worktrees@.len() ==> {
            &&& repo@.worktrees[k].path == repo.worktrees@[k].path@
            &&& repo@.worktrees[k].name == repo.worktrees@[k].name@
            &&& repo@.worktrees[k].branch == repo.worktrees@[k].branch@
            &&& repo@.worktrees[k].dirty_files == repo.worktrees@[k].dirty_files
        },
{
}

/// States have different headings and different names, and so have forges and sort modes.
pub proof fn labels_tell_apart(
    a: SyncState,
    b: SyncState,
    f: ForgeKind,
    g: ForgeKind,
    m: SortMode,
    n: SortMode,
)
    ensures
        a.heading() == b.heading() ==> a == b,
        a.key() == b.key() ==> a == b,
        f.title() == g.title() ==> f == g,
        m.title() == n.title() ==> m == n,
        Scheme::Http.text() + seq!['s'] == Scheme::Https.text(),
{
    reveal_strlit("Behind");
    reveal_strlit("Uncommitted");
    reveal_strlit("In Sync");
    reveal_strlit("Ahead");
    reveal_strlit("behind");
    reveal_strlit("uncommitted");
    reveal_strlit("in_sync");
    reveal_strlit("ahead");
    reveal_strlit("GitHub");
    reveal_strlit("GitLab");
    reveal_strlit("Gitea");
    reveal_strlit("Name");
    reveal_strlit("PRs");
    reveal_strlit("Issues");
    reveal_strlit("http");
    reveal_strlit("https");
    assert(a.heading()[0] == match a {
        SyncState::Behind => 'B',
        SyncState::Uncommitted => 'U',
        SyncState::InSync => 'I',
        SyncState::Ahead => 'A',
    });
    assert(b.heading()[0] == match b {
        SyncState::Behind => 'B',
        SyncState::Uncommitted => 'U',
        SyncState::InSync => 'I',
        SyncState::Ahead => 'A',
    });
    assert(a.key()[0] == match a {
        SyncState::Behind => 'b',
        SyncState::Uncommitted => 'u',
        SyncState::InSync => 'i',
        SyncState::Ahead => 'a',
    });
    assert(b.key()[0] == match b {
        SyncState::Behind => 'b',
        SyncState::Uncommitted => 'u',
        SyncState::InSync => 'i',
        SyncState::Ahead => 'a',
    });
    assert("Name"@[0] == 'N' && "PRs"@[0] == 'P' && "Issues"@[0] == 'I');
    assert("GitHub"@[3] == 'H' && "GitLab"@[3] == 'L' && "Gitea"@[3] == 'e');
    assert(Scheme::Http.text() + seq!['s'] =~= Scheme::Https.text());
}

/// From names the cards are sorted by pull requests next, then by issues, then by names
/// again.
pub proof fn sort_modes_follow(m: SortMode)
    ensures
        m.following() is PullRequests <==> m is Name,
        m.following() is Issues <==> m is PullRequests,
        m.following() is Name <==> m is Issues,
{
}

/// A card takes five rows, and one more for each worktree.
pub proof fn worktrees_take_a_row_each(n: nat)
    requires
        n < 0xffff - 5,
    ensures
        card_rows(0) == 5,
        card_rows(n + 1) == card_rows(n) + 1,
{
}

} // verus!
