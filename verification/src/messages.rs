//! What background work reports to the board, and the work that is handed out.

use vstd::prelude::*;

use crate::app::{clamped, column, AppState};
use crate::filters::filter_one_more;
use crate::git::{refresh_repo_status, refreshed, WorktreeAnswers};
use crate::model::{
    state_of_column, FetchStatus, FetchStatusView, ForgeStats, ForgeStatus, ForgeStatusView,
    RemoteInfo, RemoteInfoView, Repo, RepoView, COLUMN_COUNT,
};
use crate::path::{same_path, same_place};
use crate::text::{concat3, opt_text, texts};

verus! {

/// A report of background work on the repository at a path.
#[derive(Debug)]
pub enum ActionMessage {
    FetchStarting(String),
    FetchCompleted(String, Result<(), String>),
    /// Path and name of the repository, and what the pull printed.
    PullCompleted(String, String, Result<String, String>),
    /// Path and name of the repository, and what the push printed.
    PushCompleted(String, String, Result<String, String>),
    ForgeStarting(String),
    ForgeCompleted(String, Result<ForgeStats, String>),
}

/// What git says about a repository and about its worktrees, in their order.
#[derive(Debug)]
pub struct Refresh {
    pub status: Option<Repo>,
    pub worktrees: Vec<WorktreeAnswers>,
}

impl Refresh {
    /// The model of the repository's new status.
    pub open spec fn status_view(self) -> Option<RepoView> {
        match self.status {
            Some(r) => Some(r@),
            None => None,
        }
    }

    /// Nothing that git said.
    pub fn nothing() -> (r: Refresh)
        ensures
            r.status is None,
            r.worktrees@.len() == 0,
    {
        Refresh { status: None, worktrees: Vec::new() }
    }
}

impl ActionMessage {
    /// The path of the repository that the message is about.
    pub open spec fn subject(self) -> Seq<char> {
        match self {
            ActionMessage::FetchStarting(path) => path@,
            ActionMessage::FetchCompleted(path, _) => path@,
            ActionMessage::PullCompleted(path, _, _) => path@,
            ActionMessage::PushCompleted(path, _, _) => path@,
            ActionMessage::ForgeStarting(path) => path@,
            ActionMessage::ForgeCompleted(path, _) => path@,
        }
    }

    /// Whether the message says that git may have new things to say.
    pub open spec fn calls_for_refresh(self) -> bool {
        match self {
            ActionMessage::FetchCompleted(_, result) => result is Ok,
            ActionMessage::PullCompleted(_, _, result) => result is Ok,
            ActionMessage::PushCompleted(_, _, result) => result is Ok,
            _ => false,
        }
    }

    /// Whether the message only says that work has begun.
    pub open spec fn is_start(self) -> bool {
        self is FetchStarting || self is ForgeStarting
    }

    fn path(&self) -> (r: &str)
        ensures
            r@ == self.subject(),
    {
        match self {
            ActionMessage::FetchStarting(path) => path.as_str(),
            ActionMessage::FetchCompleted(path, _) => path.as_str(),
            ActionMessage::PullCompleted(path, _, _) => path.as_str(),
            ActionMessage::PushCompleted(path, _, _) => path.as_str(),
            ActionMessage::ForgeStarting(path) => path.as_str(),
            ActionMessage::ForgeCompleted(path, _) => path.as_str(),
        }
    }

    fn wants_refresh(&self) -> (r: bool)
        ensures
            r == self.calls_for_refresh(),
    {
        match self {
            ActionMessage::FetchCompleted(_, result) => result.is_ok(),
            ActionMessage::PullCompleted(_, _, result) => result.is_ok(),
            ActionMessage::PushCompleted(_, _, result) => result.is_ok(),
            _ => false,
        }
    }
}

/// The place of the first repository at a path, or the number of repositories.
pub open spec fn index_of_path(repos: Seq<Repo>, path: Seq<char>) -> int
    decreases repos.len(),
{
    if repos.len() == 0 {
        0
    } else if same_place(repos[0].path@, path) {
        0
    } else {
        1 + index_of_path(repos.drop_first(), path)
    }
}

/// The place found is that of the first repository at the path.
pub proof fn index_of_path_is_first(repos: Seq<Repo>, path: Seq<char>)
    ensures
        0 <= index_of_path(repos, path) <= repos.len(),
        index_of_path(repos, path) < repos.len() ==> same_place(
            repos[index_of_path(repos, path)].path@,
            path,
        ),
        forall|k: int|
            0 <= k < index_of_path(repos, path) ==> !same_place(
                (#[trigger] repos[k]).path@,
                path,
            ),
    decreases repos.len(),
{
    if repos.len() > 0 && !same_place(repos[0].path@, path) {
        let rest = repos.drop_first();
        index_of_path_is_first(rest, path);
        assert forall|k: int| 0 <= k < index_of_path(repos, path) implies !same_place(
            (#[trigger] repos[k]).path@,
            path,
        ) by {
            if k > 0 {
                assert(rest[k - 1] == repos[k]);
            }
        }
    }
}

proof fn index_of_path_is(repos: Seq<Repo>, path: Seq<char>, at: int)
    requires
        0 <= at <= repos.len(),
        at < repos.len() ==> same_place(repos[at].path@, path),
        forall|k: int| 0 <= k < at ==> !same_place((#[trigger] repos[k]).path@, path),
    ensures
        index_of_path(repos, path) == at,
    decreases repos.len(),
{
    if at > 0 {
        assert(!same_place(repos[0].path@, path));
        let rest = repos.drop_first();
        assert forall|k: int| 0 <= k < at - 1 implies !same_place(
            (#[trigger] rest[k]).path@,
            path,
        ) by {
            assert(rest[k] == repos[k + 1]);
        }
        index_of_path_is(rest, path, at - 1);
    }
}

/// What a message makes of the repository that it is about.
pub open spec fn repo_after(repo: RepoView, msg: ActionMessage, refresh: Refresh) -> RepoView {
    let fresh = if msg.calls_for_refresh() {
        refreshed(repo, refresh.status_view(), refresh.worktrees@)
    } else {
        repo
    };
    match msg {
        ActionMessage::FetchStarting(_) => RepoView {
            fetch_status: FetchStatusView::Fetching,
            ..repo
        },
        ActionMessage::FetchCompleted(_, Ok(_)) => RepoView {
            fetch_status: FetchStatusView::Done,
            ..fresh
        },
        ActionMessage::FetchCompleted(_, Err(e)) => RepoView {
            fetch_status: FetchStatusView::Failed(e@),
            ..repo
        },
        ActionMessage::ForgeStarting(_) => RepoView {
            forge_status: ForgeStatusView::Fetching,
            ..repo
        },
        ActionMessage::ForgeCompleted(_, Ok(stats)) => RepoView {
            forge_stats: Some(stats),
            forge_status: ForgeStatusView::Done,
            ..repo
        },
        ActionMessage::ForgeCompleted(_, Err(e)) => RepoView {
            forge_status: ForgeStatusView::Failed(e@),
            ..repo
        },
        _ => fresh,
    }
}

/// What is said of an action on a repository that has ended.
pub open spec fn outcome_text(
    name: Seq<char>,
    result: Result<String, String>,
    success_verb: Seq<char>,
    fail_verb: Seq<char>,
) -> Seq<char> {
    match result {
        Ok(msg) => success_verb + " "@ + name + ": "@ + msg@,
        Err(e) => fail_verb + " failed for "@ + name + ": "@ + e@,
    }
}

/// What the status line says after a message.
pub open spec fn status_after(status: Option<Seq<char>>, msg: ActionMessage) -> Option<Seq<char>> {
    match msg {
        ActionMessage::PullCompleted(_, name, result) => Some(
            outcome_text(name@, result, "Pulled"@, "Pull"@),
        ),
        ActionMessage::PushCompleted(_, name, result) => Some(
            outcome_text(name@, result, "Pushed"@, "Push"@),
        ),
        _ => status,
    }
}

/// The repositories differ at most in the one at place `at`, which is `changed`.
pub open spec fn only_repo_changed(
    before: Seq<Repo>,
    after: Seq<Repo>,
    at: int,
    changed: RepoView,
) -> bool {
    &&& after.len() == before.len()
    &&& at < before.len() ==> after[at]@ == changed
    &&& forall|k: int| 0 <= k < before.len() && k != at ==> #[trigger] after[k] == before[k]
}

/// Everything but the repositories, the indices and the status line is the same.
pub open spec fn rest_unchanged(before: AppState, after: AppState) -> bool {
    after == (AppState {
        repos: after.repos,
        selected_index: after.selected_index,
        status_message: after.status_message,
        ..before
    })
}

/// The indices are those of `before`, within the columns of `after`.
pub open spec fn indices_follow(before: AppState, after: AppState) -> bool {
    forall|col: int|
        0 <= col < COLUMN_COUNT ==> #[trigger] after.selected_index@[col] == clamped(
            before.selected_index@[col],
            column(after.repos@, col).len(),
        )
}

/// What a message does to the board.
pub open spec fn message_applied(
    before: AppState,
    after: AppState,
    msg: ActionMessage,
    refresh: Refresh,
) -> bool {
    let at = index_of_path(before.repos@, msg.subject());
    &&& rest_unchanged(before, after)
    &&& only_repo_changed(
        before.repos@,
        after.repos@,
        at,
        repo_after(before.repos@[at]@, msg, refresh),
    )
    &&& opt_text(after.status_message) == status_after(opt_text(before.status_message), msg)
    &&& if msg.is_start() {
        after.selected_index == before.selected_index
    } else {
        indices_follow(before, after)
    }
}

/// Every message that reports an end leaves each index within its column.
pub proof fn ended_work_leaves_indices_valid(
    before: AppState,
    after: AppState,
    msg: ActionMessage,
    refresh: Refresh,
    col: int,
)
    requires
        message_applied(before, after, msg, refresh),
        !msg.is_start(),
        0 <= col < COLUMN_COUNT,
        column(after.repos@, col).len() > 0,
    ensures
        after.selected_index@[col] < column(after.repos@, col).len(),
{
    assert(after.selected_index@[col] == clamped(
        before.selected_index@[col],
        column(after.repos@, col).len(),
    ));
    after.repos@.lemma_filter_len(|r: Repo| r@.state() == state_of_column(col));
    assert(after.repos.len() == after.repos@.len());
}

/// No message adds or removes a repository, or moves one to another place.
pub proof fn messages_keep_repos_in_place(
    before: AppState,
    after: AppState,
    msg: ActionMessage,
    refresh: Refresh,
    k: int,
)
    requires
        message_applied(before, after, msg, refresh),
        0 <= k < before.repos@.len(),
    ensures
        after.repos@.len() == before.repos@.len(),
        after.repos@[k]@.path == before.repos@[k]@.path,
        after.repos@[k]@.name == before.repos@[k]@.name,
{
    index_of_path_is_first(before.repos@, msg.subject());
    if k != index_of_path(before.repos@, msg.subject()) {
        assert(after.repos@[k] == before.repos@[k]);
    }
}

/// A message about a path at which there is no repository changes no repository.
pub proof fn unknown_paths_change_no_repo(
    before: AppState,
    after: AppState,
    msg: ActionMessage,
    refresh: Refresh,
)
    requires
        message_applied(before, after, msg, refresh),
        forall|k: int|
            0 <= k < before.repos@.len() ==> !same_place(
                (#[trigger] before.repos@[k]).path@,
                msg.subject(),
            ),
    ensures
        after.repos@ == before.repos@,
{
    index_of_path_is_first(before.repos@, msg.subject());
    assert(after.repos@ =~= before.repos@);
}

fn say_outcome(
    name: &str,
    result: &Result<String, String>,
    success_verb: &str,
    fail_verb: &str,
) -> (r: String)
    ensures
        r@ == outcome_text(name@, *result, success_verb@, fail_verb@),
{
    match result {
        Ok(msg) => {
            let head = concat3(success_verb, " ", name);
            concat3(head.as_str(), ": ", msg.as_str())
        },
        Err(e) => {
            let head = concat3(fail_verb, " failed for ", name);
            concat3(head.as_str(), ": ", e.as_str())
        },
    }
}

impl AppState {
    /// The place of the first repository at a path.
    pub fn repo_by_path(&self, path: &str) -> (r: Option<usize>)
        ensures
            match r {
                Some(k) => k == index_of_path(self.repos@, path@) && k < self.repos@.len(),
                None => index_of_path(self.repos@, path@) == self.repos@.len(),
            },
    {
        let mut k: usize = 0;
        while k < self.repos.len()
            invariant
                k <= self.repos.len(),
                forall|i: int|
                    0 <= i < k ==> !same_place((#[trigger] self.repos@[i]).path@, path@),
            decreases self.repos.len() - k,
        {
            if same_path(self.repos[k].path.as_str(), path) {
                proof {
                    index_of_path_is(self.repos@, path@, k as int);
                }
                return Some(k);
            }
            k = k + 1;
        }
        proof {
            index_of_path_is(self.repos@, path@, k as int);
        }
        None
    }

    /// The repository that git has to be asked about before a message is taken in.
    pub fn refresh_target(&self, msg: &ActionMessage) -> (r: Option<&Repo>)
        ensures
            ({
                let at = index_of_path(self.repos@, msg.subject());
                match r {
                    Some(repo) => msg.calls_for_refresh() && at < self.repos@.len() && *repo
                        == self.repos@[at],
                    None => !msg.calls_for_refresh() || at == self.repos@.len(),
                }
            }),
    {
        if !msg.wants_refresh() {
            return None;
        }
        match self.repo_by_path(msg.path()) {
            Some(k) => Some(&self.repos[k]),
            None => None,
        }
    }

    /// Takes in the end of a pull or a push.
    pub fn handle_action_result(
        &mut self,
        path: &str,
        name: &str,
        result: Result<String, String>,
        success_verb: &str,
        fail_verb: &str,
        refresh: Refresh,
    )
        ensures
            rest_unchanged(*old(self), *final(self)),
            ({
                let at = index_of_path(old(self).repos@, path@);
                only_repo_changed(
                    old(self).repos@,
                    final(self).repos@,
                    at,
                    if result is Ok {
                        refreshed(
                            old(self).repos@[at]@,
                            refresh.status_view(),
                            refresh.worktrees@,
                        )
                    } else {
                        old(self).repos@[at]@
                    },
                )
            }),
            opt_text(final(self).status_message) == Some(
                outcome_text(name@, result, success_verb@, fail_verb@),
            ),
            indices_follow(*old(self), *final(self)),
    {
        self.status_message = Some(say_outcome(name, &result, success_verb, fail_verb));
        if result.is_ok() {
            match self.repo_by_path(path) {
                Some(at) => {
                    refresh_repo_status(&mut self.repos[at], refresh.status, &refresh.worktrees);
                },
                None => {},
            }
        }
        self.clamp_all_indices();
    }

    /// Takes in a message, with what git says of the repository of `refresh_target`.
    pub fn process_message(&mut self, msg: ActionMessage, refresh: Refresh)
        ensures
            message_applied(*old(self), *final(self), msg, refresh),
            old(self).well_formed() ==> final(self).well_formed(),
    {
        match msg {
            ActionMessage::FetchStarting(path) => {
                match self.repo_by_path(path.as_str()) {
                    Some(at) => {
                        self.repos[at].fetch_status = FetchStatus::Fetching;
                    },
                    None => {},
                }
            },
            ActionMessage::FetchCompleted(path, result) => {
                match self.repo_by_path(path.as_str()) {
                    Some(at) => match result {
                        Ok(_) => {
                            refresh_repo_status(
                                &mut self.repos[at],
                                refresh.status,
                                &refresh.worktrees,
                            );
                            self.repos[at].fetch_status = FetchStatus::Done;
                        },
                        Err(e) => {
                            self.repos[at].fetch_status = FetchStatus::Failed(e);
                        },
                    },
                    None => {},
                }
                self.clamp_all_indices();
            },
            ActionMessage::PullCompleted(path, name, result) => {
                self.handle_action_result(
                    path.as_str(),
                    name.as_str(),
                    result,
                    "Pulled",
                    "Pull",
                    refresh,
                );
            },
            ActionMessage::PushCompleted(path, name, result) => {
                self.handle_action_result(
                    path.as_str(),
                    name.as_str(),
                    result,
                    "Pushed",
                    "Push",
                    refresh,
                );
            },
            ActionMessage::ForgeStarting(path) => {
                match self.repo_by_path(path.as_str()) {
                    Some(at) => {
                        self.repos[at].forge_status = ForgeStatus::Fetching;
                    },
                    None => {},
                }
            },
            ActionMessage::ForgeCompleted(path, result) => {
                match self.repo_by_path(path.as_str()) {
                    Some(at) => match result {
                        Ok(stats) => {
                            self.repos[at].forge_stats = Some(stats);
                            self.repos[at].forge_status = ForgeStatus::Done;
                        },
                        Err(e) => {
                            self.repos[at].forge_status = ForgeStatus::Failed(e);
                        },
                    },
                    None => {},
                }
                self.clamp_all_indices();
            },
        }
    }
}

// ---------------------------------------------------------------------------
// Work to hand out
// ---------------------------------------------------------------------------

/// The paths of the repositories that have a remote.
pub open spec fn paths_to_fetch(repos: Seq<Repo>) -> Seq<Seq<char>> {
    repos.filter(|r: Repo| r.has_remote).map_values(|r: Repo| r.path@)
}

/// Path and remote of the repositories whose remote lies on a forge.
pub open spec fn remotes_to_query(repos: Seq<Repo>) -> Seq<(Seq<char>, RemoteInfoView)> {
    repos.filter(|r: Repo| r.remote_info is Some).map_values(
        |r: Repo| (r.path@, r.remote_info->0@),
    )
}

/// The models of paths with remotes.
pub open spec fn remote_items(s: Seq<(String, RemoteInfo)>) -> Seq<(Seq<char>, RemoteInfoView)> {
    s.map_values(|x: (String, RemoteInfo)| (x.0@, x.1@))
}

/// The number of workers for some pieces of work, of which at most `limit` are worked on
/// at the same time.
pub fn worker_count(limit: usize, work: usize) -> (r: usize)
    ensures
        r == if limit <= work {
            limit
        } else {
            work
        },
{
    if limit <= work {
        limit
    } else {
        work
    }
}

impl AppState {
    /// The paths of the repositories that have a remote, to be fetched.
    pub fn fetch_queue(&self) -> (r: Vec<String>)
        ensures
            texts(r@) == paths_to_fetch(self.repos@),
    {
        let ghost p = |r: Repo| r.has_remote;
        let ghost f = |r: Repo| r.path@;
        let mut out: Vec<String> = Vec::new();
        let mut k: usize = 0;
        proof {
            reveal(Seq::filter);
            assert(texts(out@) =~= self.repos@.take(0).filter(p).map_values(f));
        }
        while k < self.repos.len()
            invariant
                k <= self.repos.len(),
                p == (|r: Repo| r.has_remote),
                f == (|r: Repo| r.path@),
                texts(out@) == self.repos@.take(k as int).filter(p).map_values(f),
            decreases self.repos.len() - k,
        {
            let repo = &self.repos[k];
            proof {
                filter_one_more(self.repos@, k as int, p);
            }
            if repo.has_remote {
                let ghost before = out@;
                out.push(repo.path.clone());
                assert(texts(out@) =~= texts(before).push(repo.path@));
                assert(self.repos@.take(k as int).filter(p).push(*repo).map_values(f)
                    =~= self.repos@.take(k as int).filter(p).map_values(f).push(f(*repo)));
            }
            k = k + 1;
        }
        assert(self.repos@.take(self.repos@.len() as int) =~= self.repos@);
        out
    }

    /// The repositories whose remote lies on a forge, to be queried.
    pub fn forge_queue(&self) -> (r: Vec<(String, RemoteInfo)>)
        ensures
            remote_items(r@) == remotes_to_query(self.repos@),
    {
        let ghost p = |r: Repo| r.remote_info is Some;
        let ghost f = |r: Repo| (r.path@, r.remote_info->0@);
        let mut out: Vec<(String, RemoteInfo)> = Vec::new();
        let mut k: usize = 0;
        proof {
            reveal(Seq::filter);
            assert(remote_items(out@) =~= self.repos@.take(0).filter(p).map_values(f));
        }
        while k < self.repos.len()
            invariant
                k <= self.repos.len(),
                p == (|r: Repo| r.remote_info is Some),
                f == (|r: Repo| (r.path@, r.remote_info->0@)),
                remote_items(out@) == self.repos@.take(k as int).filter(p).map_values(f),
            decreases self.repos.len() - k,
        {
            let repo = &self.repos[k];
            proof {
                filter_one_more(self.repos@, k as int, p);
            }
            match &repo.remote_info {
                Some(info) => {
                    let ghost before = out@;
                    out.push((repo.path.clone(), info.clone()));
                    assert(remote_items(out@) =~= remote_items(before).push((repo.path@, info@)));
                    assert(self.repos@.take(k as int).filter(p).push(*repo).map_values(f)
                        =~= self.repos@.take(k as int).filter(p).map_values(f).push(f(*repo)));
                },
                None => {},
            }
            k = k + 1;
        }
        assert(self.repos@.take(self.repos@.len() as int) =~= self.repos@);
        out
    }

    /// Takes over the outcome of a new scan.
    pub fn refresh(&mut self, scan: Result<Vec<Repo>, String>)
        ensures
            *final(self) == (AppState {
                repos: final(self).repos,
                status_message: final(self).status_message,
                selected_index: final(self).selected_index,
                ..*old(self)
            }),
            final(self).repos@ == match scan {
                Ok(repos) => repos@,
                Err(_) => Seq::<Repo>::empty(),
            },
            opt_text(final(self).status_message) == match scan {
                Ok(_) => Some("Refreshing..."@),
                Err(e) => Some(e@),
            },
            forall|col: int|
                0 <= col < COLUMN_COUNT ==> #[trigger] final(self).selected_index@[col] == 0,
    {
        match scan {
            Ok(repos) => {
                self.repos = repos;
                self.status_message = Some("Refreshing...".to_owned());
            },
            Err(e) => {
                self.repos = Vec::new();
                self.status_message = Some(e);
            },
        }
        self.selected_index = [0, 0, 0, 0];
    }
}

// ---------------------------------------------------------------------------
// Laws on what messages change
// ---------------------------------------------------------------------------

/// A message about a repository leaves everything that it does not tell. Only an end that
/// went well brings the counts and branches up to date; only a forge query that went well
/// brings new figures, so that a failed one keeps the figures that are known.
pub proof fn messages_change_what_they_tell(repo: RepoView, msg: ActionMessage, refresh: Refresh)
    ensures
        ({
            let after = repo_after(repo, msg, refresh);
            let of_fetch = msg is FetchStarting || msg is FetchCompleted;
            let of_forge = msg is ForgeStarting || msg is ForgeCompleted;
            let went_well = match msg {
                ActionMessage::FetchCompleted(_, result) => result is Ok,
                ActionMessage::PullCompleted(_, _, result) => result is Ok,
                ActionMessage::PushCompleted(_, _, result) => result is Ok,
                _ => false,
            };
            &&& after.path == repo.path && after.name == repo.name
            &&& after.remote_url == repo.remote_url && after.remote_info == repo.remote_info
            &&& !of_fetch ==> after.fetch_status == repo.fetch_status
            &&& !of_forge ==> after.forge_status == repo.forge_status && after.forge_stats
                == repo.forge_stats
            &&& !went_well ==> {
                &&& after.ahead == repo.ahead && after.behind == repo.behind
                &&& after.dirty_files == repo.dirty_files
                &&& after.current_branch == repo.current_branch
                &&& after.worktrees == repo.worktrees
            }
            &&& went_well ==> (refresh.status matches Some(new) ==> {
                &&& after.ahead == new.ahead && after.behind == new.behind
                &&& after.dirty_files == new.dirty_files
                &&& after.current_branch == new.current_branch@
                &&& after.state() == new@.state()
            })
            &&& went_well && refresh.status is None ==> after.state() == repo.state()
            &&& msg is FetchStarting ==> after.fetch_status is Fetching
            &&& msg matches ActionMessage::FetchCompleted(_, Ok(_)) ==> after.fetch_status is Done
            &&& msg matches ActionMessage::FetchCompleted(_, Err(e)) ==> after.fetch_status
                == FetchStatusView::Failed(e@)
            &&& msg is ForgeStarting ==> after.forge_status is Fetching && after.forge_stats
                == repo.forge_stats
            &&& msg matches ActionMessage::ForgeCompleted(_, Ok(stats)) ==> after.forge_status
                is Done && after.forge_stats == Some(stats)
            &&& msg matches ActionMessage::ForgeCompleted(_, Err(e)) ==> after.forge_status
                == ForgeStatusView::Failed(e@) && after.forge_stats == repo.forge_stats
        }),
{
}

/// The status line tells how a pull or a push has ended, with the name of the repository
/// and what git said; other messages leave it.
pub proof fn status_line_tells_the_outcome(
    status: Option<Seq<char>>,
    path: String,
    name: String,
    output: String,
    error: String,
    msg: ActionMessage,
)
    ensures
        status_after(status, ActionMessage::PullCompleted(path, name, Ok(output))) == Some(
            "Pulled "@ + name@ + ": "@ + output@,
        ),
        status_after(status, ActionMessage::PushCompleted(path, name, Ok(output))) == Some(
            "Pushed "@ + name@ + ": "@ + output@,
        ),
        status_after(status, ActionMessage::PullCompleted(path, name, Err(error))) == Some(
            "Pull failed for "@ + name@ + ": "@ + error@,
        ),
        status_after(status, ActionMessage::PushCompleted(path, name, Err(error))) == Some(
            "Push failed for "@ + name@ + ": "@ + error@,
        ),
        !(msg is PullCompleted) && !(msg is PushCompleted) ==> status_after(status, msg) == status,
{
    reveal_strlit("Pulled");
    reveal_strlit("Pushed");
    reveal_strlit("Pull");
    reveal_strlit("Push");
    reveal_strlit(" ");
    reveal_strlit(" failed for ");
    reveal_strlit("Pulled ");
    reveal_strlit("Pushed ");
    reveal_strlit("Pull failed for ");
    reveal_strlit("Push failed for ");
    assert("Pulled"@ + " "@ =~= "Pulled "@);
    assert("Pushed"@ + " "@ =~= "Pushed "@);
    assert("Pull"@ + " failed for "@ =~= "Pull failed for "@);
    assert("Push"@ + " failed for "@ =~= "Push failed for "@);
}

/// A message reaches the repository that it is about, and no other one; what is shown and
/// selected stays, but for an index that its column no longer reaches.
pub proof fn messages_reach_their_repository(
    before: AppState,
    after: AppState,
    msg: ActionMessage,
    refresh: Refresh,
    at: int,
    k: int,
)
    requires
        message_applied(before, after, msg, refresh),
        0 <= at < before.repos@.len(),
        same_place(before.repos@[at].path@, msg.subject()),
        forall|j: int|
            0 <= j < at ==> !same_place((#[trigger] before.repos@[j]).path@, msg.subject()),
    ensures
        after.repos@.len() == before.repos@.len(),
        after.repos@[at]@ == repo_after(before.repos@[at]@, msg, refresh),
        0 <= k < before.repos@.len() && k != at ==> after.repos@[k] == before.repos@[k],
        after.selected_column == before.selected_column,
        after.overlay == before.overlay,
        after.sort_mode == before.sort_mode,
        after.should_quit == before.should_quit,
        forall|col: int|
            0 <= col < COLUMN_COUNT && before.selected_index@[col] < column(
                after.repos@,
                col,
            ).len() ==> #[trigger] after.selected_index@[col] == before.selected_index@[col],
{
    index_of_path_is(before.repos@, msg.subject(), at);
}

/// Every message is about the repository at the path that it carries.
pub proof fn messages_carry_their_path(path: String, name: String, text: Result<String, String>)
    ensures
        ActionMessage::FetchStarting(path).subject() == path@,
        ActionMessage::ForgeStarting(path).subject() == path@,
        ActionMessage::PullCompleted(path, name, text).subject() == path@,
        ActionMessage::PushCompleted(path, name, text).subject() == path@,
        forall|r: Result<(), String>| #[trigger]
            ActionMessage::FetchCompleted(path, r).subject() == path@,
        forall|r: Result<ForgeStats, String>| #[trigger]
            ActionMessage::ForgeCompleted(path, r).subject() == path@,
{
}

/// Exactly the repositories with a remote are fetched, and the forge is asked exactly about
/// those whose remote lies on one.
pub proof fn work_is_handed_out(repos: Seq<Repo>, k: int)
    requires
        0 <= k < repos.len(),
    ensures
        repos[k].has_remote ==> paths_to_fetch(repos).contains(repos[k].path@),
        paths_to_fetch(repos).len() == repos.filter(|r: Repo| r.has_remote).len(),
        repos[k].remote_info matches Some(info) ==> remotes_to_query(repos).contains(
            (repos[k].path@, info@),
        ),
        remotes_to_query(repos).len() == repos.filter(|r: Repo| r.remote_info is Some).len(),
{
    let p = |r: Repo| r.has_remote;
    let f = |r: Repo| r.path@;
    let q = |r: Repo| r.remote_info is Some;
    let g = |r: Repo| (r.path@, r.remote_info->0@);
    if repos[k].has_remote {
        repos.lemma_filter_contains(p, k);
        let within = repos.filter(p);
        let m = choose|m: int| 0 <= m < within.len() && within[m] == repos[k];
        assert(within.map_values(f)[m] == repos[k].path@);
    }
    if repos[k].remote_info is Some {
        repos.lemma_filter_contains(q, k);
        let within = repos.filter(q);
        let m = choose|m: int| 0 <= m < within.len() && within[m] == repos[k];
        assert(within.map_values(g)[m] == (repos[k].path@, repos[k].remote_info->0@));
    }
}

} // verus!
