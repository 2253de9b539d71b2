//! What git is asked, and what its answers mean.

use vstd::prelude::*;

use crate::forge::{parse_remote_url, remote_of_url};
use crate::json::low_32_bits;
use crate::model::{
    FetchStatus, FetchStatusView, ForgeStatus, ForgeStatusView, RemoteInfoView, Repo, RepoView,
    SyncState, WorktreeInfo, WorktreeView,
};
use crate::number::{decimal, decimal_reads_back, is_digit, number, parse_u32};
use crate::path::{
    file_name, file_name_is_last_name, file_name_of, join_path, joined_path, names, parent,
    parent_drops_last_name, parent_of, path_leads_on, rooted, same_place,
};
use crate::text::{
    after_prefix, blank_texts_trim_to_nothing, count_filled_lines, filled_lines, is_space,
    listed_lines_are_counted, listing, opt_slice, opt_text, parts, parts_of_concatenation,
    prefix_comes_off, same_text, slices, split, split_then_join, strip_prefix, text_result, texts,
    trim, trimmed, trimming_leaves_the_middle,
};

verus! {

/// How many milliseconds a git command that talks to a remote may take.
pub const GIT_TIMEOUT_MS: u64 = 15_000;

// ---------------------------------------------------------------------------
// Questions
// ---------------------------------------------------------------------------

/// A question to git about a repository.
#[derive(Debug, Clone, Copy, PartialEq, Eq, Structural)]
pub enum GitQuery {
    CurrentBranch,
    Remotes,
    RemoteHead,
    RemoteMain,
    RemoteMaster,
    LocalMain,
    LocalMaster,
    Changes,
    AheadBehind,
    OriginUrl,
}

impl GitQuery {
    /// The arguments that put the question to git.
    pub open spec fn words(self) -> Seq<Seq<char>> {
        match self {
            GitQuery::CurrentBranch => seq!["branch"@, "--show-current"@],
            GitQuery::Remotes => seq!["remote"@],
            GitQuery::RemoteHead => seq!["symbolic-ref"@, "refs/remotes/origin/HEAD"@],
            GitQuery::RemoteMain => seq![
                "rev-parse"@,
                "--verify"@,
                "refs/remotes/origin/main"@,
            ],
            GitQuery::RemoteMaster => seq![
                "rev-parse"@,
                "--verify"@,
                "refs/remotes/origin/master"@,
            ],
            GitQuery::LocalMain => seq!["rev-parse"@, "--verify"@, "refs/heads/main"@],
            GitQuery::LocalMaster => seq!["rev-parse"@, "--verify"@, "refs/heads/master"@],
            GitQuery::Changes => seq!["status"@, "--porcelain"@],
            GitQuery::AheadBehind => seq![
                "rev-list"@,
                "--left-right"@,
                "--count"@,
                "HEAD...@{upstream}"@,
            ],
            GitQuery::OriginUrl => seq!["remote"@, "get-url"@, "origin"@],
        }
    }

    /// The arguments that put the question to git.
    pub fn args(self) -> (r: Vec<&'static str>)
        ensures
            slices(r@) == self.words(),
    {
        let r = match self {
            GitQuery::CurrentBranch => vec!["branch", "--show-current"],
            GitQuery::Remotes => vec!["remote"],
            GitQuery::RemoteHead => vec!["symbolic-ref", "refs/remotes/origin/HEAD"],
            GitQuery::RemoteMain => vec!["rev-parse", "--verify", "refs/remotes/origin/main"],
            GitQuery::RemoteMaster => vec!["rev-parse", "--verify", "refs/remotes/origin/master"],
            GitQuery::LocalMain => vec!["rev-parse", "--verify", "refs/heads/main"],
            GitQuery::LocalMaster => vec!["rev-parse", "--verify", "refs/heads/master"],
            GitQuery::Changes => vec!["status", "--porcelain"],
            GitQuery::AheadBehind => vec![
                "rev-list",
                "--left-right",
                "--count",
                "HEAD...@{upstream}",
            ],
            GitQuery::OriginUrl => vec!["remote", "get-url", "origin"],
        };
        assert(slices(r@) =~= self.words());
        r
    }
}

/// A git command that talks to a remote.
#[derive(Debug, Clone, Copy, PartialEq, Eq, Structural)]
pub enum GitAction {
    Fetch,
    Pull,
    Push,
}

impl GitAction {
    /// The arguments of the command.
    pub open spec fn words(self) -> Seq<Seq<char>> {
        match self {
            GitAction::Fetch => seq!["fetch"@, "--quiet"@],
            GitAction::Pull => seq!["pull"@],
            GitAction::Push => seq!["push"@],
        }
    }

    /// The arguments of the command.
    pub fn args(self) -> (r: Vec<&'static str>)
        ensures
            slices(r@) == self.words(),
    {
        let r = match self {
            GitAction::Fetch => vec!["fetch", "--quiet"],
            GitAction::Pull => vec!["pull"],
            GitAction::Push => vec!["push"],
        };
        assert(slices(r@) =~= self.words());
        r
    }
}

/// The answers of git, by question. Where git fails, the answer is `None`.
pub type AnswerMap = Map<GitQuery, Option<Seq<char>>>;

/// The answers that git has given so far.
#[derive(Debug)]
pub struct GitAnswers {
    given: Vec<(GitQuery, Option<String>)>,
}

/// The map that a sequence of answers makes up. A later answer replaces an earlier one.
pub open spec fn answers_in(given: Seq<(GitQuery, Option<String>)>) -> AnswerMap
    decreases given.len(),
{
    if given.len() == 0 {
        Map::empty()
    } else {
        answers_in(given.drop_last()).insert(given.last().0, opt_text(given.last().1))
    }
}

impl View for GitAnswers {
    type V = AnswerMap;

    closed spec fn view(&self) -> AnswerMap {
        answers_in(self.given@)
    }
}

/// The answer to a question: none where it was not put or git failed.
pub open spec fn answer(a: AnswerMap, q: GitQuery) -> Option<Seq<char>> {
    if a.contains_key(q) {
        a[q]
    } else {
        None
    }
}

/// What git printed in answer to a question: nothing where there is no answer.
pub open spec fn printed(a: AnswerMap, q: GitQuery) -> Seq<char> {
    match answer(a, q) {
        Some(text) => text,
        None => seq![],
    }
}

impl GitAnswers {
    /// No question was put yet.
    pub fn new() -> (r: GitAnswers)
        ensures
            r@ == AnswerMap::empty(),
    {
        GitAnswers { given: Vec::new() }
    }

    /// Adds the answer to a question.
    pub fn record(&mut self, q: GitQuery, output: Option<String>)
        ensures
            final(self)@ == old(self)@.insert(q, opt_text(output)),
    {
        self.given.push((q, output));
        assert(self.given@.drop_last() =~= old(self).given@);
    }

    fn lookup(&self, q: GitQuery) -> (r: Option<&Option<String>>)
        ensures
            r is Some <==> self@.contains_key(q),
            r matches Some(text) ==> self@[q] == opt_text(*text),
    {
        let mut k: usize = self.given.len();
        assert(self.given@.take(k as int) =~= self.given@);
        while k > 0
            invariant
                k <= self.given.len(),
                self@.contains_key(q) == answers_in(self.given@.take(k as int)).contains_key(q),
                self@.contains_key(q) ==> self@[q] == answers_in(self.given@.take(k as int))[q],
            decreases k,
        {
            let ghost t = self.given@.take(k as int);
            assert(t.last() == self.given@[k - 1]);
            assert(t.drop_last() =~= self.given@.take(k - 1));
            if self.given[k - 1].0 == q {
                return Some(&self.given[k - 1].1);
            }
            k = k - 1;
        }
        None
    }

    /// Whether a question was put.
    pub fn has(&self, q: GitQuery) -> (r: bool)
        ensures
            r == self@.contains_key(q),
    {
        self.lookup(q).is_some()
    }

    /// The answer to a question.
    pub fn get(&self, q: GitQuery) -> (r: Option<&str>)
        ensures
            opt_slice(r) == answer(self@, q),
    {
        match self.lookup(q) {
            Some(Some(text)) => Some(text.as_str()),
            _ => None,
        }
    }

    /// What git printed in answer to a question.
    pub fn text(&self, q: GitQuery) -> (r: &str)
        ensures
            r@ == printed(self@, q),
    {
        match self.get(q) {
            Some(text) => text,
            None => {
                proof {
                    reveal_strlit("");
                    assert(""@ =~= seq![]);
                }
                ""
            },
        }
    }
}

// ---------------------------------------------------------------------------
// Status of a repository
// ---------------------------------------------------------------------------

/// The low 32 bits of the number of changed files that `git status --porcelain` lists.
pub open spec fn changed_files(text: Seq<char>) -> u32 {
    (filled_lines(text) % 0x1_0000_0000) as u32
}

/// The commits ahead and behind: two numbers with a tab between them, of which one that
/// cannot be read counts as zero.
pub open spec fn commit_counts(text: Seq<char>) -> (u32, u32) {
    let fields = parts(trimmed(text), '\t');
    if fields.len() == 2 {
        (number_or_zero(fields[0]), number_or_zero(fields[1]))
    } else {
        (0, 0)
    }
}

/// The number that a text denotes, or zero.
pub open spec fn number_or_zero(text: Seq<char>) -> u32 {
    match number(text) {
        Some(n) => n,
        None => 0,
    }
}

/// The repository has a remote.
pub open spec fn remote_exists(a: AnswerMap) -> bool {
    trimmed(printed(a, GitQuery::Remotes)).len() > 0
}

/// The branch that the remote's head points to.
pub open spec fn head_branch(a: AnswerMap) -> Option<Seq<char>> {
    match answer(a, GitQuery::RemoteHead) {
        Some(text) => after_prefix(trimmed(text), "refs/remotes/origin/"@),
        None => None,
    }
}

/// The default branch by the remote: the one its head points to, or else `main` or
/// `master`, whichever is there.
pub open spec fn remote_default(a: AnswerMap) -> Option<Seq<char>> {
    if head_branch(a) is Some {
        head_branch(a)
    } else if answer(a, GitQuery::RemoteMain) is Some {
        Some("main"@)
    } else if answer(a, GitQuery::RemoteMaster) is Some {
        Some("master"@)
    } else {
        None
    }
}

/// The default branch by the local branches: `main` or `master`, whichever is there.
pub open spec fn local_default(a: AnswerMap) -> Option<Seq<char>> {
    if answer(a, GitQuery::LocalMain) is Some {
        Some("main"@)
    } else if answer(a, GitQuery::LocalMaster) is Some {
        Some("master"@)
    } else {
        None
    }
}

/// The default branch: by the remote where there is one and it tells, or else by the
/// local branches.
pub open spec fn default_branch(a: AnswerMap) -> Option<Seq<char>> {
    if remote_exists(a) && remote_default(a) is Some {
        remote_default(a)
    } else {
        local_default(a)
    }
}

/// The URL of the remote `origin`.
pub open spec fn origin_url(a: AnswerMap) -> Option<Seq<char>> {
    if remote_exists(a) && trimmed(printed(a, GitQuery::OriginUrl)).len() > 0 {
        Some(trimmed(printed(a, GitQuery::OriginUrl)))
    } else {
        None
    }
}

/// The remote that a URL denotes, if there is a URL.
pub open spec fn remote_info_of(
    url: Option<Seq<char>>,
    gitea: Seq<Seq<char>>,
    gitlab: Seq<Seq<char>>,
) -> Option<RemoteInfoView> {
    match url {
        Some(u) => remote_of_url(u, gitea, gitlab),
        None => None,
    }
}

/// The status of the repository at `path`, by the answers of git. A path without a
/// file name has none.
pub open spec fn repo_status(
    path: Seq<char>,
    a: AnswerMap,
    gitea: Seq<Seq<char>>,
    gitlab: Seq<Seq<char>>,
) -> Option<RepoView> {
    let counts = if remote_exists(a) {
        commit_counts(printed(a, GitQuery::AheadBehind))
    } else {
        (0u32, 0u32)
    };
    let remote = remote_info_of(origin_url(a), gitea, gitlab);
    match file_name_of(path) {
        Some(name) => Some(
            RepoView {
                path,
                name,
                default_branch: default_branch(a),
                current_branch: trimmed(printed(a, GitQuery::CurrentBranch)),
                ahead: counts.0,
                behind: counts.1,
                dirty_files: changed_files(printed(a, GitQuery::Changes)),
                has_remote: remote_exists(a),
                fetch_status: if remote_exists(a) {
                    FetchStatusView::Queued
                } else {
                    FetchStatusView::Done
                },
                remote_url: origin_url(a),
                remote_info: remote,
                forge_stats: None,
                forge_status: if remote is Some {
                    ForgeStatusView::Queued
                } else {
                    ForgeStatusView::NotApplicable
                },
                worktrees: seq![],
                is_worktree: false,
                worktree_main: None,
            },
        ),
        None => None,
    }
}

/// The question to put next, with the answers at hand. Where there is none, the status
/// is settled.
pub open spec fn next_question(path: Seq<char>, a: AnswerMap) -> Option<GitQuery> {
    if file_name_of(path) is None {
        None
    } else if !a.contains_key(GitQuery::CurrentBranch) {
        Some(GitQuery::CurrentBranch)
    } else if !a.contains_key(GitQuery::Remotes) {
        Some(GitQuery::Remotes)
    } else if remote_exists(a) && !a.contains_key(GitQuery::RemoteHead) {
        Some(GitQuery::RemoteHead)
    } else if remote_exists(a) && head_branch(a) is None && !a.contains_key(GitQuery::RemoteMain) {
        Some(GitQuery::RemoteMain)
    } else if remote_exists(a) && head_branch(a) is None && answer(a, GitQuery::RemoteMain) is None
        && !a.contains_key(GitQuery::RemoteMaster) {
        Some(GitQuery::RemoteMaster)
    } else if !(remote_exists(a) && remote_default(a) is Some) && !a.contains_key(
        GitQuery::LocalMain,
    ) {
        Some(GitQuery::LocalMain)
    } else if !(remote_exists(a) && remote_default(a) is Some) && answer(a, GitQuery::LocalMain) is None
        && !a.contains_key(GitQuery::LocalMaster) {
        Some(GitQuery::LocalMaster)
    } else if !a.contains_key(GitQuery::Changes) {
        Some(GitQuery::Changes)
    } else if remote_exists(a) && !a.contains_key(GitQuery::AheadBehind) {
        Some(GitQuery::AheadBehind)
    } else if remote_exists(a) && !a.contains_key(GitQuery::OriginUrl) {
        Some(GitQuery::OriginUrl)
    } else {
        None
    }
}

/// Once no question is left, no further answer changes the status.
pub proof fn answers_suffice(
    path: Seq<char>,
    a: AnswerMap,
    more: AnswerMap,
    gitea: Seq<Seq<char>>,
    gitlab: Seq<Seq<char>>,
)
    requires
        next_question(path, a) is None,
        forall|q: GitQuery| #[trigger] a.contains_key(q) ==> more.contains_key(q) && more[q] == a[q],
    ensures
        repo_status(path, a, gitea, gitlab) == repo_status(path, more, gitea, gitlab),
{
    if file_name_of(path) is Some {
        assert(a.contains_key(GitQuery::CurrentBranch));
        assert(a.contains_key(GitQuery::Remotes));
        assert(a.contains_key(GitQuery::Changes));
        assert(answer(a, GitQuery::Remotes) == answer(more, GitQuery::Remotes));
        if remote_exists(a) {
            assert(a.contains_key(GitQuery::RemoteHead));
            assert(head_branch(a) == head_branch(more));
            assert(a.contains_key(GitQuery::AheadBehind));
            assert(a.contains_key(GitQuery::OriginUrl));
            if head_branch(a) is None {
                assert(a.contains_key(GitQuery::RemoteMain));
                if answer(a, GitQuery::RemoteMain) is None {
                    assert(a.contains_key(GitQuery::RemoteMaster));
                }
            }
        }
        if !(remote_exists(a) && remote_default(a) is Some) {
            assert(a.contains_key(GitQuery::LocalMain));
            if answer(a, GitQuery::LocalMain) is None {
                assert(a.contains_key(GitQuery::LocalMaster));
            }
        }
    }
}

/// One for a question that was not put yet, and zero for one that was.
pub open spec fn missing(a: AnswerMap, q: GitQuery) -> nat {
    if a.contains_key(q) {
        0
    } else {
        1
    }
}

/// The number of questions that were not put yet.
pub open spec fn questions_left(a: AnswerMap) -> nat {
    missing(a, GitQuery::CurrentBranch) + missing(a, GitQuery::Remotes) + missing(
        a,
        GitQuery::RemoteHead,
    ) + missing(a, GitQuery::RemoteMain) + missing(a, GitQuery::RemoteMaster) + missing(
        a,
        GitQuery::LocalMain,
    ) + missing(a, GitQuery::LocalMaster) + missing(a, GitQuery::Changes) + missing(
        a,
        GitQuery::AheadBehind,
    ) + missing(a, GitQuery::OriginUrl)
}

/// No question is put twice, so the questions come to an end.
pub proof fn questions_come_to_an_end(path: Seq<char>, a: AnswerMap, output: Option<Seq<char>>)
    requires
        next_question(path, a) is Some,
    ensures
        !a.contains_key(next_question(path, a)->0),
        questions_left(a.insert(next_question(path, a)->0, output)) < questions_left(a),
{
}

/// A repository without a remote is neither ahead nor behind, and nothing is asked about
/// a remote.
pub proof fn no_remote_means_no_counts(
    path: Seq<char>,
    a: AnswerMap,
    gitea: Seq<Seq<char>>,
    gitlab: Seq<Seq<char>>,
)
    requires
        a.contains_key(GitQuery::Remotes),
        !remote_exists(a),
    ensures
        repo_status(path, a, gitea, gitlab) matches Some(r) ==> {
            &&& !r.has_remote
            &&& r.ahead == 0
            &&& r.behind == 0
            &&& r.remote_url is None
            &&& r.remote_info is None
            &&& r.fetch_status == FetchStatusView::Done
            &&& r.forge_status == ForgeStatusView::NotApplicable
        },
        next_question(path, a) matches Some(q) ==> q != GitQuery::RemoteHead && q
            != GitQuery::RemoteMain && q != GitQuery::RemoteMaster && q != GitQuery::AheadBehind && q
            != GitQuery::OriginUrl,
{
}

fn count_changes(text: &str) -> (r: u32)
    ensures
        r == changed_files(text@),
{
    let n: usize = count_filled_lines(text);
    low_32_bits(n as u64)
}

fn has_remote(a: &GitAnswers) -> (r: bool)
    ensures
        r == remote_exists(a@),
{
    !trim(a.text(GitQuery::Remotes)).is_empty()
}

fn remote_head_branch(a: &GitAnswers) -> (r: Option<&str>)
    ensures
        opt_slice(r) == head_branch(a@),
{
    match a.get(GitQuery::RemoteHead) {
        Some(text) => strip_prefix(trim(text), "refs/remotes/origin/"),
        None => None,
    }
}

/// The default branch by the remote.
pub fn detect_default_branch(a: &GitAnswers) -> (r: Option<String>)
    ensures
        opt_text(r) == remote_default(a@),
{
    match remote_head_branch(a) {
        Some(branch) => Some(branch.to_owned()),
        None => {
            if a.get(GitQuery::RemoteMain).is_some() {
                Some("main".to_owned())
            } else if a.get(GitQuery::RemoteMaster).is_some() {
                Some("master".to_owned())
            } else {
                None
            }
        },
    }
}

/// The default branch by the local branches; no remote is needed.
pub fn detect_local_default_branch(a: &GitAnswers) -> (r: Option<String>)
    ensures
        opt_text(r) == local_default(a@),
{
    if a.get(GitQuery::LocalMain).is_some() {
        Some("main".to_owned())
    } else if a.get(GitQuery::LocalMaster).is_some() {
        Some("master".to_owned())
    } else {
        None
    }
}

fn read_number(text: &str) -> (r: u32)
    ensures
        r == number_or_zero(text@),
{
    match parse_u32(text) {
        Some(n) => n,
        None => 0,
    }
}

/// The commits ahead and behind that `git rev-list` printed.
pub fn get_ahead_behind(text: &str) -> (r: (u32, u32))
    ensures
        r == commit_counts(text@),
{
    let fields = split(trim(text), '\t');
    assert(slices(fields@).len() == fields@.len());
    if fields.len() == 2 {
        assert(slices(fields@)[0] == fields@[0]@);
        assert(slices(fields@)[1] == fields@[1]@);
        (read_number(fields[0]), read_number(fields[1]))
    } else {
        (0, 0)
    }
}

/// The question to put next, with the answers at hand.
pub fn next_query(path: &str, a: &GitAnswers) -> (r: Option<GitQuery>)
    ensures
        r == next_question(path@, a@),
{
    if file_name(path).is_none() {
        return None;
    }
    if !a.has(GitQuery::CurrentBranch) {
        return Some(GitQuery::CurrentBranch);
    }
    if !a.has(GitQuery::Remotes) {
        return Some(GitQuery::Remotes);
    }
    let remote = has_remote(a);
    if remote {
        if !a.has(GitQuery::RemoteHead) {
            return Some(GitQuery::RemoteHead);
        }
        if remote_head_branch(a).is_none() {
            if !a.has(GitQuery::RemoteMain) {
                return Some(GitQuery::RemoteMain);
            }
            if a.get(GitQuery::RemoteMain).is_none() && !a.has(GitQuery::RemoteMaster) {
                return Some(GitQuery::RemoteMaster);
            }
        }
    }
    if !(remote && detect_default_branch(a).is_some()) {
        if !a.has(GitQuery::LocalMain) {
            return Some(GitQuery::LocalMain);
        }
        if a.get(GitQuery::LocalMain).is_none() && !a.has(GitQuery::LocalMaster) {
            return Some(GitQuery::LocalMaster);
        }
    }
    if !a.has(GitQuery::Changes) {
        return Some(GitQuery::Changes);
    }
    if remote {
        if !a.has(GitQuery::AheadBehind) {
            return Some(GitQuery::AheadBehind);
        }
        if !a.has(GitQuery::OriginUrl) {
            return Some(GitQuery::OriginUrl);
        }
    }
    None
}

fn read_origin_url(a: &GitAnswers) -> (r: Option<String>)
    ensures
        opt_text(r) == origin_url(a@),
{
    if has_remote(a) {
        let url = trim(a.text(GitQuery::OriginUrl));
        if url.is_empty() {
            None
        } else {
            Some(url.to_owned())
        }
    } else {
        None
    }
}

/// Builds a repository from the local git state, by the answers of git.
pub fn build_repo_status(
    path: &str,
    a: &GitAnswers,
    custom_gitea: &[String],
    custom_gitlab: &[String],
) -> (r: Option<Repo>)
    ensures
        match r {
            Some(repo) => repo_status(path@, a@, texts(custom_gitea@), texts(custom_gitlab@))
                == Some(repo@),
            None => repo_status(path@, a@, texts(custom_gitea@), texts(custom_gitlab@)) is None,
        },
{
    let name = match file_name(path) {
        Some(name) => name.to_owned(),
        None => {
            return None;
        },
    };
    let remote = has_remote(a);
    let by_remote = if remote {
        detect_default_branch(a)
    } else {
        None
    };
    let default_branch = if by_remote.is_some() {
        by_remote
    } else {
        detect_local_default_branch(a)
    };
    let (ahead, behind): (u32, u32) = if remote {
        get_ahead_behind(a.text(GitQuery::AheadBehind))
    } else {
        (0, 0)
    };
    let remote_url = read_origin_url(a);
    let remote_info = match &remote_url {
        Some(url) => parse_remote_url(url.as_str(), custom_gitea, custom_gitlab),
        None => None,
    };
    let forge_status = if remote_info.is_some() {
        ForgeStatus::Queued
    } else {
        ForgeStatus::NotApplicable
    };
    let repo = Repo {
        path: path.to_owned(),
        name,
        default_branch,
        current_branch: trim(a.text(GitQuery::CurrentBranch)).to_owned(),
        ahead,
        behind,
        dirty_files: count_changes(a.text(GitQuery::Changes)),
        has_remote: remote,
        fetch_status: if remote {
            FetchStatus::Queued
        } else {
            FetchStatus::Done
        },
        remote_url,
        remote_info,
        forge_stats: None,
        forge_status,
        worktrees: Vec::new(),
        is_worktree: false,
        worktree_main: None,
    };
    assert(repo@.worktrees =~= seq![]);
    Some(repo)
}

// ---------------------------------------------------------------------------
// Worktrees
// ---------------------------------------------------------------------------

/// What git said about a worktree.
#[derive(Debug)]
pub struct WorktreeAnswers {
    /// The answer to `GitQuery::CurrentBranch`.
    pub branch: Option<String>,
    /// The answer to `GitQuery::Changes`.
    pub changes: Option<String>,
}

/// The text of an answer, or nothing.
pub open spec fn text_or_empty(o: Option<String>) -> Seq<char> {
    match o {
        Some(s) => s@,
        None => seq![],
    }
}

/// The worktree at `path`, by the answers of git.
pub open spec fn worktree_status(path: Seq<char>, a: WorktreeAnswers) -> Option<WorktreeView> {
    match file_name_of(path) {
        Some(name) => Some(
            WorktreeView {
                path,
                name,
                branch: trimmed(text_or_empty(a.branch)),
                dirty_files: changed_files(text_or_empty(a.changes)),
            },
        ),
        None => None,
    }
}

fn answer_text(o: &Option<String>) -> (r: &str)
    ensures
        r@ == text_or_empty(*o),
{
    match o {
        Some(s) => s.as_str(),
        None => {
            proof {
                reveal_strlit("");
                assert(""@ =~= seq![]);
            }
            ""
        },
    }
}

/// Builds the info on the worktree at `path`.
pub fn build_worktree_info(path: &str, a: &WorktreeAnswers) -> (r: Option<WorktreeInfo>)
    ensures
        match r {
            Some(wt) => worktree_status(path@, *a) == Some(wt@),
            None => worktree_status(path@, *a) is None,
        },
{
    match file_name(path) {
        Some(name) => Some(
            WorktreeInfo {
                path: path.to_owned(),
                name: name.to_owned(),
                branch: trim(answer_text(&a.branch)).to_owned(),
                dirty_files: count_changes(answer_text(&a.changes)),
            },
        ),
        None => None,
    }
}

/// What a worktree becomes when git was asked again about it.
pub open spec fn refreshed_worktree(before: WorktreeView, a: Option<WorktreeAnswers>) -> WorktreeView {
    WorktreeView {
        branch: match a {
            Some(x) => trimmed(text_or_empty(x.branch)),
            None => trimmed(seq![]),
        },
        dirty_files: match a {
            Some(x) => changed_files(text_or_empty(x.changes)),
            None => changed_files(seq![]),
        },
        ..before
    }
}

/// What a repository becomes when git was asked again about it and its worktrees. The
/// branches, the counts and the remote's presence are taken over where the status could
/// be built; all else stays. Worktrees that no answer is given for count as silent.
pub open spec fn refreshed(
    before: RepoView,
    updated: Option<RepoView>,
    answers: Seq<WorktreeAnswers>,
) -> RepoView {
    let worktrees = Seq::new(
        before.worktrees.len(),
        |i: int|
            refreshed_worktree(
                before.worktrees[i],
                if i < answers.len() {
                    Some(answers[i])
                } else {
                    None
                },
            ),
    );
    match updated {
        Some(u) => RepoView {
            current_branch: u.current_branch,
            default_branch: u.default_branch,
            ahead: u.ahead,
            behind: u.behind,
            dirty_files: u.dirty_files,
            has_remote: u.has_remote,
            worktrees,
            ..before
        },
        None => RepoView { worktrees, ..before },
    }
}

fn refresh_worktree(wt: WorktreeInfo, a: Option<&WorktreeAnswers>) -> (r: WorktreeInfo)
    ensures
        r@ == refreshed_worktree(
            wt@,
            match a {
                Some(x) => Some(*x),
                None => None,
            },
        ),
{
    let nothing: Option<String> = None;
    let (branch, changes) = match a {
        Some(x) => (answer_text(&x.branch), answer_text(&x.changes)),
        None => (answer_text(&nothing), answer_text(&nothing)),
    };
    WorktreeInfo {
        path: wt.path,
        name: wt.name,
        branch: trim(branch).to_owned(),
        dirty_files: count_changes(changes),
    }
}

/// Takes over what git says about a repository and its worktrees after a fetch or an
/// action.
pub fn refresh_repo_status(
    repo: &mut Repo,
    updated: Option<Repo>,
    answers: &Vec<WorktreeAnswers>,
)
    ensures
        final(repo)@ == refreshed(
            old(repo)@,
            match updated {
                Some(u) => Some(u@),
                None => None,
            },
            answers@,
        ),
{
    let ghost before = repo@;
    match updated {
        Some(u) => {
            repo.current_branch = u.current_branch;
            repo.default_branch = u.default_branch;
            repo.ahead = u.ahead;
            repo.behind = u.behind;
            repo.dirty_files = u.dirty_files;
            repo.has_remote = u.has_remote;
        },
        None => {},
    }
    let mut old_worktrees: Vec<WorktreeInfo> = Vec::new();
    std::mem::swap(&mut old_worktrees, &mut repo.worktrees);
    let ghost olds = old_worktrees@;
    let mut out: Vec<WorktreeInfo> = Vec::new();
    let mut k: usize = 0;
    while k < old_worktrees.len()
        invariant
            old_worktrees@ == olds,
            k <= olds.len(),
            out@.len() == k,
            forall|i: int|
                0 <= i < k ==> (#[trigger] out@[i])@ == refreshed_worktree(
                    olds[i]@,
                    if i < answers@.len() {
                        Some(answers@[i])
                    } else {
                        None
                    },
                ),
        decreases olds.len() - k,
    {
        let a = if k < answers.len() {
            Some(&answers[k])
        } else {
            None
        };
        let wt = refresh_worktree(old_worktrees[k].clone(), a);
        out.push(wt);
        k = k + 1;
    }
    repo.worktrees = out;
    assert(repo@.worktrees =~= Seq::new(
        before.worktrees.len(),
        |i: int|
            refreshed_worktree(
                before.worktrees[i],
                if i < answers@.len() {
                    Some(answers@[i])
                } else {
                    None
                },
            ),
    ));
}

// ---------------------------------------------------------------------------
// Links between worktrees and repositories
// ---------------------------------------------------------------------------

/// The repository that a git directory of a worktree belongs to: for a path of the form
/// `<repo>/<git dir>/worktrees/<name>` it is `<repo>`.
pub open spec fn main_of_gitdir(gitdir: Seq<char>) -> Option<Seq<char>> {
    match parent_of(gitdir) {
        Some(holder) => if file_name_of(holder) == Some("worktrees"@) {
            match parent_of(holder) {
                Some(dir) => parent_of(dir),
                None => None,
            }
        } else {
            None
        },
        None => None,
    }
}

/// A git directory belongs to a repository exactly where its path has three names or
/// more and the last but one of them is `worktrees`. The repository's path has all
/// names but the last three.
pub proof fn main_of_gitdir_by_names(gitdir: Seq<char>)
    ensures
        main_of_gitdir(gitdir) is Some <==> names(gitdir).len() >= 3 && names(
            gitdir,
        )[names(gitdir).len() - 2] == "worktrees"@,
        main_of_gitdir(gitdir) matches Some(main) ==> names(main) == names(gitdir).take(
            names(gitdir).len() - 3,
        ) && rooted(main) == rooted(gitdir),
{
    let all = names(gitdir);
    parent_drops_last_name(gitdir);
    if let Some(holder) = parent_of(gitdir) {
        reveal_strlit("worktrees");
        let word = "worktrees"@;
        assert(word.len() == 9);
        assert(word != seq!['.'] && word != seq!['.', '.']);
        assert(names(holder) == all.drop_last());
        if all.len() >= 2 {
            assert(names(holder).last() == all[all.len() - 2]);
        }
        file_name_is_last_name(holder);
        parent_drops_last_name(holder);
        if let Some(dir) = parent_of(holder) {
            parent_drops_last_name(dir);
            if let Some(main) = parent_of(dir) {
                assert(names(main) =~= all.take(all.len() - 3));
            }
        }
    }
}

/// What a `.git` file points to.
pub open spec fn gitdir_in(content: Seq<char>) -> Option<Seq<char>> {
    after_prefix(trimmed(content), "gitdir: "@)
}

/// Extracts the main repository from the path of a worktree's git directory.
pub fn parse_gitdir_path(gitdir: &str) -> (r: Option<&str>)
    ensures
        opt_slice(r) == main_of_gitdir(gitdir@),
{
    let holder = match parent(gitdir) {
        Some(p) => p,
        None => {
            return None;
        },
    };
    match file_name(holder) {
        Some(name) => {
            if !same_text(name, "worktrees") {
                return None;
            }
        },
        None => {
            return None;
        },
    }
    match parent(holder) {
        Some(dir) => parent(dir),
        None => None,
    }
}

/// Extracts the main repository from the content of a `.git` file with a rooted path.
pub fn parse_gitdir_file(content: &str) -> (r: Option<&str>)
    ensures
        opt_slice(r) == match gitdir_in(content@) {
            Some(gitdir) => main_of_gitdir(gitdir),
            None => None,
        },
{
    match strip_prefix(trim(content), "gitdir: ") {
        Some(gitdir) => parse_gitdir_path(gitdir),
        None => None,
    }
}

/// What stands under the name `.git` in a directory.
#[derive(Debug)]
pub enum DotGit {
    Missing,
    Directory,
    /// A file and its content, where that can be read.
    File(Option<String>),
}

/// The path that the `.git` file in the directory `path` points to. A relative one is
/// taken from that directory.
pub open spec fn linked_gitdir(path: Seq<char>, dot_git: DotGit) -> Option<Seq<char>> {
    match dot_git {
        DotGit::File(Some(content)) => match gitdir_in(content@) {
            Some(raw) => Some(joined_path(path, raw)),
            None => None,
        },
        _ => None,
    }
}

/// The repository that the worktree in the directory `path` belongs to, if it is one.
pub open spec fn main_of_worktree(path: Seq<char>, dot_git: DotGit) -> Option<Seq<char>> {
    match linked_gitdir(path, dot_git) {
        Some(gitdir) => main_of_gitdir(gitdir),
        None => None,
    }
}

/// What a directory is to the scan.
#[derive(Debug)]
pub enum Entry {
    /// Neither repository nor worktree.
    Ignored,
    /// A repository.
    Main,
    /// A worktree of the repository at the given path.
    Worktree(String),
    /// A container of worktrees, if there is a directory at the given path.
    Container(String),
}

/// The model of an `Entry`.
pub enum EntryView {
    Ignored,
    Main,
    Worktree(Seq<char>),
    Container(Seq<char>),
}

impl View for Entry {
    type V = EntryView;

    open spec fn view(&self) -> EntryView {
        match *self {
            Entry::Ignored => EntryView::Ignored,
            Entry::Main => EntryView::Main,
            Entry::Worktree(main) => EntryView::Worktree(main@),
            Entry::Container(gitdir) => EntryView::Container(gitdir@),
        }
    }
}

/// What the directory `path` is to a scan of the directory that it lies in.
pub open spec fn entry_at(path: Seq<char>, dot_git: DotGit) -> EntryView {
    match dot_git {
        DotGit::Missing => EntryView::Ignored,
        DotGit::Directory => EntryView::Main,
        DotGit::File(_) => match main_of_worktree(path, dot_git) {
            Some(main) => EntryView::Worktree(main),
            None => match linked_gitdir(path, dot_git) {
                Some(gitdir) => EntryView::Container(gitdir),
                None => EntryView::Ignored,
            },
        },
    }
}

/// What the directory `path` is to the scan of a container: a worktree where it points
/// to a repository, and else a repository of its own.
pub open spec fn entry_in_container(path: Seq<char>, dot_git: DotGit) -> EntryView {
    if dot_git is Missing {
        EntryView::Ignored
    } else {
        match main_of_worktree(path, dot_git) {
            Some(main) => EntryView::Worktree(main),
            None => EntryView::Main,
        }
    }
}

fn resolve_gitdir(path: &str, dot_git: &DotGit) -> (r: Option<String>)
    ensures
        opt_text(r) == linked_gitdir(path@, *dot_git),
{
    match dot_git {
        DotGit::File(Some(content)) => match strip_prefix(trim(content.as_str()), "gitdir: ") {
            Some(raw) => Some(join_path(path, raw)),
            None => None,
        },
        _ => None,
    }
}

/// The main repository's path, if the directory `path` is a worktree.
pub fn resolve_worktree_main(path: &str, dot_git: &DotGit) -> (r: Option<String>)
    ensures
        opt_text(r) == main_of_worktree(path@, *dot_git),
{
    match resolve_gitdir(path, dot_git) {
        Some(gitdir) => match parse_gitdir_path(gitdir.as_str()) {
            Some(main) => Some(main.to_owned()),
            None => None,
        },
        None => None,
    }
}

/// Classifies a directory as a repository, a worktree, a container or neither.
pub fn classify_entry(path: &str, dot_git: &DotGit) -> (r: Entry)
    ensures
        r@ == entry_at(path@, *dot_git),
{
    match dot_git {
        DotGit::Missing => Entry::Ignored,
        DotGit::Directory => Entry::Main,
        DotGit::File(_) => match resolve_worktree_main(path, dot_git) {
            Some(main) => Entry::Worktree(main),
            None => match resolve_gitdir(path, dot_git) {
                Some(gitdir) => Entry::Container(gitdir),
                None => Entry::Ignored,
            },
        },
    }
}

/// Classifies a directory inside a container.
pub fn classify_in_container(path: &str, dot_git: &DotGit) -> (r: Entry)
    ensures
        r@ == entry_in_container(path@, *dot_git),
{
    match dot_git {
        DotGit::Missing => Entry::Ignored,
        _ => match resolve_worktree_main(path, dot_git) {
            Some(main) => Entry::Worktree(main),
            None => Entry::Main,
        },
    }
}

// ---------------------------------------------------------------------------
// Commands
// ---------------------------------------------------------------------------

/// What a git command that has come to its end reports.
pub open spec fn reported(success: bool, stdout: Seq<char>, stderr: Seq<char>) -> Result<
    Seq<char>,
    Seq<char>,
> {
    if success {
        Ok(trimmed(stdout))
    } else {
        Err(trimmed(stderr))
    }
}

/// What a git command that has come to its end reports: its output, or what it wrote
/// to its error stream where it failed.
pub fn command_result(success: bool, stdout: &str, stderr: &str) -> (r: Result<String, String>)
    ensures
        text_result(r) == if success {
            Ok::<Seq<char>, Seq<char>>(trimmed(stdout@))
        } else {
            Err(trimmed(stderr@))
        },
        text_result(r) == reported(success, stdout@, stderr@),
{
    if success {
        Ok(trim(stdout).to_owned())
    } else {
        Err(trim(stderr).to_owned())
    }
}

/// The state of a running command.
#[derive(Debug)]
pub enum ChildPoll {
    Exited,
    Running,
    /// The state could not be found out.
    Unknown(String),
}

/// What to do with a running command.
#[derive(Debug)]
pub enum WaitStep {
    /// Collect its output.
    Collect,
    /// Look again later.
    Sleep,
    /// Stop it and report that it took too long.
    Kill(String),
    /// Give up with an error.
    Fail(String),
}

/// Decides what to do with a command that has run for `elapsed_ms`.
pub fn wait_step(poll: ChildPoll, elapsed_ms: u64, timeout_ms: u64) -> (r: WaitStep)
    ensures
        match poll {
            ChildPoll::Exited => r is Collect,
            ChildPoll::Running => if elapsed_ms > timeout_ms {
                r matches WaitStep::Kill(e) && e@ == "timed out"@
            } else {
                r is Sleep
            },
            ChildPoll::Unknown(e) => r == WaitStep::Fail(e),
        },
{
    match poll {
        ChildPoll::Exited => WaitStep::Collect,
        ChildPoll::Running => {
            if elapsed_ms > timeout_ms {
                WaitStep::Kill("timed out".to_owned())
            } else {
                WaitStep::Sleep
            }
        },
        ChildPoll::Unknown(e) => WaitStep::Fail(e),
    }
}

// ---------------------------------------------------------------------------
// Laws on what git prints
// ---------------------------------------------------------------------------

proof fn decimal_has_no_space(n: nat)
    ensures
        !decimal(n).contains('\t'),
        !is_space(decimal(n)[0]),
        !is_space(decimal(n).last()),
        decimal(n).len() > 0,
{
    decimal_reads_back(n);
    let s = decimal(n);
    assert(is_digit(s[0]));
    assert(is_digit(s[s.len() - 1]));
    if s.contains('\t') {
        let k = choose|k: int| 0 <= k < s.len() && s[k] == '\t';
        assert(is_digit(s[k]));
    }
}

/// The counts that git prints with a tab between them are read each for itself: the number
/// before the tab is how far the repository is ahead, the one behind it how far it is
/// behind, and what is no number counts as none.
pub proof fn counts_are_read_one_by_one(
    left: Seq<char>,
    ahead: Seq<char>,
    behind: Seq<char>,
    right: Seq<char>,
)
    requires
        forall|i: int| 0 <= i < left.len() ==> is_space(#[trigger] left[i]),
        forall|i: int| 0 <= i < right.len() ==> is_space(#[trigger] right[i]),
        !ahead.contains('\t'),
        !behind.contains('\t'),
        ahead.len() > 0 && !is_space(ahead[0]),
        behind.len() > 0 && !is_space(behind.last()),
    ensures
        ({
            let counts = commit_counts(left + (ahead + seq!['\t'] + behind) + right);
            &&& number(ahead) matches Some(n) ==> counts.0 == n
            &&& number(ahead) is None ==> counts.0 == 0
            &&& number(behind) matches Some(n) ==> counts.1 == n
            &&& number(behind) is None ==> counts.1 == 0
        }),
{
    let mid = ahead + seq!['\t'] + behind;
    assert(mid[0] == ahead[0]);
    assert(mid.last() == behind.last());
    trimming_leaves_the_middle(left, mid, right);
    parts_of_concatenation(ahead, '\t', behind);
    parts_of_concatenation(behind, '\t', behind);
    assert(parts(mid, '\t') =~= seq![ahead, behind]);
}

/// Two numbers with a tab between them and a line feed behind them are read as what they
/// are, whatever they are.
pub proof fn counts_are_read(ahead: u32, behind: u32)
    ensures
        commit_counts(
            decimal(ahead as nat) + seq!['\t'] + decimal(behind as nat) + seq!['\n'],
        ) == (ahead, behind),
{
    let a = decimal(ahead as nat);
    let b = decimal(behind as nat);
    decimal_has_no_space(ahead as nat);
    decimal_has_no_space(behind as nat);
    decimal_reads_back(ahead as nat);
    decimal_reads_back(behind as nat);
    counts_are_read_one_by_one(seq![], a, b, seq!['\n']);
    assert(Seq::<char>::empty() + (a + seq!['\t'] + b) + seq!['\n'] =~= a + seq!['\t'] + b
        + seq!['\n']);
}

/// What is not two fields tells nothing: neither a text without a tab, nor one with three
/// fields or more.
pub proof fn other_texts_count_nothing(s: Seq<char>, a: Seq<char>, b: Seq<char>)
    requires
        s.len() > 0 ==> !is_space(s[0]) && !is_space(s.last()),
        !a.contains('\t'),
        !b.contains('\t'),
    ensures
        !s.contains('\t') ==> commit_counts(s) == (0u32, 0u32),
        a.len() > 0 && !is_space(a[0]) && s.len() > 0 ==> commit_counts(
            a + seq!['\t'] + (b + seq!['\t'] + s),
        ) == (0u32, 0u32),
{
    let none = Seq::<char>::empty();
    trimming_leaves_the_middle(none, s, none);
    assert(none + s + none =~= s);
    if !s.contains('\t') {
        parts_of_concatenation(s, '\t', s);
    }
    let t = a + seq!['\t'] + (b + seq!['\t'] + s);
    if a.len() > 0 && !is_space(a[0]) && s.len() > 0 {
        assert(t[0] == a[0]);
        assert(t.last() == s.last());
        trimming_leaves_the_middle(none, t, none);
        assert(none + t + none =~= t);
        parts_of_concatenation(a, '\t', b + seq!['\t'] + s);
        parts_of_concatenation(b, '\t', s);
        split_then_join(s, '\t');
        assert(parts(t, '\t').len() >= 3);
    }
}

/// As many files are changed as git lists, as far as 32 bits can count them.
pub proof fn changes_are_counted(lines: Seq<Seq<char>>)
    requires
        lines.len() <= u32::MAX,
        forall|k: int|
            0 <= k < lines.len() ==> (#[trigger] lines[k]).len() > 0 && lines[k] != seq!['\r']
                && !lines[k].contains('\n'),
    ensures
        changed_files(listing(lines)) == lines.len(),
{
    let p = |l: Seq<char>| l.len() > 0 && l != seq!['\r'];
    listed_lines_are_counted(lines);
    all_pass(lines, p);
}

proof fn all_pass(s: Seq<Seq<char>>, p: spec_fn(Seq<char>) -> bool)
    requires
        forall|k: int| 0 <= k < s.len() ==> p(#[trigger] s[k]),
    ensures
        s.filter(p) == s,
    decreases s.len(),
{
    reveal(Seq::filter);
    if s.len() > 0 {
        let t = s.drop_last();
        assert forall|k: int| 0 <= k < t.len() implies p(#[trigger] t[k]) by {
            assert(p(s[k]));
        }
        all_pass(t, p);
        assert(p(s[s.len() - 1]));
        assert(s =~= t.push(s.last()));
    } else {
        assert(s.filter(p) =~= s);
    }
}

/// A repository has a remote exactly where git prints something besides white space when
/// it is asked for the remotes.
pub proof fn remotes_are_seen(a: AnswerMap)
    ensures
        remote_exists(a) <==> a.contains_key(GitQuery::Remotes) && a[GitQuery::Remotes] is Some
            && exists|i: int|
            0 <= i < a[GitQuery::Remotes]->0.len() && !is_space(
                #[trigger] a[GitQuery::Remotes]->0[i],
            ),
{
    blank_texts_trim_to_nothing(printed(a, GitQuery::Remotes));
}

/// What git says is what the status shows: the branch, the commits ahead and behind, and
/// the changed files, each by the answer to its own question; and the column follows.
pub proof fn status_shows_what_git_says(
    path: Seq<char>,
    a: AnswerMap,
    branch: Seq<char>,
    ahead: u32,
    behind: u32,
    changes: Seq<Seq<char>>,
    gitea: Seq<Seq<char>>,
    gitlab: Seq<Seq<char>>,
)
    requires
        file_name_of(path) is Some,
        remote_exists(a),
        branch.len() > 0 ==> !is_space(branch[0]) && !is_space(branch.last()),
        changes.len() <= u32::MAX,
        forall|k: int|
            0 <= k < changes.len() ==> (#[trigger] changes[k]).len() > 0 && changes[k]
                != seq!['\r'] && !changes[k].contains('\n'),
        a.contains_pair(GitQuery::CurrentBranch, Some(branch + seq!['\n'])),
        a.contains_pair(
            GitQuery::AheadBehind,
            Some(decimal(ahead as nat) + seq!['\t'] + decimal(behind as nat) + seq!['\n']),
        ),
        a.contains_pair(GitQuery::Changes, Some(listing(changes))),
    ensures
        repo_status(path, a, gitea, gitlab) matches Some(r) && {
            &&& r.path == path
            &&& Some(r.name) == file_name_of(path)
            &&& r.current_branch == branch
            &&& r.ahead == ahead
            &&& r.behind == behind
            &&& r.dirty_files == changes.len()
            &&& r.has_remote
            &&& r.fetch_status is Queued
            &&& r.forge_stats is None
            &&& r.worktrees.len() == 0 && !r.is_worktree
            &&& behind > 0 ==> r.state() == SyncState::Behind
            &&& behind == 0 && changes.len() > 0 ==> r.state() == SyncState::Uncommitted
            &&& behind == 0 && changes.len() == 0 && ahead > 0 ==> r.state() == SyncState::Ahead
            &&& behind == 0 && changes.len() == 0 && ahead == 0 ==> r.state() == SyncState::InSync
        },
{
    counts_are_read(ahead, behind);
    changes_are_counted(changes);
    trimming_leaves_the_middle(seq![], branch, seq!['\n']);
    assert(Seq::<char>::empty() + branch + seq!['\n'] =~= branch + seq!['\n']);
    assert(printed(a, GitQuery::CurrentBranch) == branch + seq!['\n']);
}

/// The default branch is the one that the remote's head points to. Where git does not tell
/// it, it is `main` or else `master`, on the remote before the local ones. Where there is
/// no remote, only the local branches count.
pub proof fn default_branch_is_found(a: AnswerMap, branch: Seq<char>)
    requires
        branch.len() > 0 && !is_space(branch.last()),
    ensures
        ({
            let main = Some("main"@);
            let master = Some("master"@);
            let head = answer(a, GitQuery::RemoteHead);
            let no_head = head is None;
            let remote_main = answer(a, GitQuery::RemoteMain) is Some;
            let remote_master = answer(a, GitQuery::RemoteMaster) is Some;
            let local_main = answer(a, GitQuery::LocalMain) is Some;
            let local_master = answer(a, GitQuery::LocalMaster) is Some;
            let silent = !remote_exists(a) || no_head && !remote_main && !remote_master;
            &&& remote_exists(a) && head == Some("refs/remotes/origin/"@ + branch + seq!['\n'])
                ==> default_branch(a) == Some(branch)
            &&& remote_exists(a) && no_head && remote_main ==> default_branch(a) == main
            &&& remote_exists(a) && no_head && !remote_main && remote_master ==> default_branch(a)
                == master
            &&& silent && local_main ==> default_branch(a) == main
            &&& silent && !local_main && local_master ==> default_branch(a) == master
            &&& silent && !local_main && !local_master ==> default_branch(a) is None
        }),
{
    let prefix = "refs/remotes/origin/"@;
    reveal_strlit("refs/remotes/origin/");
    let name = prefix + branch;
    trimming_leaves_the_middle(seq![], name, seq!['\n']);
    assert(Seq::<char>::empty() + name + seq!['\n'] =~= prefix + branch + seq!['\n']);
    prefix_comes_off(prefix, branch);
}

/// The URL of the remote is what git prints, without the white space around it; only a
/// repository with a remote has one, and with it the remote that the URL denotes.
pub proof fn remote_url_is_kept(
    path: Seq<char>,
    a: AnswerMap,
    url: Seq<char>,
    gitea: Seq<Seq<char>>,
    gitlab: Seq<Seq<char>>,
)
    requires
        file_name_of(path) is Some,
        url.len() > 0 && !is_space(url[0]) && !is_space(url.last()),
        a.contains_pair(GitQuery::OriginUrl, Some(url + seq!['\n'])),
    ensures
        repo_status(path, a, gitea, gitlab) matches Some(r) && {
            &&& remote_exists(a) ==> r.remote_url == Some(url) && r.remote_info == remote_of_url(
                url,
                gitea,
                gitlab,
            )
            &&& !remote_exists(a) ==> r.remote_url is None && r.remote_info is None
            &&& r.forge_status is Queued <==> r.remote_info is Some
            &&& r.forge_status is NotApplicable <==> r.remote_info is None
        },
{
    trimming_leaves_the_middle(seq![], url, seq!['\n']);
    assert(Seq::<char>::empty() + url + seq!['\n'] =~= url + seq!['\n']);
}

/// A worktree shows its own branch and its own changed files.
pub proof fn worktree_shows_what_git_says(
    path: Seq<char>,
    a: WorktreeAnswers,
    branch: Seq<char>,
    changes: Seq<Seq<char>>,
    before: WorktreeView,
)
    requires
        file_name_of(path) is Some,
        branch.len() > 0 ==> !is_space(branch[0]) && !is_space(branch.last()),
        changes.len() <= u32::MAX,
        forall|k: int|
            0 <= k < changes.len() ==> (#[trigger] changes[k]).len() > 0 && changes[k]
                != seq!['\r'] && !changes[k].contains('\n'),
        a.branch matches Some(text) && text@ == branch + seq!['\n'],
        a.changes matches Some(text) && text@ == listing(changes),
    ensures
        worktree_status(path, a) matches Some(w) && {
            &&& w.path == path
            &&& Some(w.name) == file_name_of(path)
            &&& w.branch == branch
            &&& w.dirty_files == changes.len()
        },
        ({
            let w = refreshed_worktree(before, Some(a));
            &&& w.path == before.path && w.name == before.name
            &&& w.branch == branch
            &&& w.dirty_files == changes.len()
        }),
{
    changes_are_counted(changes);
    trimming_leaves_the_middle(seq![], branch, seq!['\n']);
    assert(Seq::<char>::empty() + branch + seq!['\n'] =~= branch + seq!['\n']);
}

/// Asking git again brings the branches and the counts up to date, and leaves everything
/// else; where git says nothing of the repository, that stays too. No worktree comes or
/// goes.
pub proof fn refreshing_brings_up_to_date(
    before: RepoView,
    updated: Option<RepoView>,
    answers: Seq<WorktreeAnswers>,
    k: int,
)
    ensures
        ({
            let after = refreshed(before, updated, answers);
            let source = match updated {
                Some(u) => u,
                None => before,
            };
            &&& after.ahead == source.ahead
            &&& after.behind == source.behind
            &&& after.dirty_files == source.dirty_files
            &&& after.current_branch == source.current_branch
            &&& after.default_branch == source.default_branch
            &&& after.has_remote == source.has_remote
            &&& after.state() == source.state()
            &&& after.path == before.path && after.name == before.name
            &&& after.remote_url == before.remote_url
            &&& after.remote_info == before.remote_info
            &&& after.forge_stats == before.forge_stats
            &&& after.forge_status == before.forge_status
            &&& after.fetch_status == before.fetch_status
            &&& after.is_worktree == before.is_worktree
            &&& after.worktree_main == before.worktree_main
            &&& after.worktrees.len() == before.worktrees.len()
            &&& 0 <= k < before.worktrees.len() ==> {
                &&& after.worktrees[k].path == before.worktrees[k].path
                &&& after.worktrees[k].name == before.worktrees[k].name
                &&& k < answers.len() ==> after.worktrees[k] == refreshed_worktree(
                    before.worktrees[k],
                    Some(answers[k]),
                )
                &&& k >= answers.len() ==> after.worktrees[k] == refreshed_worktree(
                    before.worktrees[k],
                    None,
                )
            }
        }),
{
}

/// A `.git` file that points to `<main>/<git dir>/worktrees/<name>` makes the directory it
/// lies in a worktree of the repository at `<main>`.
pub proof fn worktrees_point_to_their_repository(
    path: Seq<char>,
    content: String,
    main: Seq<char>,
    dir: Seq<char>,
    name: Seq<char>,
)
    requires
        main.len() > 0 && main[0] == '/',
        dir.len() > 0 && !dir.contains('/') && dir != seq!['.'],
        name.len() > 0 && !name.contains('/') && name != seq!['.'],
        !is_space(name.last()),
        content@ == "gitdir: "@ + (main + seq!['/'] + dir + seq!['/'] + "worktrees"@ + seq!['/']
            + name) + seq!['\n'],
    ensures
        ({
            let file = DotGit::File(Some(content));
            &&& entry_at(path, file) matches EntryView::Worktree(found) && same_place(found, main)
            &&& entry_in_container(path, file) == entry_at(path, file)
        }),
{
    let p2 = main + seq!['/'] + dir;
    let p3 = p2 + seq!['/'] + "worktrees"@;
    let gitdir = p3 + seq!['/'] + name;
    let word = "gitdir: "@;
    reveal_strlit("worktrees");
    reveal_strlit("gitdir: ");
    assert(gitdir =~= main + seq!['/'] + dir + seq!['/'] + "worktrees"@ + seq!['/'] + name);
    let line = word + gitdir;
    trimming_leaves_the_middle(seq![], line, seq!['\n']);
    assert(Seq::<char>::empty() + line + seq!['\n'] =~= content@);
    prefix_comes_off(word, gitdir);
    assert(gitdir[0] == '/');
    path_leads_on(main, dir);
    path_leads_on(p2, "worktrees"@);
    path_leads_on(p3, name);
    main_of_gitdir_by_names(gitdir);
    let all = names(gitdir);
    assert(all =~= names(main).push(dir).push("worktrees"@).push(name));
    assert(all.take(all.len() - 3) =~= names(main));
}

/// A directory without anything under the name `.git` is no repository, and one with a
/// directory there is one.
pub proof fn git_directories_make_repositories(path: Seq<char>)
    ensures
        entry_at(path, DotGit::Missing) is Ignored,
        entry_at(path, DotGit::Directory) is Main,
        entry_in_container(path, DotGit::Missing) is Ignored,
        entry_in_container(path, DotGit::Directory) is Main,
        entry_at(path, DotGit::File(None)) is Ignored,
{
}

/// A `.git` file that points anywhere else makes the directory a container of worktrees to
/// the scan, and a repository of its own to the scan of a container.
pub proof fn other_pointers_make_containers(path: Seq<char>, content: String, target: Seq<char>)
    requires
        target.len() > 0 && target[0] == '/' && !is_space(target.last()),
        names(target).len() < 3 || names(target)[names(target).len() - 2] != "worktrees"@,
        content@ == "gitdir: "@ + target + seq!['\n'],
    ensures
        entry_at(path, DotGit::File(Some(content))) == EntryView::Container(target),
        entry_in_container(path, DotGit::File(Some(content))) is Main,
{
    let word = "gitdir: "@;
    reveal_strlit("gitdir: ");
    let line = word + target;
    trimming_leaves_the_middle(seq![], line, seq!['\n']);
    assert(Seq::<char>::empty() + line + seq!['\n'] =~= content@);
    prefix_comes_off(word, target);
    main_of_gitdir_by_names(target);
}

/// A worktree that git says nothing of is on no branch and has no changes.
pub proof fn silent_worktrees_are_empty(before: WorktreeView)
    ensures
        ({
            let after = refreshed_worktree(before, None);
            &&& after.branch.len() == 0
            &&& after.dirty_files == 0
            &&& after.path == before.path
            &&& after.name == before.name
        }),
{
    blank_texts_trim_to_nothing(Seq::<char>::empty());
    listed_lines_are_counted(Seq::empty());
    reveal(Seq::filter);
    assert(listing(Seq::empty()) =~= Seq::<char>::empty());
}

/// The branches `main` and `master` are looked up among the remote's ones, where its head
/// points too, and among the local ones.
pub proof fn branches_are_looked_up(prefix: Seq<char>)
    requires
        prefix == "refs/remotes/origin/"@,
    ensures
        GitQuery::RemoteMain.words().last() == prefix + "main"@,
        GitQuery::RemoteMaster.words().last() == prefix + "master"@,
        GitQuery::RemoteHead.words().last() == prefix + "HEAD"@,
        GitQuery::LocalMain.words().last() == "refs/heads/"@ + "main"@,
        GitQuery::LocalMaster.words().last() == "refs/heads/"@ + "master"@,
        GitQuery::RemoteMain.words().drop_last() == GitQuery::LocalMaster.words().drop_last(),
{
    reveal_strlit("refs/remotes/origin/");
    reveal_strlit("refs/heads/");
    reveal_strlit("main");
    reveal_strlit("master");
    reveal_strlit("HEAD");
    reveal_strlit("refs/remotes/origin/main");
    reveal_strlit("refs/remotes/origin/master");
    reveal_strlit("refs/remotes/origin/HEAD");
    reveal_strlit("refs/heads/main");
    reveal_strlit("refs/heads/master");
    assert("refs/remotes/origin/main"@ =~= prefix + "main"@);
    assert("refs/remotes/origin/master"@ =~= prefix + "master"@);
    assert("refs/remotes/origin/HEAD"@ =~= prefix + "HEAD"@);
    assert("refs/heads/main"@ =~= "refs/heads/"@ + "main"@);
    assert("refs/heads/master"@ =~= "refs/heads/"@ + "master"@);
    assert(GitQuery::RemoteMain.words().drop_last()
        =~= GitQuery::LocalMaster.words().drop_last());
}

/// A command that went well reports what it printed, and one that failed what it wrote to
/// its error stream, without the white space around it; the other stream does not matter.
pub proof fn commands_report_one_stream(text: Seq<char>, other: Seq<char>)
    requires
        text.len() > 0 && !is_space(text[0]) && !is_space(text.last()),
    ensures
        reported(true, text + seq!['\n'], other) == Ok::<Seq<char>, Seq<char>>(text),
        reported(false, other, text + seq!['\n']) == Err::<Seq<char>, Seq<char>>(text),
{
    let none = Seq::<char>::empty();
    trimming_leaves_the_middle(none, text, seq!['\n']);
    assert(none + text + seq!['\n'] =~= text + seq!['\n']);
}

} // verus!
