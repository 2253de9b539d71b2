//! What the commands report: which lines they print and when they fail.

use vstd::prelude::*;
use vstd::string::*;

use crate::filters::filter_one_more;
use crate::git::{refresh_repo_status, refreshed};
use crate::messages::Refresh;
use crate::model::{Repo, RepoView, SyncState};
use crate::number::{decimal, decimal_reads_back, decimal_text, is_digit};
use crate::text::{
    concat, concat3, has_prefix, has_suffix, join, joined, joining_one_more, opt_text, pad, padded,
    parts, parts_of_concatenation, repeat, repeated, repeating_fills, suffix_comes_off,
    texts,
};

verus! {

// ---------------------------------------------------------------------------
// Entries
// ---------------------------------------------------------------------------

/// What the list says about a repository in machine-readable form.
#[derive(Debug)]
pub struct RepoEntry {
    pub name: String,
    pub path: String,
    pub branch: String,
    pub sync_state: &'static str,
    pub ahead: u32,
    pub behind: u32,
    pub dirty_files: u32,
    pub has_remote: bool,
    pub remote_url: Option<String>,
}

impl RepoEntry {
    /// The entry for a repository.
    pub fn from_repo(repo: &Repo) -> (r: RepoEntry)
        ensures
            r.name@ == repo@.name,
            r.path@ == repo@.path,
            r.branch@ == repo@.current_branch,
            r.sync_state@ == repo@.state().key(),
            r.ahead == repo@.ahead,
            r.behind == repo@.behind,
            r.dirty_files == repo@.dirty_files,
            r.has_remote == repo@.has_remote,
            opt_text(r.remote_url) == repo@.remote_url,
    {
        RepoEntry {
            name: repo.name.clone(),
            path: repo.path.clone(),
            branch: repo.current_branch.clone(),
            sync_state: repo.sync_state().json_key(),
            ahead: repo.ahead,
            behind: repo.behind,
            dirty_files: repo.dirty_files,
            has_remote: repo.has_remote,
            remote_url: repo.remote_url.clone(),
        }
    }
}

/// The outcome of the fetch of a repository.
#[derive(Debug)]
pub struct FetchResult {
    pub name: String,
    pub path: String,
    pub success: bool,
    pub error: Option<String>,
}

impl FetchResult {
    /// The entry for the outcome of a fetch.
    pub fn of(name: String, path: String, result: Result<(), String>) -> (r: FetchResult)
        ensures
            r.name == name,
            r.path == path,
            r.success == result is Ok,
            r.error == match result {
                Ok(_) => None::<String>,
                Err(e) => Some(e),
            },
    {
        match result {
            Ok(_) => FetchResult { name, path, success: true, error: None },
            Err(e) => FetchResult { name, path, success: false, error: Some(e) },
        }
    }
}

/// The outcome of the pull of a repository.
#[derive(Debug)]
pub struct PullResult {
    pub name: String,
    pub path: String,
    pub success: bool,
    pub output: Option<String>,
    pub error: Option<String>,
}

impl PullResult {
    /// The entry for the outcome of a pull.
    pub fn of(name: String, path: String, result: Result<String, String>) -> (r: PullResult)
        ensures
            r.name == name,
            r.path == path,
            r.success == result is Ok,
            r.output == match result {
                Ok(text) => Some(text),
                Err(_) => None::<String>,
            },
            r.error == match result {
                Ok(_) => None::<String>,
                Err(e) => Some(e),
            },
    {
        match result {
            Ok(text) => PullResult { name, path, success: true, output: Some(text), error: None },
            Err(e) => PullResult { name, path, success: false, output: None, error: Some(e) },
        }
    }
}

// ---------------------------------------------------------------------------
// Status
// ---------------------------------------------------------------------------

/// How many repositories are in which state.
#[derive(Debug, Clone, Copy, PartialEq, Eq, Structural)]
pub struct StatusSummary {
    pub behind: usize,
    pub uncommitted: usize,
    pub in_sync: usize,
    pub ahead: usize,
    pub total: usize,
}

/// The repositories that are in a state.
pub open spec fn of_state(repos: Seq<Repo>, state: SyncState) -> Seq<Repo> {
    repos.filter(|r: Repo| r@.state() == state)
}

/// The summary counts every repository of `repos` in its state.
pub open spec fn summarizes(s: StatusSummary, repos: Seq<Repo>) -> bool {
    &&& s.behind == of_state(repos, SyncState::Behind).len()
    &&& s.uncommitted == of_state(repos, SyncState::Uncommitted).len()
    &&& s.in_sync == of_state(repos, SyncState::InSync).len()
    &&& s.ahead == of_state(repos, SyncState::Ahead).len()
    &&& s.total == repos.len()
}

/// Every repository is counted once.
pub proof fn states_make_up_the_total(repos: Seq<Repo>)
    ensures
        of_state(repos, SyncState::Behind).len() + of_state(repos, SyncState::Uncommitted).len()
            + of_state(repos, SyncState::InSync).len() + of_state(repos, SyncState::Ahead).len()
            == repos.len(),
    decreases repos.len(),
{
    reveal(Seq::filter);
    if repos.len() > 0 {
        states_make_up_the_total(repos.drop_last());
    }
}

/// A status without anything behind, uncommitted or ahead is one in which every
/// repository is in sync.
pub proof fn clean_means_all_in_sync(s: StatusSummary, repos: Seq<Repo>)
    requires
        summarizes(s, repos),
    ensures
        s.behind == 0 && s.uncommitted == 0 && s.ahead == 0 <==> (forall|k: int|
            0 <= k < repos.len() ==> (#[trigger] repos[k])@.state() == SyncState::InSync),
{
    states_make_up_the_total(repos);
    let p = |r: Repo| r@.state() == SyncState::InSync;
    if s.behind == 0 && s.uncommitted == 0 && s.ahead == 0 {
        assert forall|k: int| 0 <= k < repos.len() implies (#[trigger] repos[k])@.state()
            == SyncState::InSync by {
            let q = |r: Repo| r@.state() == repos[k]@.state();
            repos.lemma_filter_contains(q, k);
            assert(of_state(repos, repos[k]@.state()).len() > 0);
        }
    }
    if forall|k: int| 0 <= k < repos.len() ==> (#[trigger] repos[k])@.state() == SyncState::InSync {
        none_in_other_state(repos, SyncState::Behind);
        none_in_other_state(repos, SyncState::Uncommitted);
        none_in_other_state(repos, SyncState::Ahead);
    }
}

proof fn none_in_other_state(repos: Seq<Repo>, state: SyncState)
    requires
        state != SyncState::InSync,
        forall|k: int|
            0 <= k < repos.len() ==> (#[trigger] repos[k])@.state() == SyncState::InSync,
    ensures
        of_state(repos, state).len() == 0,
{
    let p = |r: Repo| r@.state() == state;
    if of_state(repos, state).len() > 0 {
        repos.lemma_filter_pred(p, 0);
        repos.lemma_filter_contains_rev(p, of_state(repos, state)[0]);
    }
}

/// Counts the repositories by their state.
pub fn count_by_state(repos: &[Repo]) -> (s: StatusSummary)
    ensures
        summarizes(s, repos@),
{
    let mut s = StatusSummary { behind: 0, uncommitted: 0, in_sync: 0, ahead: 0, total: 0 };
    let mut k: usize = 0;
    proof {
        reveal(Seq::filter);
        assert(summarizes(s, repos@.take(0)));
    }
    while k < repos.len()
        invariant
            k <= repos@.len(),
            s.total == k,
            summarizes(s, repos@.take(k as int)),
        decreases repos@.len() - k,
    {
        proof {
            let taken = repos@.take(k as int);
            filter_one_more(repos@, k as int, |r: Repo| r@.state() == SyncState::Behind);
            filter_one_more(repos@, k as int, |r: Repo| r@.state() == SyncState::Uncommitted);
            filter_one_more(repos@, k as int, |r: Repo| r@.state() == SyncState::InSync);
            filter_one_more(repos@, k as int, |r: Repo| r@.state() == SyncState::Ahead);
            states_make_up_the_total(taken);
        }
        match repos[k].sync_state() {
            SyncState::Behind => {
                s.behind = s.behind + 1;
            },
            SyncState::Uncommitted => {
                s.uncommitted = s.uncommitted + 1;
            },
            SyncState::InSync => {
                s.in_sync = s.in_sync + 1;
            },
            SyncState::Ahead => {
                s.ahead = s.ahead + 1;
            },
        }
        k = k + 1;
        s.total = k;
    }
    assert(repos@.take(repos@.len() as int) =~= repos@);
    s
}

impl StatusSummary {
    /// The summary as a line of text.
    pub open spec fn line(self) -> Seq<char> {
        decimal(self.behind as nat) + " behind, "@ + decimal(self.uncommitted as nat)
            + " uncommitted, "@ + decimal(self.in_sync as nat) + " in sync, "@ + decimal(
            self.ahead as nat,
        ) + " ahead"@
    }

    /// The summary as a line of text.
    pub fn text(&self) -> (r: String)
        ensures
            r@ == self.line(),
    {
        let mut out = decimal_text(self.behind as u64);
        out.append(" behind, ");
        out.append(decimal_text(self.uncommitted as u64).as_str());
        out.append(" uncommitted, ");
        out.append(decimal_text(self.in_sync as u64).as_str());
        out.append(" in sync, ");
        out.append(decimal_text(self.ahead as u64).as_str());
        out.append(" ahead");
        out
    }

    /// Nothing is left to do in any repository.
    pub open spec fn nothing_to_do(self) -> bool {
        self.behind == 0 && self.uncommitted == 0 && self.ahead == 0
    }

    /// Whether nothing is left to do in any repository.
    pub fn all_clean(&self) -> (r: bool)
        ensures
            r == (self.behind == 0 && self.uncommitted == 0 && self.ahead == 0),
            r == self.nothing_to_do(),
    {
        self.behind == 0 && self.uncommitted == 0 && self.ahead == 0
    }
}

// ---------------------------------------------------------------------------
// List
// ---------------------------------------------------------------------------

/// One text, if a condition holds.
pub open spec fn text_if(condition: bool, text: Seq<char>) -> Seq<Seq<char>> {
    if condition {
        seq![text]
    } else {
        seq![]
    }
}

/// What the list says about a repository: its name, its branch, and the counts that are
/// not zero.
pub open spec fn entry_parts(r: RepoView) -> Seq<Seq<char>> {
    seq!["  "@ + padded(r.name, 20) + " "@ + r.current_branch] + text_if(
        r.behind > 0,
        "↓"@ + decimal(r.behind as nat),
    ) + text_if(r.ahead > 0, "↑"@ + decimal(r.ahead as nat)) + text_if(
        r.dirty_files > 0,
        "*"@ + decimal(r.dirty_files as nat),
    )
}

/// The line for a repository.
pub open spec fn entry_line(r: RepoView) -> Seq<char> {
    joined(entry_parts(r), "  "@)
}

/// The lines for the repositories of a state: none where there are none, else a heading,
/// a rule, the repositories and an empty line.
pub open spec fn state_lines(repos: Seq<Repo>, state: SyncState) -> Seq<Seq<char>> {
    let within = of_state(repos, state);
    if within.len() == 0 {
        seq![]
    } else {
        seq![
            state.heading() + " ("@ + decimal(within.len()) + ")"@,
            repeated("─"@, state.heading().len() + 4),
        ] + within.map_values(|r: Repo| entry_line(r@)) + seq![""@]
    }
}

/// The lines of the list, state by state in the order of the columns.
pub open spec fn list_text(repos: Seq<Repo>) -> Seq<Seq<char>> {
    state_lines(repos, SyncState::Behind) + state_lines(repos, SyncState::Uncommitted)
        + state_lines(repos, SyncState::InSync) + state_lines(repos, SyncState::Ahead)
}

proof fn texts_push(v: Seq<String>, s: String)
    ensures
        texts(v.push(s)) == texts(v).push(s@),
{
    assert(texts(v.push(s)) =~= texts(v).push(s@));
}

fn list_line(repo: &Repo) -> (r: String)
    ensures
        r@ == entry_line(repo@),
{
    let mut parts: Vec<String> = Vec::new();
    let name = concat3("  ", pad(repo.name.as_str(), 20).as_str(), " ");
    parts.push(concat(name.as_str(), repo.current_branch.as_str()));
    if repo.behind > 0 {
        parts.push(concat("↓", decimal_text(repo.behind as u64).as_str()));
    }
    if repo.ahead > 0 {
        parts.push(concat("↑", decimal_text(repo.ahead as u64).as_str()));
    }
    if repo.dirty_files > 0 {
        parts.push(concat("*", decimal_text(repo.dirty_files as u64).as_str()));
    }
    assert(texts(parts@) =~= entry_parts(repo@));
    join(&parts, "  ")
}

fn list_state(repos: &Vec<Repo>, state: SyncState) -> (r: Vec<String>)
    ensures
        texts(r@) == state_lines(repos@, state),
{
    let ghost p = |r: Repo| r@.state() == state;
    let ghost f = |r: Repo| entry_line(r@);
    let mut lines: Vec<String> = Vec::new();
    let mut k: usize = 0;
    proof {
        reveal(Seq::filter);
        assert(texts(lines@) =~= repos@.take(0).filter(p).map_values(f));
    }
    while k < repos.len()
        invariant
            k <= repos.len(),
            p == (|r: Repo| r@.state() == state),
            f == (|r: Repo| entry_line(r@)),
            texts(lines@) == repos@.take(k as int).filter(p).map_values(f),
        decreases repos.len() - k,
    {
        let repo = &repos[k];
        proof {
            filter_one_more(repos@, k as int, p);
        }
        if repo.sync_state() == state {
            let line = list_line(repo);
            proof {
                texts_push(lines@, line);
                assert(repos@.take(k as int).filter(p).push(*repo).map_values(f) =~= repos@.take(
                    k as int,
                ).filter(p).map_values(f).push(f(*repo)));
            }
            lines.push(line);
        }
        k = k + 1;
    }
    assert(repos@.take(repos@.len() as int) =~= repos@);
    let ghost within = of_state(repos@, state);
    assert(texts(lines@) == within.map_values(f));
    assert(texts(lines@).len() == lines@.len());
    if lines.len() == 0 {
        return lines;
    }
    let label = state.label();
    let count = decimal_text(lines.len() as u64);
    let mut out: Vec<String> = Vec::new();
    let head = concat3(label, " (", count.as_str());
    out.push(concat(head.as_str(), ")"));
    proof {
        reveal_strlit("Behind");
        reveal_strlit("Uncommitted");
        reveal_strlit("In Sync");
        reveal_strlit("Ahead");
    }
    let width: usize = label.unicode_len() + 4;
    out.push(repeat("─", width));
    let ghost start = texts(out@);
    let ghost body = lines@;
    assert(start =~= seq![
        state.heading() + " ("@ + decimal(within.len()) + ")"@,
        repeated("─"@, state.heading().len() + 4),
    ]);
    out.append(&mut lines);
    out.push("".to_owned());
    assert(texts(out@) =~= start + texts(body) + seq![""@]);
    out
}

/// The lines of the list of repositories grouped by sync state.
pub fn list_lines(repos: &Vec<Repo>) -> (r: Vec<String>)
    ensures
        texts(r@) == list_text(repos@),
{
    let mut behind = list_state(repos, SyncState::Behind);
    let mut uncommitted = list_state(repos, SyncState::Uncommitted);
    let mut in_sync = list_state(repos, SyncState::InSync);
    let mut ahead = list_state(repos, SyncState::Ahead);
    let ghost a = behind@;
    let ghost b = uncommitted@;
    let ghost c = in_sync@;
    let ghost d = ahead@;
    behind.append(&mut uncommitted);
    behind.append(&mut in_sync);
    behind.append(&mut ahead);
    assert(texts(behind@) =~= texts(a) + texts(b) + texts(c) + texts(d));
    behind
}

/// The list has a line for every repository.
pub proof fn every_repo_is_listed(repos: Seq<Repo>, k: int)
    requires
        0 <= k < repos.len(),
    ensures
        list_text(repos).contains(entry_line(repos[k]@)),
{
    let state = repos[k]@.state();
    let p = |r: Repo| r@.state() == state;
    let within = of_state(repos, state);
    repos.lemma_filter_contains(p, k);
    let m = choose|m: int| 0 <= m < within.len() && within[m] == repos[k];
    let a = state_lines(repos, SyncState::Behind);
    let b = state_lines(repos, SyncState::Uncommitted);
    let c = state_lines(repos, SyncState::InSync);
    let before = match state {
        SyncState::Behind => 0int,
        SyncState::Uncommitted => a.len() as int,
        SyncState::InSync => (a + b).len() as int,
        SyncState::Ahead => (a + b + c).len() as int,
    };
    assert(state_lines(repos, state)[m + 2] == entry_line(repos[k]@));
    assert(list_text(repos)[before + m + 2] == entry_line(repos[k]@));
}

// ---------------------------------------------------------------------------
// Fetch
// ---------------------------------------------------------------------------

/// The models of names with paths.
pub open spec fn pair_views(s: Seq<(String, String)>) -> Seq<(Seq<char>, Seq<char>)> {
    s.map_values(|x: (String, String)| (x.0@, x.1@))
}

/// Name and path of every repository that `chosen` holds of.
pub open spec fn work_for(
    repos: Seq<Repo>,
    chosen: spec_fn(Repo) -> bool,
) -> Seq<(Seq<char>, Seq<char>)> {
    repos.filter(chosen).map_values(|r: Repo| (r.name@, r.path@))
}

/// Those of the outcomes that are failures.
pub open spec fn failed_fetches(results: Seq<FetchResult>) -> Seq<FetchResult> {
    results.filter(|r: FetchResult| !r.success)
}

/// The message of an error, where there is one.
pub open spec fn error_or_unknown(error: Option<String>) -> Seq<char> {
    match error {
        Some(e) => e@,
        None => "unknown"@,
    }
}

/// The line for the outcome of a fetch.
pub open spec fn fetch_line_text(r: FetchResult) -> Seq<char> {
    if r.success {
        "  "@ + r.name@ + " ok"@
    } else {
        "  "@ + r.name@ + " failed: "@ + error_or_unknown(r.error)
    }
}

/// The line that sums up an action on `total` repositories.
pub open spec fn summary_text(verb: Seq<char>, total: nat, failed: nat) -> Seq<char> {
    verb + " "@ + decimal(total) + " repos ("@ + decimal((total - failed) as nat) + " ok, "@
        + decimal(failed) + " failed)"@
}

/// The lines of the report on fetches.
pub open spec fn fetch_text(results: Seq<FetchResult>) -> Seq<Seq<char>> {
    results.map_values(|r: FetchResult| fetch_line_text(r)).push(
        summary_text("Fetched"@, results.len(), failed_fetches(results).len()),
    )
}

fn work_item(repo: &Repo) -> (r: (String, String))
    ensures
        (r.0@, r.1@) == (repo.name@, repo.path@),
{
    (repo.name.clone(), repo.path.clone())
}

/// Name and path of the repositories to fetch: those that have a remote.
pub fn fetch_work(repos: &Vec<Repo>) -> (r: Vec<(String, String)>)
    ensures
        pair_views(r@) == work_for(repos@, |x: Repo| x.has_remote),
{
    let ghost p = |x: Repo| x.has_remote;
    let ghost f = |x: Repo| (x.name@, x.path@);
    let mut out: Vec<(String, String)> = Vec::new();
    let mut k: usize = 0;
    proof {
        reveal(Seq::filter);
        assert(pair_views(out@) =~= repos@.take(0).filter(p).map_values(f));
    }
    while k < repos.len()
        invariant
            k <= repos.len(),
            p == (|x: Repo| x.has_remote),
            f == (|x: Repo| (x.name@, x.path@)),
            pair_views(out@) == repos@.take(k as int).filter(p).map_values(f),
        decreases repos.len() - k,
    {
        let repo = &repos[k];
        proof {
            filter_one_more(repos@, k as int, p);
        }
        if repo.has_remote {
            let ghost before = out@;
            out.push(work_item(repo));
            assert(pair_views(out@) =~= pair_views(before).push(f(*repo)));
            assert(repos@.take(k as int).filter(p).push(*repo).map_values(f) =~= repos@.take(
                k as int,
            ).filter(p).map_values(f).push(f(*repo)));
        }
        k = k + 1;
    }
    assert(repos@.take(repos@.len() as int) =~= repos@);
    out
}

/// Takes over what git says about the repositories after the fetches; those without a
/// remote stay as they are.
pub fn refresh_fetched(repos: &mut Vec<Repo>, refreshes: Vec<Refresh>)
    requires
        refreshes@.len() == old(repos)@.len(),
    ensures
        final(repos)@.len() == old(repos)@.len(),
        forall|k: int|
            0 <= k < old(repos)@.len() ==> (#[trigger] final(repos)@[k])@ == (if old(
                repos,
            )@[k]@.has_remote {
                refreshed(
                    old(repos)@[k]@,
                    refreshes@[k].status_view(),
                    refreshes@[k].worktrees@,
                )
            } else {
                old(repos)@[k]@
            }),
{
    let ghost before = repos@;
    let ghost given = refreshes@;
    let mut left = refreshes;
    while left.len() > 0
        invariant
            repos@.len() == before.len(),
            given.len() == before.len(),
            left@.len() <= given.len(),
            left@ == given.take(left@.len() as int),
            forall|k: int| 0 <= k < left@.len() ==> #[trigger] repos@[k] == before[k],
            forall|k: int|
                left@.len() <= k < before.len() ==> (#[trigger] repos@[k])@ == (
                if before[k]@.has_remote {
                    refreshed(before[k]@, given[k].status_view(), given[k].worktrees@)
                } else {
                    before[k]@
                }),
        decreases left@.len(),
    {
        let ghost n = left@.len() as int;
        let popped = left.pop();
        let refresh = popped.unwrap();
        let at: usize = left.len();
        assert(refresh == given[at as int]);
        assert(given.take(n).drop_last() =~= given.take(n - 1));
        if repos[at].has_remote {
            refresh_repo_status(&mut repos[at], refresh.status, &refresh.worktrees);
        }
    }
}

fn error_text(error: &Option<String>) -> (r: &str)
    ensures
        r@ == error_or_unknown(*error),
{
    match error {
        Some(e) => e.as_str(),
        None => "unknown",
    }
}

fn fetch_line(r: &FetchResult) -> (line: String)
    ensures
        line@ == fetch_line_text(*r),
{
    if r.success {
        concat3("  ", r.name.as_str(), " ok")
    } else {
        let head = concat3("  ", r.name.as_str(), " failed: ");
        concat(head.as_str(), error_text(&r.error))
    }
}

fn summary_line(verb: &str, total: usize, failed: usize) -> (r: String)
    requires
        failed <= total,
    ensures
        r@ == summary_text(verb@, total as nat, failed as nat),
{
    let mut out = concat3(verb, " ", decimal_text(total as u64).as_str());
    out.append(" repos (");
    out.append(decimal_text((total - failed) as u64).as_str());
    out.append(" ok, ");
    out.append(decimal_text(failed as u64).as_str());
    out.append(" failed)");
    out
}

fn count_failed_fetches(results: &Vec<FetchResult>) -> (r: usize)
    ensures
        r == failed_fetches(results@).len(),
        r <= results@.len(),
{
    let ghost p = |r: FetchResult| !r.success;
    let mut n: usize = 0;
    let mut k: usize = 0;
    proof {
        reveal(Seq::filter);
        assert(results@.take(0).filter(p).len() == 0);
    }
    while k < results.len()
        invariant
            n <= k <= results.len(),
            p == (|r: FetchResult| !r.success),
            n == results@.take(k as int).filter(p).len(),
        decreases results.len() - k,
    {
        proof {
            filter_one_more(results@, k as int, p);
        }
        if !results[k].success {
            n = n + 1;
        }
        k = k + 1;
    }
    assert(results@.take(results@.len() as int) =~= results@);
    n
}

/// The lines of the report on fetches.
pub fn fetch_lines(results: &Vec<FetchResult>) -> (r: Vec<String>)
    ensures
        texts(r@) == fetch_text(results@),
{
    let ghost f = |r: FetchResult| fetch_line_text(r);
    let mut out: Vec<String> = Vec::new();
    let mut k: usize = 0;
    while k < results.len()
        invariant
            k <= results.len(),
            f == (|r: FetchResult| fetch_line_text(r)),
            texts(out@) =~= results@.map_values(f).take(k as int),
        decreases results.len() - k,
    {
        let line = fetch_line(&results[k]);
        proof {
            texts_push(out@, line);
        }
        out.push(line);
        k = k + 1;
    }
    assert(texts(out@) =~= results@.map_values(f));
    let failed: usize = count_failed_fetches(results);
    let last = summary_line("Fetched", results.len(), failed);
    proof {
        texts_push(out@, last);
    }
    out.push(last);
    out
}

/// Whether one of the fetches failed.
pub fn any_fetch_failed(results: &Vec<FetchResult>) -> (r: bool)
    ensures
        r == (failed_fetches(results@).len() > 0),
{
    count_failed_fetches(results) > 0
}

// ---------------------------------------------------------------------------
// Pull
// ---------------------------------------------------------------------------

/// The line for a fetch that failed before the pulls.
pub open spec fn fetch_failure_text(r: FetchResult) -> Seq<char> {
    "  fetch "@ + r.name@ + " failed: "@ + error_or_unknown(r.error)
}

/// The lines for the fetches that failed before the pulls.
pub open spec fn fetch_failures_text(results: Seq<FetchResult>) -> Seq<Seq<char>> {
    failed_fetches(results).map_values(|r: FetchResult| fetch_failure_text(r))
}

/// Name and path of the repositories that are behind.
pub open spec fn work_to_pull(repos: Seq<Repo>) -> Seq<(Seq<char>, Seq<char>)> {
    work_for(repos, |r: Repo| r@.state() == SyncState::Behind)
}

/// Those of the outcomes that are failures.
pub open spec fn failed_pulls(results: Seq<PullResult>) -> Seq<PullResult> {
    results.filter(|r: PullResult| !r.success)
}

/// The line for the outcome of a pull.
pub open spec fn pull_line_text(r: PullResult) -> Seq<char> {
    if r.success {
        "  "@ + r.name@ + " pulled"@
    } else {
        "  "@ + r.name@ + " failed: "@ + error_or_unknown(r.error)
    }
}

/// What there is to do after the fetches.
#[derive(Debug)]
pub enum PullPlan {
    /// Nothing: print the lines and end, as a failure or not.
    Stop { lines: Vec<String>, failed: bool },
    /// Print the lines and pull the repositories, given by name and path.
    Pull { lines: Vec<String>, work: Vec<(String, String)> },
}

/// The plan for the pulls: in machine-readable form nothing is printed yet, and an empty
/// list is a result too.
pub open spec fn pull_planned(
    plan: PullPlan,
    repos: Seq<Repo>,
    fetches: Seq<FetchResult>,
    json: bool,
) -> bool {
    let work = work_to_pull(repos);
    let lines = if json {
        seq![]
    } else {
        fetch_failures_text(fetches)
    };
    match plan {
        PullPlan::Stop { lines: printed, failed } => {
            &&& work.len() == 0 && !json
            &&& texts(printed@) == lines.push("No repos are behind — nothing to pull."@)
            &&& failed == (failed_fetches(fetches).len() > 0)
        },
        PullPlan::Pull { lines: printed, work: given } => {
            &&& work.len() > 0 || json
            &&& texts(printed@) == lines
            &&& pair_views(given@) == work
        },
    }
}

fn fetch_failure_lines(results: &Vec<FetchResult>) -> (r: Vec<String>)
    ensures
        texts(r@) == fetch_failures_text(results@),
{
    let ghost p = |r: FetchResult| !r.success;
    let ghost f = |r: FetchResult| fetch_failure_text(r);
    let mut out: Vec<String> = Vec::new();
    let mut k: usize = 0;
    proof {
        reveal(Seq::filter);
        assert(texts(out@) =~= results@.take(0).filter(p).map_values(f));
    }
    while k < results.len()
        invariant
            k <= results.len(),
            p == (|r: FetchResult| !r.success),
            f == (|r: FetchResult| fetch_failure_text(r)),
            texts(out@) == results@.take(k as int).filter(p).map_values(f),
        decreases results.len() - k,
    {
        let r = &results[k];
        proof {
            filter_one_more(results@, k as int, p);
        }
        if !r.success {
            let head = concat3("  fetch ", r.name.as_str(), " failed: ");
            let line = concat(head.as_str(), error_text(&r.error));
            proof {
                texts_push(out@, line);
                assert(results@.take(k as int).filter(p).push(*r).map_values(f) =~= results@.take(
                    k as int,
                ).filter(p).map_values(f).push(f(*r)));
            }
            out.push(line);
        }
        k = k + 1;
    }
    assert(results@.take(results@.len() as int) =~= results@);
    out
}

fn pull_work(repos: &Vec<Repo>) -> (r: Vec<(String, String)>)
    ensures
        pair_views(r@) == work_to_pull(repos@),
{
    let ghost p = |x: Repo| x@.state() == SyncState::Behind;
    let ghost f = |x: Repo| (x.name@, x.path@);
    let mut out: Vec<(String, String)> = Vec::new();
    let mut k: usize = 0;
    proof {
        reveal(Seq::filter);
        assert(pair_views(out@) =~= repos@.take(0).filter(p).map_values(f));
    }
    while k < repos.len()
        invariant
            k <= repos.len(),
            p == (|x: Repo| x@.state() == SyncState::Behind),
            f == (|x: Repo| (x.name@, x.path@)),
            pair_views(out@) == repos@.take(k as int).filter(p).map_values(f),
        decreases repos.len() - k,
    {
        let repo = &repos[k];
        proof {
            filter_one_more(repos@, k as int, p);
        }
        if repo.sync_state() == SyncState::Behind {
            let ghost before = out@;
            out.push(work_item(repo));
            assert(pair_views(out@) =~= pair_views(before).push(f(*repo)));
            assert(repos@.take(k as int).filter(p).push(*repo).map_values(f) =~= repos@.take(
                k as int,
            ).filter(p).map_values(f).push(f(*repo)));
        }
        k = k + 1;
    }
    assert(repos@.take(repos@.len() as int) =~= repos@);
    out
}

/// Plans the pulls of the repositories that are behind after the fetches.
pub fn plan_pull(repos: &Vec<Repo>, fetches: &Vec<FetchResult>, json: bool) -> (r: PullPlan)
    ensures
        pull_planned(r, repos@, fetches@, json),
{
    let work = pull_work(repos);
    let mut lines: Vec<String> = if json {
        Vec::new()
    } else {
        fetch_failure_lines(fetches)
    };
    assert(json ==> texts(lines@) =~= seq![]);
    assert(pair_views(work@).len() == work@.len());
    if work.len() == 0 && !json {
        let last = "No repos are behind — nothing to pull.".to_owned();
        proof {
            texts_push(lines@, last);
        }
        lines.push(last);
        PullPlan::Stop { lines, failed: any_fetch_failed(fetches) }
    } else {
        PullPlan::Pull { lines, work }
    }
}

/// The line for the outcome of a pull.
pub fn pull_line(r: &PullResult) -> (line: String)
    ensures
        line@ == pull_line_text(*r),
{
    if r.success {
        concat3("  ", r.name.as_str(), " pulled")
    } else {
        let head = concat3("  ", r.name.as_str(), " failed: ");
        concat(head.as_str(), error_text(&r.error))
    }
}

fn count_failed_pulls(results: &Vec<PullResult>) -> (r: usize)
    ensures
        r == failed_pulls(results@).len(),
        r <= results@.len(),
{
    let ghost p = |r: PullResult| !r.success;
    let mut n: usize = 0;
    let mut k: usize = 0;
    proof {
        reveal(Seq::filter);
        assert(results@.take(0).filter(p).len() == 0);
    }
    while k < results.len()
        invariant
            n <= k <= results.len(),
            p == (|r: PullResult| !r.success),
            n == results@.take(k as int).filter(p).len(),
        decreases results.len() - k,
    {
        proof {
            filter_one_more(results@, k as int, p);
        }
        if !results[k].success {
            n = n + 1;
        }
        k = k + 1;
    }
    assert(results@.take(results@.len() as int) =~= results@);
    n
}

/// The line that sums up the pulls.
pub fn pull_summary(results: &Vec<PullResult>) -> (r: String)
    ensures
        r@ == summary_text("Pulled"@, results@.len(), failed_pulls(results@).len()),
{
    let failed: usize = count_failed_pulls(results);
    summary_line("Pulled", results.len(), failed)
}

/// A pull failed, or a fetch before it.
pub open spec fn something_failed(results: Seq<PullResult>, fetches: Seq<FetchResult>) -> bool {
    failed_pulls(results).len() > 0 || failed_fetches(fetches).len() > 0
}

/// Whether a pull failed, or a fetch before it.
pub fn pull_failed(results: &Vec<PullResult>, fetches: &Vec<FetchResult>) -> (r: bool)
    ensures
        r == (failed_pulls(results@).len() > 0 || failed_fetches(fetches@).len() > 0),
        r == something_failed(results@, fetches@),
{
    count_failed_pulls(results) > 0 || any_fetch_failed(fetches)
}

/// A repository that is behind is pulled, and no other.
pub proof fn exactly_the_behind_are_pulled(repos: Seq<Repo>, k: int)
    requires
        0 <= k < repos.len(),
    ensures
        repos[k]@.behind > 0 ==> work_to_pull(repos).contains((repos[k].name@, repos[k].path@)),
        forall|item: (Seq<char>, Seq<char>)| #[trigger]
            work_to_pull(repos).contains(item) ==> exists|j: int|
                0 <= j < repos.len() && (#[trigger] repos[j])@.behind > 0 && item == (
                    repos[j].name@,
                    repos[j].path@,
                ),
{
    let p = |r: Repo| r@.state() == SyncState::Behind;
    let f = |r: Repo| (r.name@, r.path@);
    let within = repos.filter(p);
    if repos[k]@.behind > 0 {
        repos.lemma_filter_contains(p, k);
        let m = choose|m: int| 0 <= m < within.len() && within[m] == repos[k];
        assert(within.map_values(f)[m] == (repos[k].name@, repos[k].path@));
    }
    assert forall|item: (Seq<char>, Seq<char>)| #[trigger]
        work_to_pull(repos).contains(item) implies exists|j: int|
        0 <= j < repos.len() && (#[trigger] repos[j])@.behind > 0 && item == (
            repos[j].name@,
            repos[j].path@,
        ) by {
        let m = choose|m: int| 0 <= m < within.len() && within.map_values(f)[m] == item;
        repos.lemma_filter_pred(p, m);
        repos.lemma_filter_contains_rev(p, within[m]);
        let j = choose|j: int| 0 <= j < repos.len() && repos[j] == within[m];
        assert(repos[j]@.behind > 0);
    }
}

// ---------------------------------------------------------------------------
// Laws on what is printed
// ---------------------------------------------------------------------------

proof fn joined_with(parts: Seq<Seq<char>>, more: Seq<Seq<char>>, sep: Seq<char>)
    requires
        parts.len() > 0,
        more.len() <= 1,
    ensures
        joined(parts + more, sep) == joined(parts, sep) + (if more.len() == 1 {
            sep + more[0]
        } else {
            Seq::<char>::empty()
        }),
{
    if more.len() == 1 {
        assert(parts + more =~= parts.push(more[0]));
        joining_one_more(parts, more[0], sep);
        assert(joined(parts, sep) + (sep + more[0]) =~= joined(parts, sep) + sep + more[0]);
    } else {
        assert(parts + more =~= parts);
        assert(joined(parts, sep) + Seq::<char>::empty() =~= joined(parts, sep));
    }
}

/// The line for a repository is that of the same repository with nothing to do, with what
/// there is to pull, to push and to commit behind it: each number exactly where it is not
/// zero, whatever the others are.
pub proof fn list_line_tells_each_count(r: RepoView, idle: RepoView)
    requires
        idle == (RepoView { behind: 0, ahead: 0, dirty_files: 0, ..r }),
    ensures
        ({
            let behind = if r.behind > 0 {
                "  ↓"@ + decimal(r.behind as nat)
            } else {
                Seq::<char>::empty()
            };
            let ahead = if r.ahead > 0 {
                "  ↑"@ + decimal(r.ahead as nat)
            } else {
                Seq::<char>::empty()
            };
            let dirty = if r.dirty_files > 0 {
                "  *"@ + decimal(r.dirty_files as nat)
            } else {
                Seq::<char>::empty()
            };
            &&& entry_line(r) == entry_line(idle) + behind + ahead + dirty
            &&& entry_line(idle) == "  "@ + padded(r.name, 20) + " "@ + r.current_branch
        }),
{
    let sep = "  "@;
    let head = seq!["  "@ + padded(r.name, 20) + " "@ + r.current_branch];
    let b = text_if(r.behind > 0, "↓"@ + decimal(r.behind as nat));
    let a = text_if(r.ahead > 0, "↑"@ + decimal(r.ahead as nat));
    let d = text_if(r.dirty_files > 0, "*"@ + decimal(r.dirty_files as nat));
    reveal_strlit("  ");
    reveal_strlit("↓");
    reveal_strlit("↑");
    reveal_strlit("*");
    reveal_strlit("  ↓");
    reveal_strlit("  ↑");
    reveal_strlit("  *");
    assert(sep + ("↓"@ + decimal(r.behind as nat)) =~= "  ↓"@ + decimal(r.behind as nat));
    assert(sep + ("↑"@ + decimal(r.ahead as nat)) =~= "  ↑"@ + decimal(r.ahead as nat));
    assert(sep + ("*"@ + decimal(r.dirty_files as nat)) =~= "  *"@ + decimal(
        r.dirty_files as nat,
    ));
    joined_with(head, b, sep);
    joined_with(head + b, a, sep);
    joined_with(head + b + a, d, sep);
    assert(entry_parts(idle) =~= head);
}

/// The list holds the repositories of each state under its heading with their number, in
/// the order of the columns, and nothing of a state without repositories.
pub proof fn list_is_grouped_by_state(repos: Seq<Repo>, state: SyncState, k: int)
    requires
        0 <= k < of_state(repos, state).len(),
    ensures
        ({
            let lines = state_lines(repos, state);
            let within = of_state(repos, state);
            &&& lines.len() == within.len() + 3
            &&& lines[0] == state.heading() + " ("@ + decimal(within.len()) + ")"@
            &&& lines[k + 2] == entry_line(within[k]@)
            &&& lines.last().len() == 0
            &&& within[k]@.state() == state
        }),
        list_text(repos).len() == state_lines(repos, SyncState::Behind).len() + state_lines(
            repos,
            SyncState::Uncommitted,
        ).len() + state_lines(repos, SyncState::InSync).len() + state_lines(
            repos,
            SyncState::Ahead,
        ).len(),
{
    reveal_strlit("");
    repos.lemma_filter_pred(|r: Repo| r@.state() == state, k);
}

/// A state without repositories takes no line of the list, and behind it stand the lines of
/// the states whose columns follow.
pub proof fn list_follows_the_columns(repos: Seq<Repo>)
    ensures
        of_state(repos, SyncState::Behind).len() == 0 ==> list_text(repos) == state_lines(
            repos,
            SyncState::Uncommitted,
        ) + state_lines(repos, SyncState::InSync) + state_lines(repos, SyncState::Ahead),
        list_text(repos).take(state_lines(repos, SyncState::Behind).len() as int) == state_lines(
            repos,
            SyncState::Behind,
        ),
        list_text(repos).skip(
            list_text(repos).len() - state_lines(repos, SyncState::Ahead).len(),
        ) == state_lines(repos, SyncState::Ahead),
{
    let a = state_lines(repos, SyncState::Behind);
    let b = state_lines(repos, SyncState::Uncommitted);
    let c = state_lines(repos, SyncState::InSync);
    let d = state_lines(repos, SyncState::Ahead);
    assert(list_text(repos).take(a.len() as int) =~= a);
    assert(list_text(repos).skip(list_text(repos).len() - d.len()) =~= d);
    if of_state(repos, SyncState::Behind).len() == 0 {
        assert(list_text(repos) =~= b + c + d);
    }
}

/// The status is one line of four parts with commas between them: what is behind, what is
/// uncommitted, what is in sync and what is ahead, each with its number.
pub proof fn status_line_has_four_parts(s: StatusSummary)
    ensures
        parts(s.line(), ',') == seq![
            decimal(s.behind as nat) + " behind"@,
            " "@ + decimal(s.uncommitted as nat) + " uncommitted"@,
            " "@ + decimal(s.in_sync as nat) + " in sync"@,
            " "@ + decimal(s.ahead as nat) + " ahead"@,
        ],
{
    let p0 = decimal(s.behind as nat) + " behind"@;
    let p1 = " "@ + decimal(s.uncommitted as nat) + " uncommitted"@;
    let p2 = " "@ + decimal(s.in_sync as nat) + " in sync"@;
    let p3 = " "@ + decimal(s.ahead as nat) + " ahead"@;
    reveal_strlit(" ");
    reveal_strlit(" behind");
    reveal_strlit(" behind, ");
    reveal_strlit(" uncommitted");
    reveal_strlit(" uncommitted, ");
    reveal_strlit(" in sync");
    reveal_strlit(" in sync, ");
    reveal_strlit(" ahead");
    assert(" behind, "@ =~= " behind"@ + seq![','] + " "@);
    assert(" uncommitted, "@ =~= " uncommitted"@ + seq![','] + " "@);
    assert(" in sync, "@ =~= " in sync"@ + seq![','] + " "@);
    let r2 = p2 + seq![','] + p3;
    let r1 = p1 + seq![','] + r2;
    assert(s.line() =~= p0 + seq![','] + r1);
    no_comma(Seq::empty(), s.behind as nat, " behind"@);
    assert(Seq::<char>::empty() + decimal(s.behind as nat) + " behind"@ =~= p0);
    no_comma(" "@, s.uncommitted as nat, " uncommitted"@);
    no_comma(" "@, s.in_sync as nat, " in sync"@);
    no_comma(" "@, s.ahead as nat, " ahead"@);
    parts_of_concatenation(p0, ',', r1);
    parts_of_concatenation(p1, ',', r2);
    parts_of_concatenation(p2, ',', p3);
    parts_of_concatenation(p3, ',', p3);
    assert(parts(s.line(), ',') =~= seq![p0, p1, p2, p3]);
}

proof fn no_comma(head: Seq<char>, n: nat, tail: Seq<char>)
    requires
        !head.contains(','),
        !tail.contains(','),
    ensures
        !(head + decimal(n) + tail).contains(','),
{
    let d = decimal(n);
    let s = head + d + tail;
    decimal_reads_back(n);
    if s.contains(',') {
        let k = choose|k: int| 0 <= k < s.len() && s[k] == ',';
        if k < head.len() {
            assert(head[k] == ',');
        } else if k < head.len() + d.len() {
            assert(is_digit(d[k - head.len()]));
        } else {
            assert(tail[k - head.len() - d.len()] == ',');
        }
    }
}

/// The report on fetches ends with how many there were, how many of them went well, and how
/// many did not: as many as are marked so. Where none failed, all went well.
pub proof fn fetch_summary_counts_outcomes(results: Seq<FetchResult>)
    ensures
        ({
            let ok = results.filter(|r: FetchResult| r.success).len();
            let failed = results.filter(|r: FetchResult| !r.success).len();
            &&& ok + failed == results.len()
            &&& fetch_text(results).last() == "Fetched "@ + decimal(results.len()) + " repos ("@
                + decimal(ok) + " ok, "@ + decimal(failed) + " failed)"@
            &&& (forall|k: int| 0 <= k < results.len() ==> (#[trigger] results[k]).success)
                ==> has_suffix(
                fetch_text(results).last(),
                "("@ + decimal(results.len()) + " ok, 0 failed)"@,
            )
        }),
{
    let p = |r: FetchResult| r.success;
    let q = |r: FetchResult| !r.success;
    fetches_divide(results);
    reveal_strlit("Fetched");
    reveal_strlit("Fetched ");
    reveal_strlit(" ");
    assert("Fetched "@ =~= "Fetched"@ + " "@);
    let n = results.len();
    if forall|k: int| 0 <= k < n ==> (#[trigger] results[k]).success {
        if results.filter(q).len() > 0 {
            results.lemma_filter_pred(q, 0);
            results.lemma_filter_contains_rev(q, results.filter(q)[0]);
        }
        summary_of_success("Fetched"@, n);
    }
}

/// The same holds of the pulls.
pub proof fn pull_summary_counts_outcomes(results: Seq<PullResult>)
    ensures
        ({
            let ok = results.filter(|r: PullResult| r.success).len();
            let failed = results.filter(|r: PullResult| !r.success).len();
            let line = summary_text("Pulled"@, results.len(), failed_pulls(results).len());
            &&& ok + failed == results.len()
            &&& line == "Pulled "@ + decimal(results.len()) + " repos ("@ + decimal(ok) + " ok, "@
                + decimal(failed) + " failed)"@
            &&& (forall|k: int| 0 <= k < results.len() ==> (#[trigger] results[k]).success)
                ==> has_suffix(line, "("@ + decimal(results.len()) + " ok, 0 failed)"@)
        }),
{
    let q = |r: PullResult| !r.success;
    pulls_divide(results);
    reveal_strlit("Pulled");
    reveal_strlit("Pulled ");
    reveal_strlit(" ");
    assert("Pulled "@ =~= "Pulled"@ + " "@);
    let n = results.len();
    if forall|k: int| 0 <= k < n ==> (#[trigger] results[k]).success {
        if results.filter(q).len() > 0 {
            results.lemma_filter_pred(q, 0);
            results.lemma_filter_contains_rev(q, results.filter(q)[0]);
        }
        summary_of_success("Pulled"@, n);
    }
}

proof fn summary_of_success(verb: Seq<char>, n: nat)
    ensures
        has_suffix(summary_text(verb, n, 0), "("@ + decimal(n) + " ok, 0 failed)"@),
{
    reveal_strlit(" repos (");
    reveal_strlit("(");
    reveal_strlit(" ok, ");
    reveal_strlit(" failed)");
    reveal_strlit(" ok, 0 failed)");
    assert(decimal(0) =~= seq!['0']);
    assert(" ok, 0 failed)"@ =~= " ok, "@ + decimal(0) + " failed)"@);
    let line = summary_text(verb, n, 0);
    let tail = "("@ + decimal(n) + " ok, 0 failed)"@;
    assert(line.skip(line.len() - tail.len()) =~= tail);
}

proof fn fetches_divide(results: Seq<FetchResult>)
    ensures
        results.filter(|r: FetchResult| r.success).len() + results.filter(
            |r: FetchResult| !r.success,
        ).len() == results.len(),
    decreases results.len(),
{
    reveal(Seq::filter);
    if results.len() > 0 {
        fetches_divide(results.drop_last());
    }
}

proof fn pulls_divide(results: Seq<PullResult>)
    ensures
        results.filter(|r: PullResult| r.success).len() + results.filter(
            |r: PullResult| !r.success,
        ).len() == results.len(),
    decreases results.len(),
{
    reveal(Seq::filter);
    if results.len() > 0 {
        pulls_divide(results.drop_last());
    }
}

/// The report has a line for each fetch, in their order, before the summary: it says that
/// the fetch went well exactly where it did, and tells the error where it did not.
pub proof fn each_fetch_is_reported(results: Seq<FetchResult>, k: int)
    requires
        0 <= k < results.len(),
    ensures
        fetch_text(results).len() == results.len() + 1,
        results[k].success ==> fetch_text(results)[k] == "  "@ + results[k].name@ + " ok"@,
        !results[k].success ==> has_prefix(
            fetch_text(results)[k],
            "  "@ + results[k].name@ + " failed: "@,
        ),
        !results[k].success ==> (results[k].error matches Some(e) ==> has_suffix(
            fetch_text(results)[k],
            e@,
        )),
{
    let r = results[k];
    let head = "  "@ + r.name@ + " failed: "@;
    let line = head + error_or_unknown(r.error);
    assert(line.take(head.len() as int) =~= head);
    suffix_comes_off(head, error_or_unknown(r.error));
}

/// The line for a pull says that it went well exactly where it did, and tells the error
/// where it did not.
pub proof fn each_pull_is_reported(r: PullResult)
    ensures
        r.success ==> pull_line_text(r) == "  "@ + r.name@ + " pulled"@,
        !r.success ==> has_prefix(pull_line_text(r), "  "@ + r.name@ + " failed: "@),
        !r.success ==> (r.error matches Some(e) ==> has_suffix(pull_line_text(r), e@)),
{
    let head = "  "@ + r.name@ + " failed: "@;
    let line = head + error_or_unknown(r.error);
    assert(line.take(head.len() as int) =~= head);
    suffix_comes_off(head, error_or_unknown(r.error));
}

/// A failure is one that some outcome reports.
pub proof fn failures_are_reported(fetches: Seq<FetchResult>, pulls: Seq<PullResult>)
    ensures
        failed_fetches(fetches).len() > 0 <==> exists|k: int|
            0 <= k < fetches.len() && !(#[trigger] fetches[k]).success,
        failed_pulls(pulls).len() > 0 <==> exists|k: int|
            0 <= k < pulls.len() && !(#[trigger] pulls[k]).success,
        !something_failed(pulls, fetches) <==> (forall|k: int|
            0 <= k < fetches.len() ==> (#[trigger] fetches[k]).success) && (forall|k: int|
            0 <= k < pulls.len() ==> (#[trigger] pulls[k]).success),
{
    let p = |r: FetchResult| !r.success;
    let q = |r: PullResult| !r.success;
    if failed_fetches(fetches).len() > 0 {
        fetches.lemma_filter_pred(p, 0);
        fetches.lemma_filter_contains_rev(p, failed_fetches(fetches)[0]);
        let x = failed_fetches(fetches)[0];
        let k = choose|k: int| 0 <= k < fetches.len() && fetches[k] == x;
        assert(!fetches[k].success);
    }
    if exists|k: int| 0 <= k < fetches.len() && !(#[trigger] fetches[k]).success {
        let k = choose|k: int| 0 <= k < fetches.len() && !(#[trigger] fetches[k]).success;
        fetches.lemma_filter_contains(p, k);
    }
    if failed_pulls(pulls).len() > 0 {
        pulls.lemma_filter_pred(q, 0);
        pulls.lemma_filter_contains_rev(q, failed_pulls(pulls)[0]);
        let x = failed_pulls(pulls)[0];
        let k = choose|k: int| 0 <= k < pulls.len() && pulls[k] == x;
        assert(!pulls[k].success);
    }
    if exists|k: int| 0 <= k < pulls.len() && !(#[trigger] pulls[k]).success {
        let k = choose|k: int| 0 <= k < pulls.len() && !(#[trigger] pulls[k]).success;
        pulls.lemma_filter_contains(q, k);
    }
}

/// The plan is to pull exactly where a repository is behind, or an empty list is wanted
/// too; else it is to stop, as a failure exactly where a fetch failed.
pub proof fn plan_follows_what_is_behind(
    plan: PullPlan,
    repos: Seq<Repo>,
    fetches: Seq<FetchResult>,
    json: bool,
)
    requires
        pull_planned(plan, repos, fetches, json),
    ensures
        plan is Pull <==> json || exists|k: int|
            0 <= k < repos.len() && (#[trigger] repos[k]).behind > 0,
        plan matches PullPlan::Stop { lines, failed } ==> (failed <==> exists|k: int|
            0 <= k < fetches.len() && !(#[trigger] fetches[k]).success),
        plan matches PullPlan::Pull { lines, work } ==> json ==> lines@.len() == 0,
        plan matches PullPlan::Pull { lines, work } ==> work@.len() == repos.filter(
            |r: Repo| r.behind > 0,
        ).len(),
{
    failures_are_reported(fetches, Seq::empty());
    let p = |r: Repo| r@.state() == SyncState::Behind;
    let q = |r: Repo| r.behind > 0;
    let f = |r: Repo| (r.name@, r.path@);
    assert(p =~= q);
    let within = repos.filter(p);
    assert(work_to_pull(repos).len() == within.len());
    if within.len() > 0 {
        repos.lemma_filter_pred(p, 0);
        repos.lemma_filter_contains_rev(p, within[0]);
        let k = choose|k: int| 0 <= k < repos.len() && repos[k] == within[0];
        assert(repos[k].behind > 0);
    }
    if exists|k: int| 0 <= k < repos.len() && (#[trigger] repos[k]).behind > 0 {
        let k = choose|k: int| 0 <= k < repos.len() && (#[trigger] repos[k]).behind > 0;
        repos.lemma_filter_contains(p, k);
    }
    if let PullPlan::Pull { lines, work } = plan {
        assert(texts(lines@).len() == lines@.len());
        assert(pair_views(work@).len() == work@.len());
    }
}

/// Exactly the repositories with a remote are fetched.
pub proof fn exactly_those_with_a_remote_are_fetched(repos: Seq<Repo>, k: int)
    requires
        0 <= k < repos.len(),
    ensures
        repos[k].has_remote ==> work_for(repos, |r: Repo| r.has_remote).contains(
            (repos[k].name@, repos[k].path@),
        ),
        work_for(repos, |r: Repo| r.has_remote).len() == repos.filter(
            |r: Repo| r.has_remote,
        ).len(),
{
    let p = |r: Repo| r.has_remote;
    let f = |r: Repo| (r.name@, r.path@);
    let within = repos.filter(p);
    if repos[k].has_remote {
        repos.lemma_filter_contains(p, k);
        let m = choose|m: int| 0 <= m < within.len() && within[m] == repos[k];
        assert(within.map_values(f)[m] == (repos[k].name@, repos[k].path@));
    }
}

/// The status counts, one by one, the repositories with something to pull; those with
/// changes and nothing to pull; those with only something to push; and those with nothing
/// to do.
pub proof fn status_counts_what_is_to_do(s: StatusSummary, repos: Seq<Repo>)
    requires
        summarizes(s, repos),
    ensures
        s.behind == repos.filter(|r: Repo| r.behind > 0).len(),
        s.uncommitted == repos.filter(|r: Repo| r.behind == 0 && r.dirty_files > 0).len(),
        s.ahead == repos.filter(
            |r: Repo| r.behind == 0 && r.dirty_files == 0 && r.ahead > 0,
        ).len(),
        s.in_sync == repos.filter(
            |r: Repo| r.behind == 0 && r.dirty_files == 0 && r.ahead == 0,
        ).len(),
        s.total == repos.len(),
{
    assert((|r: Repo| r@.state() == SyncState::Behind) =~= (|r: Repo| r.behind > 0));
    assert((|r: Repo| r@.state() == SyncState::Uncommitted) =~= (|r: Repo|
        r.behind == 0 && r.dirty_files > 0));
    assert((|r: Repo| r@.state() == SyncState::Ahead) =~= (|r: Repo|
        r.behind == 0 && r.dirty_files == 0 && r.ahead > 0));
    assert((|r: Repo| r@.state() == SyncState::InSync) =~= (|r: Repo|
        r.behind == 0 && r.dirty_files == 0 && r.ahead == 0));
}

/// The rule under a heading is four signs longer than the heading.
pub proof fn headings_are_ruled(repos: Seq<Repo>, state: SyncState)
    requires
        of_state(repos, state).len() > 0,
    ensures
        state_lines(repos, state)[1] == Seq::new(state.heading().len() + 4, |i: int| '─'),
{
    reveal_strlit("─");
    assert("─"@ =~= seq!['─']);
    repeating_fills('─', state.heading().len() + 4);
}

/// A failure without a message is told as unknown.
pub proof fn failures_without_a_message_are_unknown(f: FetchResult, p: PullResult)
    ensures
        !f.success && f.error is None ==> fetch_line_text(f) == "  "@ + f.name@ + " failed: "@
            + "unknown"@,
        !p.success && p.error is None ==> pull_line_text(p) == "  "@ + p.name@ + " failed: "@
            + "unknown"@,
{
}

/// Before the pulls, each fetch that failed is told with its error, and no other; a plan to
/// stop says why behind them.
pub proof fn failed_fetches_are_told(
    plan: PullPlan,
    repos: Seq<Repo>,
    fetches: Seq<FetchResult>,
    k: int,
)
    requires
        pull_planned(plan, repos, fetches, false),
        0 <= k < fetches.len(),
    ensures
        ({
            let printed = match plan {
                PullPlan::Stop { lines, failed } => texts(lines@),
                PullPlan::Pull { lines, work } => texts(lines@),
            };
            let failed = fetches.filter(|r: FetchResult| !r.success).len();
            &&& !fetches[k].success ==> (fetches[k].error matches Some(e) ==> printed.contains(
                "  fetch "@ + fetches[k].name@ + " failed: "@ + e@,
            ))
            &&& plan is Pull ==> printed.len() == failed
            &&& plan is Stop ==> printed.len() == failed + 1 && printed.last()
                == "No repos are behind — nothing to pull."@
        }),
{
    let p = |r: FetchResult| !r.success;
    let f = |r: FetchResult| fetch_failure_text(r);
    let told = fetch_failures_text(fetches);
    if !fetches[k].success {
        fetches.lemma_filter_contains(p, k);
        let within = fetches.filter(p);
        let m = choose|m: int| 0 <= m < within.len() && within[m] == fetches[k];
        assert(told[m] == fetch_failure_text(fetches[k]));
        let last = "No repos are behind — nothing to pull."@;
        assert(told.push(last)[m] == told[m]);
    }
}

/// A status is clean exactly where no repository has anything to pull, to push or to
/// commit.
pub proof fn clean_means_nothing_to_do(s: StatusSummary, repos: Seq<Repo>)
    requires
        summarizes(s, repos),
    ensures
        s.nothing_to_do() <==> forall|k: int|
            0 <= k < repos.len() ==> (#[trigger] repos[k]).behind == 0 && repos[k].ahead == 0
                && repos[k].dirty_files == 0,
{
    clean_means_all_in_sync(s, repos);
    if s.nothing_to_do() {
        assert forall|k: int| 0 <= k < repos.len() implies (#[trigger] repos[k]).behind == 0
            && repos[k].ahead == 0 && repos[k].dirty_files == 0 by {
            assert(repos[k]@.state() == SyncState::InSync);
        }
    }
}

} // verus!
