//! The scan of a directory: the repositories that it finds, and the worktrees that are
//! filed under them.

use vstd::prelude::*;

use crate::model::{Repo, WorktreeInfo};
use crate::order::{is_stable_sort, stable_sort, stable_sort_keeps_len, Ranked};
use crate::path::{same_path, same_place};
use crate::text::{text_le, text_le_total, text_le_transitive, text_not_after};

verus! {

impl Ranked for Repo {
    open spec fn not_after(self, other: Repo) -> bool {
        text_le(self.name@, other.name@)
    }

    proof fn rank_total(a: Repo, b: Repo) {
        text_le_total(a.name@, b.name@);
    }

    proof fn rank_transitive(a: Repo, b: Repo, c: Repo) {
        text_le_transitive(a.name@, b.name@, c.name@);
    }

    fn may_precede(&self, other: &Repo) -> (r: bool) {
        text_not_after(self.name.as_str(), other.name.as_str())
    }
}

impl Ranked for WorktreeInfo {
    open spec fn not_after(self, other: WorktreeInfo) -> bool {
        text_le(self.name@, other.name@)
    }

    proof fn rank_total(a: WorktreeInfo, b: WorktreeInfo) {
        text_le_total(a.name@, b.name@);
    }

    proof fn rank_transitive(a: WorktreeInfo, b: WorktreeInfo, c: WorktreeInfo) {
        text_le_transitive(a.name@, b.name@, c.name@);
    }

    fn may_precede(&self, other: &WorktreeInfo) -> (r: bool) {
        text_not_after(self.name.as_str(), other.name.as_str())
    }
}

/// Repositories, each with the canonical path by which it is known. No two of them are
/// known by the same place.
#[derive(Debug)]
pub struct Known {
    found: Vec<(String, Repo)>,
}

/// The position of the first of the repositories that is known by the place `key`, or
/// the number of repositories where none is.
pub open spec fn place_of(found: Seq<(String, Repo)>, key: Seq<char>) -> int
    decreases found.len(),
{
    if found.len() == 0 || same_place(found[0].0@, key) {
        0
    } else {
        1 + place_of(found.drop_first(), key)
    }
}

proof fn place_of_is_first(found: Seq<(String, Repo)>, key: Seq<char>)
    ensures
        0 <= place_of(found, key) <= found.len(),
        place_of(found, key) < found.len() ==> same_place(found[place_of(found, key)].0@, key),
        forall|j: int| 0 <= j < place_of(found, key) ==> !same_place(#[trigger] found[j].0@, key),
    decreases found.len(),
{
    if found.len() > 0 && !same_place(found[0].0@, key) {
        place_of_is_first(found.drop_first(), key);
        assert forall|j: int| 0 <= j < place_of(found, key) implies !same_place(
            #[trigger] found[j].0@,
            key,
        ) by {
            if j > 0 {
                assert(found[j] == found.drop_first()[j - 1]);
            }
        }
    }
}

/// No two repositories are known by the same place.
pub open spec fn places_differ(found: Seq<(String, Repo)>) -> bool {
    forall|i: int, j: int|
        0 <= i < j < found.len() ==> !same_place(#[trigger] found[i].0@, #[trigger] found[j].0@)
}

/// `after` is `before` with the repository known by `key` replaced by `repo`, or with it
/// added at the end where there was none.
pub open spec fn put(
    before: Seq<(String, Repo)>,
    after: Seq<(String, Repo)>,
    key: Seq<char>,
    repo: Repo,
) -> bool {
    let k = place_of(before, key);
    if k < before.len() {
        after == before.update(k, (before[k].0, repo))
    } else {
        after.len() == before.len() + 1 && after.drop_last() == before && after.last().0@ == key
            && after.last().1 == repo
    }
}

/// `sorted` is `repo` with its worktrees in the order of their names.
pub open spec fn worktrees_sorted(repo: Repo, sorted: Repo) -> bool {
    &&& sorted == (Repo { worktrees: sorted.worktrees, ..repo })
    &&& is_stable_sort(repo.worktrees@, sorted.worktrees@)
}

/// `after` is `before` with the worktree `wt` filed under the repository at position `k`.
pub open spec fn attached(
    before: Seq<(String, Repo)>,
    after: Seq<(String, Repo)>,
    k: int,
    wt: WorktreeInfo,
) -> bool {
    &&& after.len() == before.len()
    &&& forall|i: int| 0 <= i < before.len() && i != k ==> #[trigger] after[i] == before[i]
    &&& after[k].0 == before[k].0
    &&& after[k].1 == (Repo { worktrees: after[k].1.worktrees, ..before[k].1 })
    &&& after[k].1.worktrees@ == before[k].1.worktrees@.push(wt)
}

/// `repos` are the repositories of `found` in the order of their names, each with its
/// worktrees in the order of theirs.
pub open spec fn listed(found: Seq<(String, Repo)>, repos: Seq<Repo>) -> bool {
    exists|mid: Seq<Repo>|
        {
            &&& mid.len() == found.len()
            &&& forall|i: int|
                0 <= i < mid.len() ==> worktrees_sorted(found[i].1, #[trigger] mid[i])
            &&& #[trigger] is_stable_sort(mid, repos)
        }
}

impl Known {
    /// The repositories, with the places by which they are known.
    pub closed spec fn view(&self) -> Seq<(String, Repo)> {
        self.found@
    }

    #[verifier::type_invariant]
    spec fn well_formed(self) -> bool {
        places_differ(self.found@)
    }

    /// No repository.
    pub fn new() -> (r: Known)
        ensures
            r@.len() == 0,
            places_differ(r@),
    {
        Known { found: Vec::new() }
    }

    fn find(&self, key: &str) -> (r: usize)
        ensures
            r == place_of(self@, key@),
            r <= self@.len(),
    {
        let mut k: usize = 0;
        assert(self.found@.skip(0) =~= self.found@);
        while k < self.found.len()
            invariant
                k <= self.found.len(),
                place_of(self.found@, key@) == k + place_of(self.found@.skip(k as int), key@),
            decreases self.found.len() - k,
        {
            assert(self.found@.skip(k as int)[0] == self.found@[k as int]);
            assert(self.found@.skip(k as int).drop_first() =~= self.found@.skip(k + 1));
            if same_path(self.found[k].0.as_str(), key) {
                return k;
            }
            k = k + 1;
        }
        k
    }

    /// Whether a repository is known by the place `key`.
    pub fn has(&self, key: &str) -> (r: bool)
        ensures
            r == (place_of(self@, key@) < self@.len()),
            !r ==> place_of(self@, key@) == self@.len(),
    {
        self.find(key) < self.found.len()
    }

    /// Adds a repository that is known by the canonical path `canon`. One that is known
    /// by the same place gives way.
    pub fn add(&mut self, canon: String, repo: Repo)
        ensures
            put(old(self)@, final(self)@, canon@, repo),
            places_differ(final(self)@),
    {
        let k: usize = self.find(canon.as_str());
        let mut found: Vec<(String, Repo)> = Vec::new();
        proof {
            use_type_invariant(&*self);
            place_of_is_first(self.found@, canon@);
        }
        let ghost before = self.found@;
        std::mem::swap(&mut found, &mut self.found);
        if k < found.len() {
            let key = found[k].0.clone();
            found.set(k, (key, repo));
            assert(places_differ(found@));
        } else {
            found.push((canon, repo));
            assert(found@.drop_last() =~= before);
            assert(places_differ(found@));
        }
        self.found = found;
    }

    /// Files a worktree under the repository that is known by the canonical path `canon`.
    /// Where there is none, nothing changes and the worktree is handed back.
    pub fn attach(&mut self, canon: &str, wt: WorktreeInfo) -> (r: Option<WorktreeInfo>)
        ensures
            ({
                let before = old(self)@;
                let k = place_of(before, canon@);
                if k < before.len() {
                    r is None && attached(before, final(self)@, k, wt)
                } else {
                    r == Some(wt) && final(self)@ == before
                }
            }),
            places_differ(final(self)@),
    {
        let k: usize = self.find(canon);
        proof {
            use_type_invariant(&*self);
        }
        if k >= self.found.len() {
            return Some(wt);
        }
        let ghost before = self.found@;
        let mut found: Vec<(String, Repo)> = Vec::new();
        std::mem::swap(&mut found, &mut self.found);
        found[k].1.worktrees.push(wt);
        assert(places_differ(found@)) by {
            assert forall|i: int, j: int| 0 <= i < j < found@.len() implies !same_place(
                #[trigger] found@[i].0@,
                #[trigger] found@[j].0@,
            ) by {
                assert(found@[i].0 == before[i].0);
                assert(found@[j].0 == before[j].0);
            }
        }
        self.found = found;
        None
    }

    /// The repositories in the order of their names, each with its worktrees in the order
    /// of theirs.
    pub fn finish(self) -> (r: Vec<Repo>)
        ensures
            listed(self@, r@),
            r@.len() == self@.len(),
    {
        let ghost all = self.found@;
        let mut left = self.found;
        let mut out: Vec<Repo> = Vec::new();
        while left.len() > 0
            invariant
                left@.len() + out@.len() == all.len(),
                left@ == all.take(left@.len() as int),
                forall|i: int|
                    0 <= i < out@.len() ==> worktrees_sorted(
                        all[left@.len() + i].1,
                        #[trigger] out@[i],
                    ),
            decreases left@.len(),
        {
            let ghost n = left@.len() as int;
            let ghost outs = out@;
            let (_, mut repo) = left.pop().unwrap();
            assert(repo == all[n - 1].1);
            let mut worktrees: Vec<WorktreeInfo> = Vec::new();
            std::mem::swap(&mut worktrees, &mut repo.worktrees);
            repo.worktrees = stable_sort(worktrees);
            assert(worktrees_sorted(all[n - 1].1, repo));
            out.insert(0, repo);
            assert(all.take(n).drop_last() =~= all.take(n - 1));
            assert forall|i: int| 0 <= i < out@.len() implies worktrees_sorted(
                all[n - 1 + i].1,
                #[trigger] out@[i],
            ) by {
                if i > 0 {
                    assert(out@[i] == outs[i - 1]);
                }
            }
        }
        let ghost mid = out@;
        let r = stable_sort(out);
        assert(is_stable_sort(mid, r@));
        r
    }
}

// ---------------------------------------------------------------------------
// The scan
// ---------------------------------------------------------------------------

/// The model of a scan: the repositories found, each with the place by which it is known,
/// and the worktrees that wait to be filed, each with the path of its main repository.
pub struct ScanView {
    pub found: Seq<(String, Repo)>,
    pub waiting: Seq<(String, WorktreeInfo)>,
}

/// A scan that still takes in what it finds.
#[derive(Debug)]
pub struct Scan {
    known: Known,
    waiting: Vec<(String, WorktreeInfo)>,
}

/// A scan that has taken in everything and files the worktrees.
#[derive(Debug)]
pub struct Filing {
    known: Known,
    waiting: Vec<(String, WorktreeInfo)>,
}

impl View for Scan {
    type V = ScanView;

    closed spec fn view(&self) -> ScanView {
        ScanView { found: self.known@, waiting: self.waiting@ }
    }
}

impl View for Filing {
    type V = ScanView;

    closed spec fn view(&self) -> ScanView {
        ScanView { found: self.known@, waiting: self.waiting@ }
    }
}

impl Scan {
    /// Nothing was found yet.
    pub fn new() -> (r: Scan)
        ensures
            r@.found.len() == 0,
            r@.waiting.len() == 0,
    {
        Scan { known: Known::new(), waiting: Vec::new() }
    }

    /// Takes in a repository that is known by the canonical path `canon`. One that is
    /// known by the same place gives way.
    pub fn add(&mut self, canon: String, repo: Repo)
        ensures
            put(old(self)@.found, final(self)@.found, canon@, repo),
            places_differ(final(self)@.found),
            final(self)@.waiting == old(self)@.waiting,
    {
        self.known.add(canon, repo);
    }

    /// Takes in a worktree of the repository at `main_path`, to be filed once all
    /// repositories are known.
    pub fn defer(&mut self, main_path: String, wt: WorktreeInfo)
        ensures
            final(self)@.found == old(self)@.found,
            final(self)@.waiting == old(self)@.waiting.push((main_path, wt)),
    {
        self.waiting.push((main_path, wt));
    }

    /// Ends the taking in.
    pub fn into_filing(self) -> (r: Filing)
        ensures
            r@ == self@,
    {
        Filing { known: self.known, waiting: self.waiting }
    }
}

/// A worktree whose repository is not known, as a repository of its own.
pub open spec fn own_entry(main_path: String, repo: Repo) -> Repo {
    Repo { is_worktree: true, worktree_main: Some(main_path), ..repo }
}

/// The first worktree that waits is filed. `canon` is the canonical path of its main
/// repository. Under a repository known by that place it is filed; else it becomes an
/// entry of its own, where `own` gives its canonical path and its status.
pub open spec fn settled(
    before: ScanView,
    after: ScanView,
    canon: Seq<char>,
    own: Option<(String, Repo)>,
) -> bool {
    let (main_path, wt) = before.waiting[0];
    let k = place_of(before.found, canon);
    &&& after.waiting == before.waiting.drop_first()
    &&& if k < before.found.len() {
        attached(before.found, after.found, k, wt)
    } else {
        match own {
            Some((place, repo)) => put(
                before.found,
                after.found,
                place@,
                own_entry(main_path, repo),
            ),
            None => after.found == before.found,
        }
    }
}

impl Filing {
    /// The path of the main repository of the first worktree that waits.
    pub fn next_waiting(&self) -> (r: Option<&str>)
        ensures
            match r {
                Some(main_path) => self@.waiting.len() > 0 && main_path@ == self@.waiting[0].0@,
                None => self@.waiting.len() == 0,
            },
    {
        if self.waiting.len() > 0 {
            Some(self.waiting[0].0.as_str())
        } else {
            None
        }
    }

    /// The path of the first worktree that waits, where no repository is known by the
    /// canonical path `canon` of its main repository.
    pub fn next_stray(&self, canon: &str) -> (r: Option<&str>)
        ensures
            match r {
                Some(path) => {
                    &&& self@.waiting.len() > 0
                    &&& place_of(self@.found, canon@) == self@.found.len()
                    &&& path@ == self@.waiting[0].1.path@
                },
                None => self@.waiting.len() == 0 || place_of(self@.found, canon@)
                    < self@.found.len(),
            },
    {
        if self.waiting.len() > 0 && !self.known.has(canon) {
            Some(self.waiting[0].1.path.as_str())
        } else {
            None
        }
    }

    /// Files the first worktree that waits. `canon` is the canonical path of its main
    /// repository; `own` is its own canonical path and its status, which count where no
    /// repository is known by `canon`.
    pub fn settle(&mut self, canon: &str, own: Option<(String, Repo)>)
        requires
            old(self)@.waiting.len() > 0,
        ensures
            settled(old(self)@, final(self)@, canon@, own),
            places_differ(final(self)@.found),
    {
        let (main_path, wt) = self.waiting.remove(0);
        assert(self.waiting@ =~= old(self)@.waiting.drop_first());
        match self.known.attach(canon, wt) {
            Some(_) => match own {
                Some((place, repo)) => {
                    let mut stray = repo;
                    stray.is_worktree = true;
                    stray.worktree_main = Some(main_path);
                    self.known.add(place, stray);
                },
                None => {},
            },
            None => {},
        }
    }

    /// Ends the scan: the repositories in the order of their names, each with its
    /// worktrees in the order of theirs.
    pub fn finish(self) -> (r: Vec<Repo>)
        requires
            self@.waiting.len() == 0,
        ensures
            listed(self@.found, r@),
            r@.len() == self@.found.len(),
    {
        self.known.finish()
    }
}

// ---------------------------------------------------------------------------
// Where the worktrees stand in the end
// ---------------------------------------------------------------------------

/// `states` are what a scan goes through while it files every worktree that waits:
/// `canons` are the canonical paths of their main repositories, and `owns` their own
/// canonical paths and statuses.
pub open spec fn is_filing_run(
    states: Seq<ScanView>,
    canons: Seq<Seq<char>>,
    owns: Seq<Option<(String, Repo)>>,
) -> bool {
    &&& states.len() == canons.len() + 1
    &&& owns.len() == canons.len()
    &&& states[0].waiting.len() == canons.len()
    &&& forall|i: int|
        0 <= i < canons.len() ==> settled(
            states[i],
            states[i + 1],
            #[trigger] canons[i],
            owns[i],
        )
}

/// No repository was taken in for the worktree at position `i`.
pub open spec fn is_stray(start: ScanView, canons: Seq<Seq<char>>, i: int) -> bool {
    place_of(start.found, canons[i]) >= start.found.len()
}

/// The worktree at position `i` becomes an entry of its own.
pub open spec fn gets_entry(
    start: ScanView,
    canons: Seq<Seq<char>>,
    owns: Seq<Option<(String, Repo)>>,
    i: int,
) -> bool {
    is_stray(start, canons, i) && owns[i] is Some
}

/// The canonical path of a worktree that becomes an entry of its own.
pub open spec fn own_place(own: Option<(String, Repo)>) -> Seq<char> {
    match own {
        Some((place, _)) => place@,
        None => seq![],
    }
}

spec fn own_repo(own: Option<(String, Repo)>) -> Repo {
    let (_, repo) = own->0;
    repo
}

/// No two directories of the scan are the same place: a worktree that becomes an entry
/// of its own is neither a repository that was taken in, nor another such worktree, nor
/// the main repository of a worktree that is filed later.
pub open spec fn entries_are_new(
    start: ScanView,
    canons: Seq<Seq<char>>,
    owns: Seq<Option<(String, Repo)>>,
) -> bool {
    &&& forall|i: int|
        0 <= i < canons.len() && #[trigger] gets_entry(start, canons, owns, i) ==> place_of(
            start.found,
            own_place(owns[i]),
        ) >= start.found.len()
    &&& forall|j: int, i: int|
        0 <= j < i < canons.len() && #[trigger] gets_entry(start, canons, owns, j)
            ==> !same_place(own_place(owns[j]), #[trigger] canons[i])
    &&& forall|j: int, i: int|
        0 <= j < i < canons.len() && #[trigger] gets_entry(start, canons, owns, j)
            && #[trigger] gets_entry(start, canons, owns, i) ==> !same_place(
            own_place(owns[j]),
            own_place(owns[i]),
        )
}

/// Those of the first `n` worktrees that belong to the repository at position `k`.
pub open spec fn filed_under(
    start: ScanView,
    canons: Seq<Seq<char>>,
    k: int,
    n: int,
) -> Seq<WorktreeInfo>
    decreases n,
{
    if n <= 0 {
        seq![]
    } else {
        let before = filed_under(start, canons, k, n - 1);
        if place_of(start.found, canons[n - 1]) == k {
            before.push(start.waiting[n - 1].1)
        } else {
            before
        }
    }
}

/// The entries of their own that the first `n` worktrees become, with the places by
/// which they are known.
pub open spec fn own_entries(
    start: ScanView,
    canons: Seq<Seq<char>>,
    owns: Seq<Option<(String, Repo)>>,
    n: int,
) -> Seq<(Seq<char>, Repo)>
    decreases n,
{
    if n <= 0 {
        seq![]
    } else {
        let before = own_entries(start, canons, owns, n - 1);
        if gets_entry(start, canons, owns, n - 1) {
            let (place, repo) = owns[n - 1]->0;
            before.push((place@, own_entry(start.waiting[n - 1].0, repo)))
        } else {
            before
        }
    }
}

/// `found` holds the repositories of `start` in their places, each with the worktrees
/// that belong to it behind those that it had, and then the entries of their own.
pub open spec fn is_grouped(
    start: ScanView,
    found: Seq<(String, Repo)>,
    canons: Seq<Seq<char>>,
    owns: Seq<Option<(String, Repo)>>,
    n: int,
) -> bool {
    let entries = own_entries(start, canons, owns, n);
    let count = start.found.len() as int;
    &&& found.len() == count + entries.len()
    &&& forall|k: int|
        0 <= k < count ==> {
            &&& (#[trigger] found[k]).0 == start.found[k].0
            &&& found[k].1 == (Repo { worktrees: found[k].1.worktrees, ..start.found[k].1 })
            &&& found[k].1.worktrees@ == start.found[k].1.worktrees@ + filed_under(
                start,
                canons,
                k,
                n,
            )
        }
    &&& forall|j: int|
        0 <= j < entries.len() ==> {
            &&& found[count + j].0@ == (#[trigger] entries[j]).0
            &&& found[count + j].1 == entries[j].1
        }
}

proof fn place_of_is(found: Seq<(String, Repo)>, key: Seq<char>, at: int)
    requires
        0 <= at <= found.len(),
        at < found.len() ==> same_place(found[at].0@, key),
        forall|k: int| 0 <= k < at ==> !same_place((#[trigger] found[k]).0@, key),
    ensures
        place_of(found, key) == at,
{
    place_of_is_first(found, key);
    let p = place_of(found, key);
    if p < at {
        assert(!same_place(found[p].0@, key));
    }
    if at < p {
        assert(!same_place(found[at].0@, key));
    }
}

proof fn entry_comes_from(
    start: ScanView,
    canons: Seq<Seq<char>>,
    owns: Seq<Option<(String, Repo)>>,
    n: int,
    j: int,
) -> (i: int)
    requires
        0 <= n,
        0 <= j < own_entries(start, canons, owns, n).len(),
    ensures
        0 <= i < n,
        gets_entry(start, canons, owns, i),
        own_entries(start, canons, owns, n)[j].0 == own_place(owns[i]),
    decreases n,
{
    let before = own_entries(start, canons, owns, n - 1);
    if n > 0 && j < before.len() {
        assert(own_entries(start, canons, owns, n)[j] == before[j]);
        entry_comes_from(start, canons, owns, n - 1, j)
    } else {
        n - 1
    }
}

proof fn place_while_filing(
    start: ScanView,
    found: Seq<(String, Repo)>,
    canons: Seq<Seq<char>>,
    owns: Seq<Option<(String, Repo)>>,
    n: int,
    key: Seq<char>,
)
    requires
        0 <= n <= canons.len(),
        is_grouped(start, found, canons, owns, n),
        forall|i: int|
            0 <= i < n && #[trigger] gets_entry(start, canons, owns, i) ==> !same_place(
                own_place(owns[i]),
                key,
            ),
    ensures
        place_of(found, key) == if place_of(start.found, key) < start.found.len() {
            place_of(start.found, key)
        } else {
            found.len() as int
        },
{
    let count = start.found.len() as int;
    let entries = own_entries(start, canons, owns, n);
    let p = place_of(start.found, key);
    place_of_is_first(start.found, key);
    assert forall|k: int| 0 <= k < p implies !same_place((#[trigger] found[k]).0@, key) by {
        assert(found[k].0 == start.found[k].0);
        assert(!same_place(start.found[k].0@, key));
    }
    if p < count {
        assert(found[p].0 == start.found[p].0);
        place_of_is(found, key, p);
    } else {
        assert forall|k: int| 0 <= k < found.len() implies !same_place(
            (#[trigger] found[k]).0@,
            key,
        ) by {
            if k >= count {
                let j = k - count;
                assert(found[count + j].0@ == entries[j].0);
                let i = entry_comes_from(start, canons, owns, n, j);
            }
        }
        place_of_is(found, key, found.len() as int);
    }
}

proof fn grouped_at_start(
    start: ScanView,
    canons: Seq<Seq<char>>,
    owns: Seq<Option<(String, Repo)>>,
)
    ensures
        is_grouped(start, start.found, canons, owns, 0),
{
    assert forall|k: int| 0 <= k < start.found.len() implies (
    #[trigger] start.found[k]).1.worktrees@ == start.found[k].1.worktrees@ + filed_under(
        start,
        canons,
        k,
        0,
    ) by {
        assert(start.found[k].1.worktrees@ + filed_under(start, canons, k, 0)
            =~= start.found[k].1.worktrees@);
    }
}

proof fn grouped_after_attach(
    start: ScanView,
    before: Seq<(String, Repo)>,
    after: Seq<(String, Repo)>,
    canons: Seq<Seq<char>>,
    owns: Seq<Option<(String, Repo)>>,
    m: int,
)
    requires
        0 <= m < canons.len(),
        is_grouped(start, before, canons, owns, m),
        !is_stray(start, canons, m),
        attached(before, after, place_of(start.found, canons[m]), start.waiting[m].1),
    ensures
        is_grouped(start, after, canons, owns, m + 1),
{
    let p = place_of(start.found, canons[m]);
    let count = start.found.len() as int;
    place_of_is_first(start.found, canons[m]);
    assert(own_entries(start, canons, owns, m + 1) == own_entries(start, canons, owns, m));
    assert forall|k: int| 0 <= k < count implies {
        &&& (#[trigger] after[k]).0 == start.found[k].0
        &&& after[k].1 == (Repo { worktrees: after[k].1.worktrees, ..start.found[k].1 })
        &&& after[k].1.worktrees@ == start.found[k].1.worktrees@ + filed_under(
            start,
            canons,
            k,
            m + 1,
        )
    } by {
        assert(before[k].0 == start.found[k].0);
        if k == p {
            assert(start.found[k].1.worktrees@ + filed_under(start, canons, k, m + 1)
                =~= before[k].1.worktrees@.push(start.waiting[m].1));
        } else {
            assert(after[k] == before[k]);
        }
    }
    let entries = own_entries(start, canons, owns, m + 1);
    assert forall|j: int| 0 <= j < entries.len() implies {
        &&& after[count + j].0@ == (#[trigger] entries[j]).0
        &&& after[count + j].1 == entries[j].1
    } by {
        assert(after[count + j] == before[count + j]);
    }
}

proof fn stray_is_under_none(start: ScanView, canons: Seq<Seq<char>>, m: int, k: int)
    requires
        0 <= m < canons.len(),
        is_stray(start, canons, m),
        k < start.found.len(),
    ensures
        filed_under(start, canons, k, m + 1) == filed_under(start, canons, k, m),
{
}

proof fn grouped_after_entry(
    start: ScanView,
    before: Seq<(String, Repo)>,
    after: Seq<(String, Repo)>,
    canons: Seq<Seq<char>>,
    owns: Seq<Option<(String, Repo)>>,
    m: int,
)
    requires
        0 <= m < canons.len(),
        is_grouped(start, before, canons, owns, m),
        gets_entry(start, canons, owns, m),
        after.len() == before.len() + 1,
        after.drop_last() == before,
        after.last().0@ == own_place(owns[m]),
        after.last().1 == own_entry(start.waiting[m].0, own_repo(owns[m])),
    ensures
        is_grouped(start, after, canons, owns, m + 1),
{
    let count = start.found.len() as int;
    let old_entries = own_entries(start, canons, owns, m);
    let entries = own_entries(start, canons, owns, m + 1);
    assert forall|k: int| 0 <= k < before.len() implies #[trigger] after[k] == before[k] by {
        assert(after.drop_last()[k] == after[k]);
    }
    assert forall|k: int| 0 <= k < count implies {
        &&& (#[trigger] after[k]).0 == start.found[k].0
        &&& after[k].1 == (Repo { worktrees: after[k].1.worktrees, ..start.found[k].1 })
        &&& after[k].1.worktrees@ == start.found[k].1.worktrees@ + filed_under(
            start,
            canons,
            k,
            m + 1,
        )
    } by {
        assert(before[k].0 == start.found[k].0);
        stray_is_under_none(start, canons, m, k);
    }
    assert forall|j: int| 0 <= j < entries.len() implies {
        &&& after[count + j].0@ == (#[trigger] entries[j]).0
        &&& after[count + j].1 == entries[j].1
    } by {
        if j < old_entries.len() {
            assert(old_entries[j] == entries[j]);
            assert(after[count + j] == before[count + j]);
        }
    }
}

proof fn grouped_after_loss(
    start: ScanView,
    found: Seq<(String, Repo)>,
    canons: Seq<Seq<char>>,
    owns: Seq<Option<(String, Repo)>>,
    m: int,
)
    requires
        0 <= m < canons.len(),
        is_grouped(start, found, canons, owns, m),
        is_stray(start, canons, m),
        owns[m] is None,
    ensures
        is_grouped(start, found, canons, owns, m + 1),
{
    assert(own_entries(start, canons, owns, m + 1) == own_entries(start, canons, owns, m));
    assert forall|k: int| 0 <= k < start.found.len() implies (
    #[trigger] found[k]).1.worktrees@ == start.found[k].1.worktrees@ + filed_under(
        start,
        canons,
        k,
        m + 1,
    ) by {
        stray_is_under_none(start, canons, m, k);
    }
}

proof fn grouped_so_far(
    states: Seq<ScanView>,
    canons: Seq<Seq<char>>,
    owns: Seq<Option<(String, Repo)>>,
    n: int,
)
    requires
        is_filing_run(states, canons, owns),
        entries_are_new(states[0], canons, owns),
        0 <= n <= canons.len(),
    ensures
        states[n].waiting == states[0].waiting.skip(n),
        is_grouped(states[0], states[n].found, canons, owns, n),
    decreases n,
{
    let start = states[0];
    if n == 0 {
        assert(start.waiting.skip(0) =~= start.waiting);
        grouped_at_start(start, canons, owns);
    } else {
        let m = n - 1;
        grouped_so_far(states, canons, owns, m);
        let before = states[m];
        assert(settled(states[m], states[m + 1], canons[m], owns[m]));
        assert(before.waiting[0] == start.waiting[m]);
        assert(before.waiting.drop_first() =~= start.waiting.skip(n));
        place_of_is_first(start.found, canons[m]);
        place_of_is_first(before.found, canons[m]);
        place_while_filing(start, before.found, canons, owns, m, canons[m]);
        if !is_stray(start, canons, m) {
            grouped_after_attach(start, before.found, states[n].found, canons, owns, m);
        } else if owns[m] is Some {
            assert(gets_entry(start, canons, owns, m));
            place_while_filing(start, before.found, canons, owns, m, own_place(owns[m]));
            grouped_after_entry(start, before.found, states[n].found, canons, owns, m);
        } else {
            grouped_after_loss(start, before.found, canons, owns, m);
        }
    }
}

/// Once every worktree is filed, each stands where it belongs, in whatever order the
/// directory was read: under the repository that is known by its main path, behind the
/// worktrees that came before it, or else as an entry of its own that is marked as a
/// worktree and names its main path. Nothing else changes.
pub proof fn worktrees_are_grouped(
    states: Seq<ScanView>,
    canons: Seq<Seq<char>>,
    owns: Seq<Option<(String, Repo)>>,
)
    requires
        is_filing_run(states, canons, owns),
        entries_are_new(states[0], canons, owns),
    ensures
        states.last().waiting.len() == 0,
        is_grouped(states[0], states.last().found, canons, owns, canons.len() as int),
{
    grouped_so_far(states, canons, owns, canons.len() as int);
}

/// The number of the first `n` worktrees that are filed under the first `m` repositories.
pub open spec fn filed_count(start: ScanView, canons: Seq<Seq<char>>, m: int, n: int) -> int
    decreases m,
{
    if m <= 0 {
        0
    } else {
        filed_count(start, canons, m - 1, n) + filed_under(start, canons, m - 1, n).len()
    }
}

proof fn filed_count_grows(start: ScanView, canons: Seq<Seq<char>>, m: int, n: int)
    requires
        0 <= m,
        0 < n,
    ensures
        filed_count(start, canons, m, n) == filed_count(start, canons, m, n - 1) + if 0
            <= place_of(start.found, canons[n - 1]) < m {
            1int
        } else {
            0
        },
    decreases m,
{
    if m > 0 {
        filed_count_grows(start, canons, m - 1, n);
    }
}

/// Each of the first `n` worktrees is filed once: under one repository, or as one entry
/// of its own, where its status is known.
pub proof fn each_worktree_is_filed_once(
    start: ScanView,
    canons: Seq<Seq<char>>,
    owns: Seq<Option<(String, Repo)>>,
    n: int,
)
    requires
        0 <= n <= canons.len(),
        forall|i: int|
            0 <= i < n && #[trigger] is_stray(start, canons, i) ==> owns[i] is Some,
    ensures
        filed_count(start, canons, start.found.len() as int, n) + own_entries(
            start,
            canons,
            owns,
            n,
        ).len() == n,
    decreases n,
{
    let count = start.found.len() as int;
    if n > 0 {
        each_worktree_is_filed_once(start, canons, owns, n - 1);
        filed_count_grows(start, canons, count, n);
        place_of_is_first(start.found, canons[n - 1]);
        if is_stray(start, canons, n - 1) {
            assert(gets_entry(start, canons, owns, n - 1));
        }
    } else {
        nothing_filed(start, canons, count);
    }
}

proof fn nothing_filed(start: ScanView, canons: Seq<Seq<char>>, m: int)
    ensures
        filed_count(start, canons, m, 0) == 0,
    decreases m,
{
    if m > 0 {
        nothing_filed(start, canons, m - 1);
    }
}

/// The repositories of a scan stand in the order of their names, as many as were found.
pub proof fn repositories_are_listed_by_name(
    found: Seq<(String, Repo)>,
    repos: Seq<Repo>,
    i: int,
    j: int,
)
    requires
        listed(found, repos),
        0 <= i < j < repos.len(),
    ensures
        text_le(repos[i].name@, repos[j].name@),
        repos.len() == found.len(),
{
    let mid = choose|mid: Seq<Repo>|
        {
            &&& mid.len() == found.len()
            &&& forall|i: int|
                0 <= i < mid.len() ==> worktrees_sorted(found[i].1, #[trigger] mid[i])
            &&& #[trigger] is_stable_sort(mid, repos)
        };
    assert(repos[i].not_after(repos[j]));
    stable_sort_keeps_len(mid, repos);
}

/// The worktrees of a repository stand in the order of their names, and nothing else of it
/// changes.
pub proof fn worktrees_are_listed_by_name(repo: Repo, sorted: Repo, i: int, j: int)
    requires
        worktrees_sorted(repo, sorted),
        0 <= i < j < sorted.worktrees@.len(),
    ensures
        text_le(sorted.worktrees@[i].name@, sorted.worktrees@[j].name@),
        sorted.worktrees@.len() == repo.worktrees@.len(),
        sorted.name == repo.name && sorted.path == repo.path,
        sorted.ahead == repo.ahead && sorted.behind == repo.behind,
        sorted.dirty_files == repo.dirty_files,
{
    assert(sorted.worktrees@[i].not_after(sorted.worktrees@[j]));
    stable_sort_keeps_len(repo.worktrees@, sorted.worktrees@);
}

/// A worktree without a repository in the scan becomes an entry that is marked as a
/// worktree and names its main repository, with everything else as git says it.
pub proof fn own_entries_are_marked(main_path: String, repo: Repo)
    ensures
        ({
            let entry = own_entry(main_path, repo);
            &&& entry.is_worktree
            &&& entry.worktree_main == Some(main_path)
            &&& entry.name == repo.name && entry.path == repo.path
            &&& entry@.state() == repo@.state()
            &&& entry.current_branch == repo.current_branch
        }),
{
}

} // verus!
