use gitpulse::model::{Repo, WorktreeInfo};
use gitpulse::scan::{Known, Scan};

fn worktree(name: &str) -> WorktreeInfo {
    WorktreeInfo {
        path: format!("/wt/{name}"),
        name: name.to_string(),
        branch: "topic".to_string(),
        dirty_files: 0,
    }
}

/// Files every worktree that waits, as if all paths were canonical.
fn file_all(scan: Scan) -> Vec<Repo> {
    let mut filing = scan.into_filing();
    while let Some(main) = filing.next_waiting() {
        let canon = main.to_string();
        let own = filing.next_stray(&canon).map(|path| {
            let name = path.rsplit('/').next().unwrap();
            (path.to_string(), Repo::test_default(name))
        });
        filing.settle(&canon, own);
    }
    filing.finish()
}

fn names(repos: &[Repo]) -> Vec<&str> {
    repos.iter().map(|r| r.name.as_str()).collect()
}

fn trees(repo: &Repo) -> Vec<&str> {
    repo.worktrees.iter().map(|w| w.name.as_str()).collect()
}

#[test]
fn scan_groups_and_sorts() {
    let mut scan = Scan::new();
    scan.add("/d/zeta".to_string(), Repo::test_default("zeta"));
    scan.defer("/d/zeta".to_string(), worktree("b"));
    scan.defer("/elsewhere".to_string(), worktree("c"));
    scan.add("/d/alpha".to_string(), Repo::test_default("alpha"));
    scan.defer("/d//zeta/".to_string(), worktree("a"));
    let repos = file_all(scan);
    assert_eq!(names(&repos), vec!["alpha", "c", "zeta"]);
    assert_eq!(trees(&repos[2]), vec!["a", "b"]);
    assert!(repos[1].is_worktree);
    assert_eq!(repos[1].worktree_main.as_deref(), Some("/elsewhere"));
    assert!(!repos[0].is_worktree);
    assert!(!repos[2].is_worktree);
}

#[test]
fn worktrees_read_before_their_repo_are_grouped_all_the_same() {
    let mut scan = Scan::new();
    scan.defer("/d/main".to_string(), worktree("early"));
    scan.add("/d/main".to_string(), Repo::test_default("main"));
    scan.defer("/d/main".to_string(), worktree("late"));
    let repos = file_all(scan);
    assert_eq!(names(&repos), vec!["main"]);
    assert_eq!(trees(&repos[0]), vec!["early", "late"]);
}

#[test]
fn strays_are_asked_for_only_where_they_are_needed() {
    let mut scan = Scan::new();
    scan.add("/d/main".to_string(), Repo::test_default("main"));
    scan.defer("/d/main".to_string(), worktree("a"));
    scan.defer("/gone".to_string(), worktree("b"));
    let mut filing = scan.into_filing();
    assert_eq!(filing.next_waiting(), Some("/d/main"));
    assert_eq!(filing.next_stray("/d/main"), None);
    filing.settle("/d/main", None);
    assert_eq!(filing.next_waiting(), Some("/gone"));
    assert_eq!(filing.next_stray("/gone"), Some("/wt/b"));
    filing.settle("/gone", None);
    assert_eq!(filing.next_waiting(), None);
    assert_eq!(filing.next_stray("/gone"), None);
    let repos = filing.finish();
    assert_eq!(names(&repos), vec!["main"]); // a stray without a status is left out
    assert_eq!(trees(&repos[0]), vec!["a"]);
}

#[test]
fn a_status_for_a_worktree_that_is_grouped_does_not_count() {
    let mut scan = Scan::new();
    scan.add("/d/main".to_string(), Repo::test_default("main"));
    scan.defer("/d/main".to_string(), worktree("a"));
    let mut filing = scan.into_filing();
    filing.settle("/d/main", Some(("/wt/a".to_string(), Repo::test_default("a"))));
    assert_eq!(names(&filing.finish()), vec!["main"]);
}

#[test]
fn scan_keeps_one_repo_per_place() {
    let mut scan = Scan::new();
    scan.add("/d/x".to_string(), Repo::test_default("first"));
    scan.add("/d/x/".to_string(), Repo::test_default("second"));
    let repos = file_all(scan);
    assert_eq!(names(&repos), vec!["second"]);
}

#[test]
fn strays_at_the_same_place_are_one_entry() {
    let mut scan = Scan::new();
    scan.defer("/gone".to_string(), worktree("a"));
    scan.defer("/gone".to_string(), worktree("a"));
    assert_eq!(names(&file_all(scan)), vec!["a"]);
}

#[test]
fn scan_of_equal_names_keeps_their_order() {
    let mut scan = Scan::new();
    let mut one = Repo::test_default("same");
    one.ahead = 1;
    let mut two = Repo::test_default("same");
    two.ahead = 2;
    scan.add("/a/same".to_string(), one);
    scan.add("/b/same".to_string(), two);
    let repos = file_all(scan);
    assert_eq!((repos[0].ahead, repos[1].ahead), (1, 2));
}

#[test]
fn known_repos_are_found_by_their_place() {
    let mut known = Known::new();
    known.add("/d/x".to_string(), Repo::test_default("x"));
    assert!(known.has("/d/./x/"));
    assert!(!known.has("/d/y"));
    assert_eq!(known.attach("/d/y", worktree("w")).unwrap().name, "w");
    assert!(known.attach("/d/x", worktree("w")).is_none());
    assert_eq!(trees(&known.finish()[0]), vec!["w"]);
}
