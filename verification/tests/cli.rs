use gitpulse::cli::{
    any_fetch_failed, count_by_state, fetch_lines, fetch_work, list_lines, plan_pull, pull_failed,
    pull_line, pull_summary, refresh_fetched, FetchResult, PullPlan, PullResult, RepoEntry,
    StatusSummary,
};
use gitpulse::messages::Refresh;
use gitpulse::model::{Repo, SyncState};

#[test]
fn count_by_state_empty() {
    let s = count_by_state(&[]);
    assert_eq!(s.total, 0);
    assert_eq!(s.behind, 0);
    assert_eq!(s.in_sync, 0);
}

#[test]
fn count_by_state_mixed() {
    let mut behind = Repo::test_default("a");
    behind.behind = 1;
    let mut dirty = Repo::test_default("b");
    dirty.dirty_files = 2;
    let clean = Repo::test_default("c");
    let mut ahead = Repo::test_default("d");
    ahead.ahead = 3;

    let s = count_by_state(&[behind, dirty, clean, ahead]);
    assert_eq!(s.behind, 1);
    assert_eq!(s.uncommitted, 1);
    assert_eq!(s.in_sync, 1);
    assert_eq!(s.ahead, 1);
    assert_eq!(s.total, 4);
}

#[test]
fn repo_entry_from_repo() {
    let mut r = Repo::test_default("myrepo");
    r.ahead = 2;
    r.dirty_files = 1;
    let entry = RepoEntry::from_repo(&r);
    assert_eq!(entry.name, "myrepo");
    assert_eq!(entry.sync_state, "uncommitted");
    assert_eq!(entry.ahead, 2);
    assert_eq!(entry.dirty_files, 1);
    assert!(!entry.has_remote);
    assert!(entry.remote_url.is_none());
}

#[test]
fn json_key_values() {
    assert_eq!(SyncState::Behind.json_key(), "behind");
    assert_eq!(SyncState::Uncommitted.json_key(), "uncommitted");
    assert_eq!(SyncState::InSync.json_key(), "in_sync");
    assert_eq!(SyncState::Ahead.json_key(), "ahead");
}

#[test]
fn repo_entry_keeps_path_branch_and_url() {
    let mut r = Repo::test_default("x");
    r.remote_url = Some("https://example.com/a/b".to_string());
    r.has_remote = true;
    r.behind = 7;
    let entry = RepoEntry::from_repo(&r);
    assert_eq!(entry.path, "/tmp/x");
    assert_eq!(entry.branch, "main");
    assert_eq!(entry.sync_state, "behind");
    assert_eq!(entry.behind, 7);
    assert!(entry.has_remote);
    assert_eq!(entry.remote_url.as_deref(), Some("https://example.com/a/b"));
}

#[test]
fn status_line_and_outcome() {
    let s = StatusSummary { behind: 1, uncommitted: 20, in_sync: 300, ahead: 0, total: 321 };
    assert_eq!(s.text(), "1 behind, 20 uncommitted, 300 in sync, 0 ahead");
    assert!(!s.all_clean());
    let clean = StatusSummary { behind: 0, uncommitted: 0, in_sync: 5, ahead: 0, total: 5 };
    assert!(clean.all_clean());
    let pushed = StatusSummary { ahead: 1, ..clean };
    assert!(!pushed.all_clean());
}

#[test]
fn list_is_grouped_by_state() {
    let mut behind = Repo::test_default("api");
    behind.behind = 3;
    behind.dirty_files = 5;
    let mut ahead = Repo::test_default("blog");
    ahead.ahead = 12;
    let clean = Repo::test_default("a-name-of-more-than-twenty-letters");
    let lines = list_lines(&vec![ahead, behind, clean]);
    assert_eq!(
        lines,
        vec![
            "Behind (1)",
            "──────────",
            "  api                  main  ↓3  *5",
            "",
            "In Sync (1)",
            "───────────",
            "  a-name-of-more-than-twenty-letters main",
            "",
            "Ahead (1)",
            "─────────",
            "  blog                 main  ↑12",
            "",
        ]
    );
}

#[test]
fn list_of_nothing_is_empty() {
    assert!(list_lines(&vec![]).is_empty());
}

#[test]
fn list_pads_names_by_characters() {
    let mut r = Repo::test_default("żółw");
    r.current_branch = "gałąź".to_string();
    let lines = list_lines(&vec![r]);
    assert_eq!(lines[2], "  żółw                 gałąź");
    assert_eq!(lines[2], format!("  {:<20} {}", "żółw", "gałąź"));
}

fn fetched(name: &str, result: Result<(), String>) -> FetchResult {
    FetchResult::of(name.to_string(), format!("/tmp/{name}"), result)
}

fn pulled(name: &str, result: Result<String, String>) -> PullResult {
    PullResult::of(name.to_string(), format!("/tmp/{name}"), result)
}

#[test]
fn fetch_report() {
    let results = vec![fetched("a", Ok(())), fetched("b", Err("no route".to_string()))];
    assert!(results[0].success);
    assert_eq!(results[0].error, None);
    assert!(!results[1].success);
    assert_eq!(
        fetch_lines(&results),
        vec!["  a ok", "  b failed: no route", "Fetched 2 repos (1 ok, 1 failed)"]
    );
    assert!(any_fetch_failed(&results));
    assert_eq!(fetch_lines(&vec![]), vec!["Fetched 0 repos (0 ok, 0 failed)"]);
    assert!(!any_fetch_failed(&vec![]));
}

#[test]
fn failure_without_a_message_is_unknown() {
    let mut r = fetched("a", Ok(()));
    r.success = false;
    assert_eq!(fetch_lines(&vec![r])[0], "  a failed: unknown");
    let mut p = pulled("a", Ok("x".to_string()));
    p.success = false;
    assert_eq!(pull_line(&p), "  a failed: unknown");
}

#[test]
fn only_repos_with_a_remote_are_fetched() {
    let mut a = Repo::test_default("a");
    a.has_remote = true;
    let b = Repo::test_default("b");
    let work = fetch_work(&vec![a, b]);
    assert_eq!(work, vec![("a".to_string(), "/tmp/a".to_string())]);
}

fn refresh(behind: u32) -> Refresh {
    let mut r = Repo::test_default("new");
    r.behind = behind;
    r.has_remote = true;
    Refresh { status: Some(r), worktrees: vec![] }
}

#[test]
fn fetched_repos_are_refreshed() {
    let mut a = Repo::test_default("a");
    a.has_remote = true;
    let b = Repo::test_default("b");
    let mut repos = vec![a, b];
    refresh_fetched(&mut repos, vec![refresh(4), refresh(5)]);
    assert_eq!(repos[0].behind, 4);
    assert_eq!(repos[0].name, "a");
    assert_eq!(repos[1].behind, 0);
}

#[test]
fn pull_plan_without_anything_behind() {
    let repos = vec![Repo::test_default("a")];
    let ok = vec![fetched("a", Ok(()))];
    let bad = vec![fetched("a", Err("down".to_string()))];
    match plan_pull(&repos, &ok, false) {
        PullPlan::Stop { lines, failed } => {
            assert_eq!(lines, vec!["No repos are behind — nothing to pull."]);
            assert!(!failed);
        }
        other => panic!("unexpected {other:?}"),
    }
    match plan_pull(&repos, &bad, false) {
        PullPlan::Stop { lines, failed } => {
            assert_eq!(
                lines,
                vec!["  fetch a failed: down", "No repos are behind — nothing to pull."]
            );
            assert!(failed);
        }
        other => panic!("unexpected {other:?}"),
    }
    match plan_pull(&repos, &bad, true) {
        PullPlan::Pull { lines, work } => {
            assert!(lines.is_empty());
            assert!(work.is_empty());
        }
        other => panic!("unexpected {other:?}"),
    }
}

#[test]
fn pull_plan_takes_the_repos_that_are_behind() {
    let mut a = Repo::test_default("a");
    a.behind = 2;
    let mut b = Repo::test_default("b");
    b.ahead = 1;
    let mut c = Repo::test_default("c");
    c.behind = 1;
    c.dirty_files = 4;
    let fetches = vec![fetched("b", Err("down".to_string()))];
    match plan_pull(&vec![a, b, c], &fetches, false) {
        PullPlan::Pull { lines, work } => {
            assert_eq!(lines, vec!["  fetch b failed: down"]);
            let names: Vec<&str> = work.iter().map(|w| w.0.as_str()).collect();
            assert_eq!(names, vec!["a", "c"]);
            assert_eq!(work[1].1, "/tmp/c");
        }
        other => panic!("unexpected {other:?}"),
    }
}

#[test]
fn pull_report() {
    let results = vec![
        pulled("a", Ok("Already up to date.".to_string())),
        pulled("b", Err("conflict".to_string())),
    ];
    assert_eq!(results[0].output.as_deref(), Some("Already up to date."));
    assert_eq!(results[1].error.as_deref(), Some("conflict"));
    assert_eq!(results[1].output, None);
    assert_eq!(pull_line(&results[0]), "  a pulled");
    assert_eq!(pull_line(&results[1]), "  b failed: conflict");
    assert_eq!(pull_summary(&results), "Pulled 2 repos (1 ok, 1 failed)");
    assert!(pull_failed(&results, &vec![]));
    assert!(!pull_failed(&vec![], &vec![]));
    assert!(pull_failed(&vec![], &vec![fetched("x", Err("e".to_string()))]));
}

#[test]
fn every_repo_is_counted_once() {
    let mut repos = vec![];
    for n in 0..40u32 {
        let mut r = Repo::test_default("r");
        r.behind = n % 3;
        r.ahead = n % 5;
        r.dirty_files = n % 7;
        repos.push(r);
    }
    let s = count_by_state(&repos);
    assert_eq!(s.behind + s.uncommitted + s.in_sync + s.ahead, s.total);
    assert_eq!(s.total, 40);
}
