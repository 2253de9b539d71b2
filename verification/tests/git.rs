use gitpulse::git::{
    build_repo_status, build_worktree_info, classify_entry, classify_in_container, command_result,
    detect_default_branch, detect_local_default_branch, get_ahead_behind, next_query,
    parse_gitdir_file, parse_gitdir_path, refresh_repo_status, resolve_worktree_main, wait_step,
    ChildPoll, DotGit, Entry, GitAction, GitAnswers, GitQuery, WaitStep, WorktreeAnswers, GIT_TIMEOUT_MS,
};
use gitpulse::model::{FetchStatus, ForgeKind, ForgeStatus, Repo, WorktreeInfo};

// -- Worktree links --

#[test]
fn parse_gitdir_valid() {
    let content = "gitdir: /home/user/main/.git/worktrees/feat\n";
    let result = parse_gitdir_file(content).unwrap();
    assert_eq!(result, "/home/user/main");
}

#[test]
fn parse_gitdir_no_trailing_newline() {
    let content = "gitdir: /repos/proj/.git/worktrees/fix-bug";
    let result = parse_gitdir_file(content).unwrap();
    assert_eq!(result, "/repos/proj");
}

#[test]
fn parse_gitdir_not_a_worktree() {
    // gitdir pointing somewhere else (e.g. submodule)
    let content = "gitdir: /some/other/.git/modules/sub";
    assert!(parse_gitdir_file(content).is_none());
}

#[test]
fn parse_gitdir_no_prefix() {
    assert!(parse_gitdir_file("not a gitdir line").is_none());
}

#[test]
fn parse_gitdir_empty() {
    assert!(parse_gitdir_file("").is_none());
}

// -- Bare container worktree paths --

#[test]
fn parse_gitdir_path_bare_worktree() {
    // Bare container: gitdir resolves to .bare/worktrees/main
    let path = "/home/user/project/.bare/worktrees/main";
    let result = parse_gitdir_path(path).unwrap();
    assert_eq!(result, "/home/user/project");
}

#[test]
fn parse_gitdir_path_standard_worktree() {
    let path = "/home/user/project/.git/worktrees/feat";
    let result = parse_gitdir_path(path).unwrap();
    assert_eq!(result, "/home/user/project");
}

#[test]
fn parse_gitdir_path_not_worktree() {
    let path = "/some/other/.git/modules/sub";
    assert!(parse_gitdir_path(path).is_none());
}

#[test]
fn parse_gitdir_file_bare_worktree() {
    // Absolute path variant as would appear in a .git file
    let content = "gitdir: /home/user/project/.bare/worktrees/main";
    let result = parse_gitdir_file(content).unwrap();
    assert_eq!(result, "/home/user/project");
}

#[test]
fn gitdir_with_too_few_names() {
    assert_eq!(parse_gitdir_path("worktrees/x"), None);
    assert_eq!(parse_gitdir_path("/worktrees/x"), None);
    assert_eq!(parse_gitdir_path(".git/worktrees/x"), Some(""));
    assert_eq!(parse_gitdir_path("/.git/worktrees/x"), Some("/"));
}

// -- Questions --

fn answered(pairs: &[(GitQuery, Option<&str>)]) -> GitAnswers {
    let mut a = GitAnswers::new();
    for (q, text) in pairs {
        a.record(*q, text.map(|t| t.to_string()));
    }
    a
}

/// Puts the questions until none is left, and gives back those that were put.
fn interview(path: &str, git: &[(GitQuery, &str)]) -> (Vec<GitQuery>, GitAnswers) {
    let mut asked = vec![];
    let mut a = GitAnswers::new();
    while let Some(q) = next_query(path, &a) {
        asked.push(q);
        let reply = git.iter().find(|(k, _)| *k == q).map(|(_, t)| t.to_string());
        a.record(q, reply);
    }
    (asked, a)
}

#[test]
fn questions_of_a_repo_without_remote() {
    let (asked, a) = interview(
        "/src/solo",
        &[(GitQuery::CurrentBranch, "trunk\n"), (GitQuery::Changes, " M a\n?? b\n")],
    );
    assert_eq!(
        asked,
        vec![
            GitQuery::CurrentBranch,
            GitQuery::Remotes,
            GitQuery::LocalMain,
            GitQuery::LocalMaster,
            GitQuery::Changes,
        ]
    );
    let r = build_repo_status("/src/solo", &a, &[], &[]).unwrap();
    assert_eq!(r.name, "solo");
    assert_eq!(r.path, "/src/solo");
    assert_eq!(r.current_branch, "trunk");
    assert_eq!(r.default_branch, None);
    assert_eq!(r.dirty_files, 2);
    assert_eq!((r.ahead, r.behind), (0, 0));
    assert!(!r.has_remote);
    assert_eq!(r.fetch_status, FetchStatus::Done);
    assert_eq!(r.forge_status, ForgeStatus::NotApplicable);
    assert_eq!(r.remote_url, None);
}

#[test]
fn questions_of_a_repo_with_remote_head() {
    let (asked, a) = interview(
        "/src/api",
        &[
            (GitQuery::CurrentBranch, "feature\n"),
            (GitQuery::Remotes, "origin\n"),
            (GitQuery::RemoteHead, "refs/remotes/origin/develop\n"),
            (GitQuery::Changes, ""),
            (GitQuery::AheadBehind, "2\t5\n"),
            (GitQuery::OriginUrl, "git@github.com:me/api.git\n"),
        ],
    );
    assert_eq!(
        asked,
        vec![
            GitQuery::CurrentBranch,
            GitQuery::Remotes,
            GitQuery::RemoteHead,
            GitQuery::Changes,
            GitQuery::AheadBehind,
            GitQuery::OriginUrl,
        ]
    );
    let r = build_repo_status("/src/api", &a, &[], &[]).unwrap();
    assert_eq!(r.default_branch.as_deref(), Some("develop"));
    assert_eq!((r.ahead, r.behind), (2, 5));
    assert_eq!(r.fetch_status, FetchStatus::Queued);
    assert_eq!(r.remote_url.as_deref(), Some("git@github.com:me/api.git"));
    let info = r.remote_info.unwrap();
    assert_eq!(info.kind, ForgeKind::GitHub);
    assert_eq!(info.owner, "me");
    assert_eq!(info.repo_name, "api");
    assert_eq!(r.forge_status, ForgeStatus::Queued);
}

#[test]
fn default_branch_falls_back_to_local_branches() {
    let (asked, a) = interview(
        "/src/api",
        &[(GitQuery::Remotes, "origin"), (GitQuery::LocalMaster, "deadbeef")],
    );
    assert!(asked.contains(&GitQuery::RemoteMain));
    assert!(asked.contains(&GitQuery::RemoteMaster));
    assert!(asked.contains(&GitQuery::LocalMain));
    let r = build_repo_status("/src/api", &a, &[], &[]).unwrap();
    assert_eq!(r.default_branch.as_deref(), Some("master"));
}

#[test]
fn default_branch_prefers_main_over_master() {
    let a = answered(&[
        (GitQuery::RemoteMain, Some("1")),
        (GitQuery::RemoteMaster, Some("2")),
        (GitQuery::LocalMain, Some("3")),
        (GitQuery::LocalMaster, Some("4")),
    ]);
    assert_eq!(detect_default_branch(&a).as_deref(), Some("main"));
    assert_eq!(detect_local_default_branch(&a).as_deref(), Some("main"));
    let b = answered(&[(GitQuery::RemoteMain, None), (GitQuery::RemoteMaster, Some("2"))]);
    assert_eq!(detect_default_branch(&b).as_deref(), Some("master"));
    assert_eq!(detect_local_default_branch(&b), None);
    let c = answered(&[(GitQuery::RemoteHead, Some("refs/heads/x")), (GitQuery::RemoteMain, None)]);
    assert_eq!(detect_default_branch(&c), None);
}

#[test]
fn later_answers_replace_earlier_ones() {
    let a = answered(&[(GitQuery::Remotes, Some("a")), (GitQuery::Remotes, None)]);
    assert!(a.has(GitQuery::Remotes));
    assert_eq!(a.get(GitQuery::Remotes), None);
    assert_eq!(a.text(GitQuery::Remotes), "");
    assert!(!a.has(GitQuery::Changes));
}

#[test]
fn further_answers_do_not_change_a_settled_status() {
    let (_, mut a) = interview("/src/solo", &[(GitQuery::CurrentBranch, "main")]);
    let before = build_repo_status("/src/solo", &a, &[], &[]).unwrap();
    a.record(GitQuery::AheadBehind, Some("7\t9".to_string()));
    a.record(GitQuery::OriginUrl, Some("https://github.com/a/b".to_string()));
    let after = build_repo_status("/src/solo", &a, &[], &[]).unwrap();
    assert_eq!((after.ahead, after.behind), (before.ahead, before.behind));
    assert_eq!(after.remote_url, before.remote_url);
}

#[test]
fn a_path_without_a_name_has_no_status() {
    let a = GitAnswers::new();
    assert_eq!(next_query("/", &a), None);
    assert!(build_repo_status("/", &a, &[], &[]).is_none());
    assert!(build_repo_status("/src/..", &a, &[], &[]).is_none());
    let silent = WorktreeAnswers { branch: None, changes: None };
    assert!(build_worktree_info("..", &silent).is_none());
}

#[test]
fn ahead_behind_is_read_from_two_columns() {
    assert_eq!(get_ahead_behind("3\t4\n"), (3, 4));
    assert_eq!(get_ahead_behind(""), (0, 0));
    assert_eq!(get_ahead_behind("3 4"), (0, 0));
    assert_eq!(get_ahead_behind("1\t2\t3"), (0, 0));
    assert_eq!(get_ahead_behind("x\t2"), (0, 2));
    assert_eq!(get_ahead_behind("4294967296\t1"), (0, 1));
}

#[test]
fn arguments_of_questions_and_commands() {
    assert_eq!(GitQuery::CurrentBranch.args(), vec!["branch", "--show-current"]);
    assert_eq!(
        GitQuery::AheadBehind.args(),
        vec!["rev-list", "--left-right", "--count", "HEAD...@{upstream}"]
    );
    assert_eq!(GitQuery::OriginUrl.args(), vec!["remote", "get-url", "origin"]);
    assert_eq!(
        GitQuery::LocalMaster.args(),
        vec!["rev-parse", "--verify", "refs/heads/master"]
    );
    assert_eq!(GitAction::Fetch.args(), vec!["fetch", "--quiet"]);
    assert_eq!(GitAction::Pull.args(), vec!["pull"]);
    assert_eq!(GitAction::Push.args(), vec!["push"]);
}

// -- Worktrees --

#[test]
fn worktree_info_by_answers() {
    let a = WorktreeAnswers {
        branch: Some(" feat\n".to_string()),
        changes: Some(" M x\n\n?? y\n".to_string()),
    };
    let wt = build_worktree_info("/wt/feat-dir/", &a).unwrap();
    assert_eq!(wt.name, "feat-dir");
    assert_eq!(wt.path, "/wt/feat-dir/");
    assert_eq!(wt.branch, "feat");
    assert_eq!(wt.dirty_files, 2);
}

fn worktree(name: &str) -> WorktreeInfo {
    WorktreeInfo {
        path: format!("/wt/{name}"),
        name: name.to_string(),
        branch: "old".to_string(),
        dirty_files: 9,
    }
}

#[test]
fn refresh_takes_over_counts_and_branches_only() {
    let mut repo = Repo::test_default("r");
    repo.remote_url = Some("keep".to_string());
    repo.fetch_status = FetchStatus::Fetching;
    repo.worktrees = vec![worktree("a"), worktree("b")];
    let mut updated = Repo::test_default("other");
    updated.current_branch = "next".to_string();
    updated.default_branch = Some("main".to_string());
    updated.ahead = 1;
    updated.behind = 2;
    updated.dirty_files = 3;
    updated.has_remote = true;
    let answers = vec![WorktreeAnswers {
        branch: Some("new\n".to_string()),
        changes: Some("?? z\n".to_string()),
    }];
    refresh_repo_status(&mut repo, Some(updated), &answers);
    assert_eq!(repo.name, "r");
    assert_eq!(repo.current_branch, "next");
    assert_eq!(repo.default_branch.as_deref(), Some("main"));
    assert_eq!((repo.ahead, repo.behind, repo.dirty_files), (1, 2, 3));
    assert!(repo.has_remote);
    assert_eq!(repo.remote_url.as_deref(), Some("keep"));
    assert_eq!(repo.fetch_status, FetchStatus::Fetching);
    assert_eq!(repo.worktrees[0].branch, "new");
    assert_eq!(repo.worktrees[0].dirty_files, 1);
    assert_eq!(repo.worktrees[1].branch, "");
    assert_eq!(repo.worktrees[1].dirty_files, 0);
}

#[test]
fn refresh_without_a_status_asks_the_worktrees_only() {
    let mut repo = Repo::test_default("r");
    repo.behind = 4;
    repo.worktrees = vec![worktree("a")];
    refresh_repo_status(&mut repo, None, &vec![]);
    assert_eq!(repo.behind, 4);
    assert_eq!(repo.worktrees[0].branch, "");
}

// -- Classification --

fn file(text: &str) -> DotGit {
    DotGit::File(Some(text.to_string()))
}

#[test]
fn entries_are_classified_by_their_dot_git() {
    assert!(matches!(classify_entry("/d/x", &DotGit::Missing), Entry::Ignored));
    assert!(matches!(classify_entry("/d/x", &DotGit::Directory), Entry::Main));
    assert!(matches!(classify_entry("/d/x", &DotGit::File(None)), Entry::Ignored));
    assert!(matches!(classify_entry("/d/x", &file("junk")), Entry::Ignored));
    match classify_entry("/d/x", &file("gitdir: /m/.git/worktrees/x\n")) {
        Entry::Worktree(main) => assert_eq!(main, "/m"),
        other => panic!("unexpected {other:?}"),
    }
    match classify_entry("/d/x", &file("gitdir: ../m/.git/worktrees/x")) {
        Entry::Worktree(main) => assert_eq!(main, "/d/x/../m"),
        other => panic!("unexpected {other:?}"),
    }
    match classify_entry("/d/x", &file("gitdir: ./.bare")) {
        Entry::Container(dir) => assert_eq!(dir, "/d/x/./.bare"),
        other => panic!("unexpected {other:?}"),
    }
}

#[test]
fn entries_in_a_container() {
    assert!(matches!(classify_in_container("/c/x", &DotGit::Missing), Entry::Ignored));
    assert!(matches!(classify_in_container("/c/x", &DotGit::Directory), Entry::Main));
    assert!(matches!(classify_in_container("/c/x", &file("junk")), Entry::Main));
    match classify_in_container("/c/x", &file("gitdir: /c/.bare/worktrees/x")) {
        Entry::Worktree(main) => assert_eq!(main, "/c"),
        other => panic!("unexpected {other:?}"),
    }
    assert_eq!(resolve_worktree_main("/c/x", &DotGit::Directory), None);
}

// -- Commands --

#[test]
fn command_results_are_trimmed() {
    assert_eq!(command_result(true, " done\n", "noise"), Ok("done".to_string()));
    assert_eq!(command_result(false, "noise", " bad\n"), Err("bad".to_string()));
}

#[test]
fn waiting_for_a_command() {
    assert_eq!(GIT_TIMEOUT_MS, 15_000);
    assert!(matches!(wait_step(ChildPoll::Exited, 99_999, GIT_TIMEOUT_MS), WaitStep::Collect));
    assert!(matches!(wait_step(ChildPoll::Running, 15_000, GIT_TIMEOUT_MS), WaitStep::Sleep));
    match wait_step(ChildPoll::Running, 15_001, GIT_TIMEOUT_MS) {
        WaitStep::Kill(e) => assert_eq!(e, "timed out"),
        other => panic!("unexpected {other:?}"),
    }
    match wait_step(ChildPoll::Unknown("lost".to_string()), 0, GIT_TIMEOUT_MS) {
        WaitStep::Fail(e) => assert_eq!(e, "lost"),
        other => panic!("unexpected {other:?}"),
    }
}
