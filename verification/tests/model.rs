use gitpulse::model::{
    ForgeKind, ForgeStats, ForgeStatus, Repo, SortMode, SyncState, WorktreeInfo, COLUMN_COUNT,
};

// -- sync_state priority tests --

#[test]
fn sync_state_behind_takes_priority() {
    let mut r = Repo::test_default("r");
    r.behind = 3;
    r.dirty_files = 5;
    r.ahead = 2;
    assert_eq!(r.sync_state(), SyncState::Behind);
}

#[test]
fn sync_state_uncommitted_over_ahead() {
    let mut r = Repo::test_default("r");
    r.dirty_files = 1;
    r.ahead = 10;
    assert_eq!(r.sync_state(), SyncState::Uncommitted);
}

#[test]
fn sync_state_ahead_only() {
    let mut r = Repo::test_default("r");
    r.ahead = 1;
    assert_eq!(r.sync_state(), SyncState::Ahead);
}

#[test]
fn sync_state_in_sync() {
    let r = Repo::test_default("r");
    assert_eq!(r.sync_state(), SyncState::InSync);
}

#[test]
fn sync_state_no_remote_all_zero_is_in_sync() {
    let r = Repo::test_default("r");
    assert!(!r.has_remote);
    assert_eq!(r.sync_state(), SyncState::InSync);
}

// -- secondary_states tests --

#[test]
fn secondary_states_behind_with_dirty_and_ahead() {
    let mut r = Repo::test_default("r");
    r.behind = 1;
    r.dirty_files = 2;
    r.ahead = 3;
    assert_eq!(r.secondary_states(), vec![SyncState::Uncommitted, SyncState::Ahead]);
}

#[test]
fn secondary_states_uncommitted_with_ahead() {
    let mut r = Repo::test_default("r");
    r.dirty_files = 1;
    r.ahead = 5;
    assert_eq!(r.secondary_states(), vec![SyncState::Ahead]);
}

#[test]
fn secondary_states_ahead_only_returns_empty() {
    let mut r = Repo::test_default("r");
    r.ahead = 1;
    assert!(r.secondary_states().is_empty());
}

#[test]
fn secondary_states_in_sync_returns_empty() {
    let r = Repo::test_default("r");
    assert!(r.secondary_states().is_empty());
}

#[test]
fn secondary_states_behind_never_appears_as_secondary() {
    let mut r = Repo::test_default("r");
    r.behind = 5;
    assert!(r.secondary_states().is_empty());
}

// -- label and constant tests --

#[test]
fn sync_state_labels() {
    assert_eq!(SyncState::Behind.label(), "Behind");
    assert_eq!(SyncState::Uncommitted.label(), "Uncommitted");
    assert_eq!(SyncState::InSync.label(), "In Sync");
    assert_eq!(SyncState::Ahead.label(), "Ahead");
}

#[test]
fn column_count_matches_all_variants() {
    assert_eq!(COLUMN_COUNT, 4);
    assert_eq!(COLUMN_COUNT, SyncState::ALL.len());
}

#[test]
fn sort_mode_labels() {
    assert_eq!(SortMode::Name.label(), "Name");
    assert_eq!(SortMode::PullRequests.label(), "PRs");
    assert_eq!(SortMode::Issues.label(), "Issues");
}

#[test]
fn sort_mode_cycles() {
    assert_eq!(SortMode::Name.next(), SortMode::PullRequests);
    assert_eq!(SortMode::PullRequests.next(), SortMode::Issues);
    assert_eq!(SortMode::Issues.next(), SortMode::Name);
}

#[test]
fn forge_kind_labels() {
    assert_eq!(ForgeKind::GitHub.label(), "GitHub");
    assert_eq!(ForgeKind::GitLab.label(), "GitLab");
    assert_eq!(ForgeKind::Gitea.label(), "Gitea");
}

#[test]
fn forge_stats_default_is_zero() {
    let stats = ForgeStats::default();
    assert_eq!(stats.open_prs, 0);
    assert_eq!(stats.open_issues, 0);
    assert!(!stats.is_fork);
}

#[test]
fn test_default_initializes_forge_fields() {
    let r = Repo::test_default("test");
    assert!(r.remote_url.is_none());
    assert!(r.remote_info.is_none());
    assert!(r.forge_stats.is_none());
    assert_eq!(r.forge_status, ForgeStatus::NotApplicable);
}

#[test]
fn test_default_initializes_worktree_fields() {
    let r = Repo::test_default("test");
    assert!(r.worktrees.is_empty());
    assert!(!r.is_worktree);
    assert!(r.worktree_main.is_none());
}

#[test]
fn card_height_no_worktrees() {
    let r = Repo::test_default("r");
    assert_eq!(r.card_height(), 5);
}

#[test]
fn card_height_with_worktrees() {
    let mut r = Repo::test_default("r");
    r.worktrees.push(WorktreeInfo {
        path: "/tmp/wt1".to_string(),
        name: "wt1".to_string(),
        branch: "feat".to_string(),
        dirty_files: 0,
    });
    r.worktrees.push(WorktreeInfo {
        path: "/tmp/wt2".to_string(),
        name: "wt2".to_string(),
        branch: "fix".to_string(),
        dirty_files: 3,
    });
    assert_eq!(r.card_height(), 7);
}

#[test]
fn columns_and_states_match_each_other() {
    for (col, state) in SyncState::ALL.iter().enumerate() {
        assert_eq!(SyncState::at_column(col), *state);
    }
}

#[test]
fn deciding_state_is_never_a_tag() {
    for n in 0..8u32 {
        let mut r = Repo::test_default("r");
        r.behind = n & 1;
        r.dirty_files = (n >> 1) & 1;
        r.ahead = (n >> 2) & 1;
        let tags = r.secondary_states();
        assert!(!tags.contains(&r.sync_state()));
        assert!(!tags.contains(&SyncState::Behind));
        assert_eq!(
            r.ahead > 0,
            r.sync_state() == SyncState::Ahead || tags.contains(&SyncState::Ahead)
        );
    }
}

#[test]
fn card_height_stays_within_sixteen_bits() {
    let mut r = Repo::test_default("r");
    for _ in 0..65535 {
        r.worktrees.push(WorktreeInfo {
            path: String::new(),
            name: String::new(),
            branch: String::new(),
            dirty_files: 0,
        });
    }
    assert_eq!(r.card_height(), 65535);
    r.worktrees.truncate(65530);
    assert_eq!(r.card_height(), 65535);
    r.worktrees.truncate(65529);
    assert_eq!(r.card_height(), 65534);
}
