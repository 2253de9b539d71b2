use gitpulse::app::{
    forge_sort_val, AppState, Overlay, MAX_CONCURRENT_FETCHES, MAX_CONCURRENT_FORGE_FETCHES,
};
use gitpulse::keys::{Effect, Key, KeyPress};
use gitpulse::messages::{worker_count, ActionMessage, Refresh};
use gitpulse::model::{
    FetchStatus, ForgeKind, ForgeStats, ForgeStatus, RemoteInfo, Repo, Scheme, SortMode,
    WorktreeInfo, COLUMN_COUNT,
};

fn key(code: Key) -> KeyPress {
    KeyPress { code, ctrl: false }
}

fn key_ctrl(c: char) -> KeyPress {
    KeyPress { code: Key::Char(c), ctrl: true }
}

/// Helper: repos covering all 4 states.
fn mixed_repos() -> Vec<Repo> {
    let mut behind = Repo::test_default("behind-repo");
    behind.behind = 3;

    let mut dirty1 = Repo::test_default("dirty-repo-1");
    dirty1.dirty_files = 2;

    let mut dirty2 = Repo::test_default("dirty-repo-2");
    dirty2.dirty_files = 1;

    let mut ahead = Repo::test_default("ahead-repo");
    ahead.ahead = 1;

    let synced = Repo::test_default("synced-repo");

    vec![behind, dirty1, dirty2, ahead, synced]
}

// -- Navigation: columns --

#[test]
fn move_column_right_from_zero() {
    let mut app = AppState::new_with_repos(mixed_repos());
    app.move_column(1);
    assert_eq!(app.selected_column, 1);
}

#[test]
fn move_column_left_from_zero_stays() {
    let mut app = AppState::new_with_repos(mixed_repos());
    app.move_column(-1);
    assert_eq!(app.selected_column, 0);
}

#[test]
fn move_column_right_at_last_stays() {
    let mut app = AppState::new_with_repos(mixed_repos());
    app.selected_column = COLUMN_COUNT - 1;
    app.move_column(1);
    assert_eq!(app.selected_column, COLUMN_COUNT - 1);
}

#[test]
fn move_column_clamps_index_on_arrival() {
    let mut app = AppState::new_with_repos(mixed_repos());
    // Uncommitted column (index 1) has 2 repos. Set stale index.
    app.selected_index[1] = 10;
    app.selected_column = 0;
    app.move_column(1);
    assert_eq!(app.selected_column, 1);
    assert_eq!(app.selected_index[1], 1); // clamped to count - 1
}

// -- Navigation: cards --

#[test]
fn move_card_down_from_top() {
    let mut app = AppState::new_with_repos(mixed_repos());
    // Move to Uncommitted column (has 2 repos)
    app.selected_column = 1;
    app.move_card(1);
    assert_eq!(app.selected_index[1], 1);
}

#[test]
fn move_card_up_from_top_stays() {
    let mut app = AppState::new_with_repos(mixed_repos());
    app.move_card(-1);
    assert_eq!(app.selected_index[0], 0);
}

#[test]
fn move_card_down_at_bottom_stays() {
    let mut app = AppState::new_with_repos(mixed_repos());
    // Uncommitted has 2 repos
    app.selected_column = 1;
    app.selected_index[1] = 1;
    app.move_card(1);
    assert_eq!(app.selected_index[1], 1);
}

#[test]
fn move_card_in_empty_column_is_noop() {
    // All repos are InSync, other columns empty
    let repos = vec![Repo::test_default("a"), Repo::test_default("b")];
    let mut app = AppState::new_with_repos(repos);
    app.selected_column = 0; // Behind column, empty
    app.move_card(1);
    assert_eq!(app.selected_index[0], 0);
    app.move_card(-1);
    assert_eq!(app.selected_index[0], 0);
}

// -- Index clamping --

#[test]
fn clamp_all_indices_after_column_shrinks() {
    let mut app = AppState::new_with_repos(mixed_repos());
    // Uncommitted has 2 repos, set index to 1
    app.selected_index[1] = 1;
    // Remove one dirty repo so column has 1
    app.repos.retain(|r| r.name != "dirty-repo-2");
    app.clamp_all_indices();
    assert_eq!(app.selected_index[1], 0);
}

#[test]
fn clamp_all_indices_empty_column() {
    let mut app = AppState::new_with_repos(mixed_repos());
    app.selected_index[0] = 5;
    // Remove the behind repo
    app.repos.retain(|r| r.name != "behind-repo");
    app.clamp_all_indices();
    assert_eq!(app.selected_index[0], 0);
}

// -- Selection --

#[test]
fn selected_repo_returns_correct_repo() {
    let app = AppState::new_with_repos(mixed_repos());
    // Column 0 (Behind) has 1 repo
    let repo = app.selected_repo().unwrap();
    assert_eq!(repo.name, "behind-repo");
}

#[test]
fn selected_repo_returns_none_for_empty_column() {
    let repos = vec![Repo::test_default("a")]; // only InSync
    let mut app = AppState::new_with_repos(repos);
    app.selected_column = 0; // Behind, empty
    assert!(app.selected_repo().is_none());
}

#[test]
fn repos_in_column_groups_correctly() {
    let app = AppState::new_with_repos(mixed_repos());
    assert_eq!(app.repos_in_column(0).len(), 1); // Behind
    assert_eq!(app.repos_in_column(1).len(), 2); // Uncommitted
    assert_eq!(app.repos_in_column(2).len(), 1); // InSync
    assert_eq!(app.repos_in_column(3).len(), 1); // Ahead
}

#[test]
fn column_count_sum_equals_total_repos() {
    let app = AppState::new_with_repos(mixed_repos());
    let total: usize = (0..COLUMN_COUNT).map(|i| app.column_count(i)).sum();
    assert_eq!(total, app.repos.len());
}

// -- Key handling --

#[test]
fn key_q_sets_quit() {
    let mut app = AppState::new_with_repos(mixed_repos());
    app.handle_key(key(Key::Char('q')));
    assert!(app.should_quit);
}

#[test]
fn key_ctrl_c_quits_from_any_overlay() {
    for overlay in [Overlay::Board, Overlay::Detail, Overlay::Help] {
        let mut app = AppState::new_with_repos(mixed_repos());
        app.overlay = overlay;
        app.handle_key(key_ctrl('c'));
        assert!(app.should_quit);
    }
}

#[test]
fn key_enter_opens_detail_when_repo_selected() {
    let mut app = AppState::new_with_repos(mixed_repos());
    app.handle_key(key(Key::Enter));
    assert!(matches!(app.overlay, Overlay::Detail));
}

#[test]
fn key_enter_noop_when_column_empty() {
    let repos = vec![Repo::test_default("a")]; // only InSync
    let mut app = AppState::new_with_repos(repos);
    app.selected_column = 0; // Behind, empty
    app.handle_key(key(Key::Enter));
    assert!(matches!(app.overlay, Overlay::Board));
}

#[test]
fn key_esc_from_detail_returns_to_board() {
    let mut app = AppState::new_with_repos(mixed_repos());
    app.overlay = Overlay::Detail;
    app.handle_key(key(Key::Esc));
    assert!(matches!(app.overlay, Overlay::Board));
}

#[test]
fn key_question_mark_toggles_help() {
    let mut app = AppState::new_with_repos(mixed_repos());
    app.handle_key(key(Key::Char('?')));
    assert!(matches!(app.overlay, Overlay::Help));
    app.handle_key(key(Key::Char('?')));
    assert!(matches!(app.overlay, Overlay::Board));
}

#[test]
fn key_h_l_moves_columns() {
    let mut app = AppState::new_with_repos(mixed_repos());
    app.handle_key(key(Key::Char('l')));
    assert_eq!(app.selected_column, 1);
    app.handle_key(key(Key::Char('h')));
    assert_eq!(app.selected_column, 0);
}

#[test]
fn key_j_k_moves_cards() {
    let mut app = AppState::new_with_repos(mixed_repos());
    app.selected_column = 1; // Uncommitted, 2 repos
    app.handle_key(key(Key::Char('j')));
    assert_eq!(app.selected_index[1], 1);
    app.handle_key(key(Key::Char('k')));
    assert_eq!(app.selected_index[1], 0);
}

// -- Tab cycling --

#[test]
fn tab_cycles_forward_across_columns() {
    let mut app = AppState::new_with_repos(mixed_repos());
    // Start at Behind column, index 0
    assert_eq!(app.selected_column, 0);
    assert_eq!(app.selected_index[0], 0);

    // Tab moves to Uncommitted column, first repo
    app.cycle_repo(1);
    assert_eq!(app.selected_column, 1);
    assert_eq!(app.selected_index[1], 0);

    // Tab again moves to Uncommitted column, second repo
    app.cycle_repo(1);
    assert_eq!(app.selected_column, 1);
    assert_eq!(app.selected_index[1], 1);

    // Tab again moves to InSync column
    app.cycle_repo(1);
    assert_eq!(app.selected_column, 2);
    assert_eq!(app.selected_index[2], 0);
}

#[test]
fn tab_wraps_around_at_end() {
    let mut app = AppState::new_with_repos(mixed_repos());
    // Go to last repo (Ahead column)
    app.selected_column = 3;
    app.selected_index[3] = 0;

    // Tab wraps to Behind column
    app.cycle_repo(1);
    assert_eq!(app.selected_column, 0);
    assert_eq!(app.selected_index[0], 0);
}

#[test]
fn shift_tab_cycles_backward() {
    let mut app = AppState::new_with_repos(mixed_repos());
    // Start at Behind column
    // Shift+Tab wraps to last repo (Ahead)
    app.cycle_repo(-1);
    assert_eq!(app.selected_column, 3);
    assert_eq!(app.selected_index[3], 0);
}

#[test]
fn tab_from_empty_column_selects_first_in_next() {
    // Only Uncommitted repos, Behind column empty
    let mut dirty1 = Repo::test_default("dirty-1");
    dirty1.dirty_files = 1;
    let mut dirty2 = Repo::test_default("dirty-2");
    dirty2.dirty_files = 2;
    let mut app = AppState::new_with_repos(vec![dirty1, dirty2]);
    app.selected_column = 0; // Behind, empty

    app.cycle_repo(1);
    assert_eq!(app.selected_column, 1); // Uncommitted
    assert_eq!(app.selected_index[1], 0); // first repo, not second
}

#[test]
fn shift_tab_from_empty_column_selects_last_before() {
    let mut dirty = Repo::test_default("dirty");
    dirty.dirty_files = 1;
    let synced = Repo::test_default("synced");
    let mut app = AppState::new_with_repos(vec![dirty, synced]);
    app.selected_column = 3; // Ahead, empty

    app.cycle_repo(-1);
    assert_eq!(app.selected_column, 2); // InSync
    assert_eq!(app.selected_index[2], 0);
}

#[test]
fn tab_noop_with_no_repos() {
    let mut app = AppState::new_with_repos(vec![]);
    app.cycle_repo(1);
    assert_eq!(app.selected_column, 0);
    app.cycle_repo(-1);
    assert_eq!(app.selected_column, 0);
}

#[test]
fn tab_key_binding_works() {
    let mut app = AppState::new_with_repos(mixed_repos());
    app.handle_key(key(Key::Tab));
    assert_eq!(app.selected_column, 1);
    assert_eq!(app.selected_index[1], 0);
}

#[test]
fn backtab_key_binding_works() {
    let mut app = AppState::new_with_repos(mixed_repos());
    app.handle_key(key(Key::BackTab));
    assert_eq!(app.selected_column, 3); // wraps to Ahead
}

#[test]
fn tab_works_in_detail_overlay() {
    let mut app = AppState::new_with_repos(mixed_repos());
    app.overlay = Overlay::Detail;
    app.handle_key(key(Key::Tab));
    assert_eq!(app.selected_column, 1);
    assert!(matches!(app.overlay, Overlay::Detail)); // stays in detail
}

#[test]
fn spinner_index_does_not_panic_at_max() {
    let mut app = AppState::new_with_repos(vec![]);
    app.frame = usize::MAX;
    let _ = app.spinner_index(); // should not panic
}

// -- Sort mode --

fn forge_repo(name: &str, prs: u32, issues: u32) -> Repo {
    let mut r = Repo::test_default(name);
    r.remote_info = Some(RemoteInfo {
        kind: ForgeKind::GitHub,
        host: "github.com".to_string(),
        scheme: Scheme::Https,
        owner: "owner".to_string(),
        repo_name: name.to_string(),
    });
    r.forge_stats = Some(ForgeStats { open_prs: prs, open_issues: issues, is_fork: false });
    r.forge_status = ForgeStatus::Done;
    r
}

#[test]
fn key_v_cycles_sort_mode() {
    let mut app = AppState::new_with_repos(mixed_repos());
    assert_eq!(app.sort_mode, SortMode::Name);
    app.handle_key(key(Key::Char('v')));
    assert_eq!(app.sort_mode, SortMode::PullRequests);
    app.handle_key(key(Key::Char('v')));
    assert_eq!(app.sort_mode, SortMode::Issues);
    app.handle_key(key(Key::Char('v')));
    assert_eq!(app.sort_mode, SortMode::Name);
}

#[test]
fn sort_by_prs_within_column() {
    // All repos InSync (same column), different PR counts
    let mut repos = vec![
        forge_repo("low", 1, 3),
        forge_repo("high", 10, 1),
        forge_repo("mid", 5, 7),
    ];
    // Make all InSync
    for r in &mut repos {
        r.behind = 0;
        r.dirty_files = 0;
        r.ahead = 0;
    }
    let mut app = AppState::new_with_repos(repos);
    app.sort_mode = SortMode::PullRequests;
    let col = app.repos_in_column(2); // InSync column
    assert_eq!(col[0].name, "high"); // 10 PRs
    assert_eq!(col[1].name, "mid"); // 5 PRs
    assert_eq!(col[2].name, "low"); // 1 PR
}

#[test]
fn sort_by_issues_within_column() {
    let mut repos = vec![forge_repo("a", 1, 3), forge_repo("b", 10, 100)];
    for r in &mut repos {
        r.behind = 0;
        r.dirty_files = 0;
        r.ahead = 0;
    }
    let mut app = AppState::new_with_repos(repos);
    app.sort_mode = SortMode::Issues;
    let col = app.repos_in_column(2); // InSync
    assert_eq!(col[0].name, "b"); // 100 issues
    assert_eq!(col[1].name, "a"); // 3 issues
}

#[test]
fn sort_by_name_is_default() {
    let mut repos = vec![forge_repo("alpha", 1, 1), forge_repo("zebra", 10, 10)];
    for r in &mut repos {
        r.behind = 0;
        r.dirty_files = 0;
        r.ahead = 0;
    }
    let app = AppState::new_with_repos(repos);
    let col = app.repos_in_column(2); // InSync
    // Name sort preserves insertion order (scan sorts by name)
    assert_eq!(col[0].name, "alpha");
    assert_eq!(col[1].name, "zebra");
}

// -- Shell picker --

fn worktree(name: &str, branch: &str) -> WorktreeInfo {
    WorktreeInfo {
        path: format!("/tmp/{name}"),
        name: name.to_string(),
        branch: branch.to_string(),
        dirty_files: 0,
    }
}

#[test]
fn shell_picker_opens_for_repo_with_worktrees() {
    let mut r = Repo::test_default("main-repo");
    r.worktrees.push(WorktreeInfo {
        path: "/tmp/wt1".to_string(),
        name: "wt1".to_string(),
        branch: "feat".to_string(),
        dirty_files: 0,
    });
    let mut app = AppState::new_with_repos(vec![r]);
    app.selected_column = 2; // InSync
    app.open_shell();
    let Overlay::ShellPicker { paths, .. } = &app.overlay else {
        panic!("expected ShellPicker overlay");
    };
    assert_eq!(paths.len(), 2);
}

#[test]
fn shell_picker_skipped_for_repo_without_worktrees() {
    let r = Repo::test_default("simple-repo");
    let mut app = AppState::new_with_repos(vec![r]);
    app.selected_column = 2; // InSync
    app.open_shell();
    assert!(matches!(app.overlay, Overlay::Board));
    assert!(app.pending_shell.is_some());
}

#[test]
fn shell_picker_navigation_and_select() {
    let mut app = AppState::new_with_repos(vec![]);
    app.overlay = Overlay::ShellPicker {
        paths: vec![
            ("main".to_string(), "/a".to_string()),
            ("wt: feat".to_string(), "/b".to_string()),
        ],
        index: 0,
    };

    // Move down
    app.handle_key(key(Key::Char('j')));
    let Overlay::ShellPicker { index, .. } = &app.overlay else {
        panic!("expected ShellPicker");
    };
    assert_eq!(*index, 1);

    // Select
    app.handle_key(key(Key::Enter));
    assert_eq!(app.pending_shell, Some("/b".to_string()));
    assert!(matches!(app.overlay, Overlay::Board));
}

#[test]
fn shell_picker_esc_cancels() {
    let mut app = AppState::new_with_repos(vec![]);
    app.overlay = Overlay::ShellPicker {
        paths: vec![("test".to_string(), "/a".to_string())],
        index: 0,
    };
    app.handle_key(key(Key::Esc));
    assert!(matches!(app.overlay, Overlay::Board));
    assert!(app.pending_shell.is_none());
}

#[test]
fn shell_picker_offers_the_repo_first() {
    let mut r = Repo::test_default("main-repo");
    r.worktrees.push(worktree("wt1", "feat"));
    let mut app = AppState::new_with_repos(vec![r]);
    app.selected_column = 2;
    app.handle_key(key(Key::Char('s')));
    let Overlay::ShellPicker { paths, index } = &app.overlay else {
        panic!("expected ShellPicker");
    };
    assert_eq!(*index, 0);
    assert_eq!(paths[0], ("main: main-repo".to_string(), "/tmp/main-repo".to_string()));
    assert_eq!(paths[1], ("wt: feat".to_string(), "/tmp/wt1".to_string()));
}

#[test]
fn shell_picker_index_stays_within_choices() {
    let mut app = AppState::new_with_repos(vec![]);
    app.overlay = Overlay::ShellPicker {
        paths: vec![("a".to_string(), "/a".to_string()), ("b".to_string(), "/b".to_string())],
        index: 0,
    };
    for (code, want) in [
        (Key::Up, 0),
        (Key::Char('k'), 0),
        (Key::Down, 1),
        (Key::Down, 1),
        (Key::Char('j'), 1),
        (Key::Char('x'), 1),
        (Key::Up, 0),
    ] {
        app.handle_key(key(code));
        let Overlay::ShellPicker { index, .. } = &app.overlay else {
            panic!("expected ShellPicker");
        };
        assert_eq!(*index, want);
    }
    app.handle_key(key(Key::Char('q')));
    assert!(matches!(app.overlay, Overlay::Board));
    assert!(!app.should_quit);
}

#[test]
fn shell_picker_without_choices_stays_open() {
    let mut app = AppState::new_with_repos(vec![]);
    app.overlay = Overlay::ShellPicker { paths: vec![], index: 0 };
    app.handle_key(key(Key::Down));
    app.handle_key(key(Key::Enter));
    assert!(matches!(app.overlay, Overlay::ShellPicker { index: 0, .. }));
    assert_eq!(app.pending_shell, None);
}

// -- Keys, further --

#[test]
fn esc_quits_from_the_board() {
    for repos in [vec![], mixed_repos()] {
        let mut app = AppState::new_with_repos(repos);
        assert_eq!(app.handle_key(key(Key::Esc)), Effect::Nothing);
        assert!(app.should_quit);
        assert!(matches!(app.overlay, Overlay::Board));
    }
}

#[test]
fn esc_closes_the_overlay_before_it_quits() {
    let mut app = AppState::new_with_repos(mixed_repos());
    app.overlay = Overlay::Help;
    app.handle_key(key(Key::Esc));
    assert!(!app.should_quit);
    app.handle_key(key(Key::Esc));
    assert!(app.should_quit);
}

#[test]
fn overlays_are_closed_without_quitting() {
    for code in [Key::Esc, Key::Char('q')] {
        for overlay in [Overlay::Detail, Overlay::Help] {
            let mut app = AppState::new_with_repos(mixed_repos());
            app.overlay = overlay;
            app.handle_key(key(code));
            assert!(matches!(app.overlay, Overlay::Board));
            assert!(!app.should_quit);
        }
    }
}

#[test]
fn pull_and_push_work_on_the_selection() {
    for overlay in [Overlay::Board, Overlay::Detail] {
        let mut app = AppState::new_with_repos(mixed_repos());
        app.overlay = overlay;
        let effect = app.handle_key(key(Key::Char('p')));
        assert_eq!(
            effect,
            Effect::Pull { path: "/tmp/behind-repo".to_string(), name: "behind-repo".to_string() }
        );
        assert_eq!(app.status_message.as_deref(), Some("Pulling behind-repo..."));
        let effect = app.handle_key(key(Key::Char('P')));
        assert_eq!(
            effect,
            Effect::Push { path: "/tmp/behind-repo".to_string(), name: "behind-repo".to_string() }
        );
        assert_eq!(app.status_message.as_deref(), Some("Pushing behind-repo..."));
    }
}

#[test]
fn nothing_is_pulled_from_an_empty_column() {
    let mut app = AppState::new_with_repos(vec![Repo::test_default("a")]);
    assert_eq!(app.handle_key(key(Key::Char('p'))), Effect::Nothing);
    assert_eq!(app.handle_key(key(Key::Char('P'))), Effect::Nothing);
    app.handle_key(key(Key::Char('s')));
    assert_eq!(app.status_message, None);
    assert_eq!(app.pending_shell, None);
}

#[test]
fn refresh_key_asks_for_a_scan() {
    let mut app = AppState::new_with_repos(mixed_repos());
    assert_eq!(app.handle_key(key(Key::Char('r'))), Effect::Rescan);
    app.overlay = Overlay::Help;
    assert_eq!(app.handle_key(key(Key::Char('r'))), Effect::Nothing);
}

#[test]
fn tab_and_back_tab_come_back() {
    let mut app = AppState::new_with_repos(mixed_repos());
    for _ in 0..7 {
        let before = app.selected_repo().unwrap().name.clone();
        app.handle_key(key(Key::Tab));
        let between = app.selected_repo().unwrap().name.clone();
        assert!(before != between);
        app.handle_key(key(Key::BackTab));
        assert_eq!(app.selected_repo().unwrap().name, before);
        app.handle_key(key(Key::Tab));
    }
}

#[test]
fn tab_visits_every_repo_once_in_a_round() {
    let mut app = AppState::new_with_repos(mixed_repos());
    let mut seen = vec![];
    for _ in 0..5 {
        seen.push(app.selected_repo().unwrap().name.clone());
        app.cycle_repo(1);
    }
    assert_eq!(
        seen,
        vec!["behind-repo", "dirty-repo-1", "dirty-repo-2", "synced-repo", "ahead-repo"]
    );
    assert_eq!(app.selected_repo().unwrap().name, "behind-repo");
}

#[test]
fn sort_value_is_zero_without_stats() {
    let plain = Repo::test_default("x");
    assert_eq!(forge_sort_val(&plain, SortMode::Issues), 0);
    let r = forge_repo("y", 3, 8);
    assert_eq!(forge_sort_val(&r, SortMode::PullRequests), 3);
    assert_eq!(forge_sort_val(&r, SortMode::Issues), 8);
}

#[test]
fn equal_sort_values_keep_the_order_of_names() {
    let repos = vec![
        forge_repo("a", 2, 0),
        Repo::test_default("b"),
        forge_repo("c", 2, 0),
        forge_repo("d", 5, 0),
        Repo::test_default("e"),
    ];
    let mut app = AppState::new_with_repos(repos);
    app.sort_mode = SortMode::PullRequests;
    let names: Vec<&str> = app.repos_in_column(2).iter().map(|r| r.name.as_str()).collect();
    assert_eq!(names, vec!["d", "a", "c", "b", "e"]);
}

#[test]
fn frames_count_around() {
    let mut app = AppState::new_with_repos(vec![]);
    assert_eq!(app.spinner_index(), 0);
    app.tick();
    app.tick();
    assert_eq!(app.spinner_index(), 1);
    app.frame = usize::MAX;
    app.tick();
    assert_eq!(app.frame, 0);
}

#[test]
fn move_card_by_more_than_one() {
    let repos = (0..6).map(|n| Repo::test_default(&format!("r{n}"))).collect();
    let mut app = AppState::new_with_repos(repos);
    app.selected_column = 2;
    app.move_card(4);
    assert_eq!(app.selected_index[2], 4);
    app.move_card(4);
    assert_eq!(app.selected_index[2], 5);
    app.move_card(-100);
    assert_eq!(app.selected_index[2], 0);
}

#[test]
fn arriving_in_an_empty_column_keeps_its_index() {
    let mut app = AppState::new_with_repos(vec![Repo::test_default("a")]);
    app.selected_index[1] = 4;
    app.move_column(1);
    assert_eq!(app.selected_column, 1);
    assert_eq!(app.selected_index[1], 4);
}

// -- First scan and refresh --

#[test]
fn board_of_a_first_scan() {
    let app = AppState::new("/src", Ok(mixed_repos()));
    assert_eq!(app.repos.len(), 5);
    assert_eq!(app.scan_path, "/src");
    assert_eq!(app.status_message, None);
    let failed = AppState::new("/src", Err("Cannot read /src".to_string()));
    assert!(failed.repos.is_empty());
    assert_eq!(failed.status_message.as_deref(), Some("Cannot read /src"));
}

#[test]
fn refresh_starts_over() {
    let mut app = AppState::new_with_repos(mixed_repos());
    app.selected_column = 1;
    app.selected_index = [0, 1, 0, 0];
    app.refresh(Ok(vec![Repo::test_default("only")]));
    assert_eq!(app.repos.len(), 1);
    assert_eq!(app.selected_index, [0, 0, 0, 0]);
    assert_eq!(app.selected_column, 1);
    assert_eq!(app.status_message.as_deref(), Some("Refreshing..."));
    app.refresh(Err("gone".to_string()));
    assert!(app.repos.is_empty());
    assert_eq!(app.status_message.as_deref(), Some("gone"));
}

// -- Work to hand out --

#[test]
fn queues_hold_what_can_be_asked() {
    let mut a = forge_repo("a", 0, 0);
    a.has_remote = true;
    let b = Repo::test_default("b");
    let mut c = Repo::test_default("c");
    c.has_remote = true;
    let app = AppState::new_with_repos(vec![a, b, c]);
    assert_eq!(app.fetch_queue(), vec!["/tmp/a", "/tmp/c"]);
    let queue = app.forge_queue();
    assert_eq!(queue.len(), 1);
    assert_eq!(queue[0].0, "/tmp/a");
    assert_eq!(queue[0].1.repo_name, "a");
}

#[test]
fn workers_are_bounded() {
    assert_eq!(MAX_CONCURRENT_FETCHES, 8);
    assert_eq!(MAX_CONCURRENT_FORGE_FETCHES, 4);
    assert_eq!(worker_count(MAX_CONCURRENT_FETCHES, 3), 3);
    assert_eq!(worker_count(MAX_CONCURRENT_FETCHES, 8), 8);
    assert_eq!(worker_count(MAX_CONCURRENT_FORGE_FETCHES, 100), 4);
    assert_eq!(worker_count(MAX_CONCURRENT_FETCHES, 0), 0);
}

// -- Messages --

fn fresh(behind: u32) -> Refresh {
    let mut r = Repo::test_default("fresh");
    r.behind = behind;
    Refresh { status: Some(r), worktrees: vec![] }
}

#[test]
fn fetch_messages_move_a_repo_between_columns() {
    let mut app = AppState::new_with_repos(mixed_repos());
    let path = || "/tmp/behind-repo".to_string();
    app.process_message(ActionMessage::FetchStarting(path()), Refresh::nothing());
    assert_eq!(app.repos[0].fetch_status, FetchStatus::Fetching);
    let done = ActionMessage::FetchCompleted(path(), Ok(()));
    assert_eq!(app.refresh_target(&done).unwrap().name, "behind-repo");
    app.process_message(done, fresh(0));
    assert_eq!(app.repos[0].fetch_status, FetchStatus::Done);
    assert_eq!(app.repos[0].behind, 0);
    assert_eq!(app.column_count(0), 0);
    assert_eq!(app.column_count(2), 2);
}

#[test]
fn failed_fetch_keeps_the_counts() {
    let mut app = AppState::new_with_repos(mixed_repos());
    let failed = ActionMessage::FetchCompleted("/tmp/behind-repo".to_string(), Err("e".to_string()));
    assert!(app.refresh_target(&failed).is_none());
    app.process_message(failed, Refresh::nothing());
    assert_eq!(app.repos[0].fetch_status, FetchStatus::Failed("e".to_string()));
    assert_eq!(app.repos[0].behind, 3);
}

#[test]
fn a_repo_is_found_by_its_place() {
    let app = AppState::new_with_repos(mixed_repos());
    assert_eq!(app.repo_by_path("/tmp//ahead-repo/."), Some(3));
    assert_eq!(app.repo_by_path("/tmp/nowhere"), None);
    let done = ActionMessage::FetchCompleted("/tmp/nowhere".to_string(), Ok(()));
    assert!(app.refresh_target(&done).is_none());
}

#[test]
fn pull_and_push_messages_say_what_happened() {
    let mut app = AppState::new_with_repos(mixed_repos());
    let path = || "/tmp/behind-repo".to_string();
    let name = || "behind-repo".to_string();
    app.process_message(
        ActionMessage::PullCompleted(path(), name(), Ok("Fast-forward".to_string())),
        fresh(0),
    );
    assert_eq!(app.status_message.as_deref(), Some("Pulled behind-repo: Fast-forward"));
    assert_eq!(app.repos[0].behind, 0);
    app.process_message(
        ActionMessage::PushCompleted(path(), name(), Err("rejected".to_string())),
        Refresh::nothing(),
    );
    assert_eq!(app.status_message.as_deref(), Some("Push failed for behind-repo: rejected"));
    app.process_message(
        ActionMessage::PushCompleted(path(), name(), Ok("".to_string())),
        fresh(0),
    );
    assert_eq!(app.status_message.as_deref(), Some("Pushed behind-repo: "));
    app.process_message(
        ActionMessage::PullCompleted(path(), name(), Err("x".to_string())),
        Refresh::nothing(),
    );
    assert_eq!(app.status_message.as_deref(), Some("Pull failed for behind-repo: x"));
}

#[test]
fn forge_messages_bring_stats() {
    let mut app = AppState::new_with_repos(mixed_repos());
    let path = || "/tmp/synced-repo".to_string();
    app.process_message(ActionMessage::ForgeStarting(path()), Refresh::nothing());
    assert_eq!(app.repos[4].forge_status, ForgeStatus::Fetching);
    let stats = ForgeStats { open_prs: 1, open_issues: 2, is_fork: true };
    app.process_message(ActionMessage::ForgeCompleted(path(), Ok(stats)), Refresh::nothing());
    assert_eq!(app.repos[4].forge_status, ForgeStatus::Done);
    assert_eq!(app.repos[4].forge_stats, Some(stats));
    app.process_message(
        ActionMessage::ForgeCompleted(path(), Err("403".to_string())),
        Refresh::nothing(),
    );
    assert_eq!(app.repos[4].forge_status, ForgeStatus::Failed("403".to_string()));
    assert_eq!(app.repos[4].forge_stats, Some(stats));
}

#[test]
fn messages_about_unknown_paths_change_no_repo() {
    let mut app = AppState::new_with_repos(mixed_repos());
    app.selected_index[1] = 9;
    app.process_message(
        ActionMessage::FetchCompleted("/tmp/nowhere".to_string(), Ok(())),
        fresh(9),
    );
    let behind: Vec<u32> = app.repos.iter().map(|r| r.behind).collect();
    assert_eq!(behind, vec![3, 0, 0, 0, 0]);
    assert_eq!(app.selected_index[1], 1); // brought within the column all the same
}

#[test]
fn start_messages_leave_the_indices_alone() {
    let mut app = AppState::new_with_repos(mixed_repos());
    app.selected_index[1] = 9;
    app.process_message(
        ActionMessage::FetchStarting("/tmp/ahead-repo".to_string()),
        Refresh::nothing(),
    );
    assert_eq!(app.selected_index[1], 9);
}

#[test]
fn clamping_twice_is_clamping_once() {
    let mut app = AppState::new_with_repos(mixed_repos());
    app.selected_index = [9, 9, 9, 9];
    app.clamp_all_indices();
    let once = app.selected_index;
    assert_eq!(once, [0, 1, 0, 0]);
    app.clamp_all_indices();
    assert_eq!(app.selected_index, once);
}

#[test]
fn down_and_up_come_back() {
    let mut app = AppState::new_with_repos(mixed_repos());
    app.selected_column = 1;
    app.move_card(1);
    app.move_card(-1);
    assert_eq!(app.selected_index[1], 0);
}
