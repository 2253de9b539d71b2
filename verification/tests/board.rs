use gitpulse::app::AppState;
use gitpulse::model::{
    FetchStatus, ForgeKind, ForgeStats, ForgeStatus, RemoteInfo, Repo, Scheme, WorktreeInfo,
};
use gitpulse::ui::area::{centered_rect, column_areas, screen_areas, Area};
use gitpulse::ui::board_view::{
    build_card_title, compute_scroll_offset, is_chosen, render_branch_line, render_card_lines,
    render_forge_line, render_stats_line, status_color, view_card, view_card_at, view_column,
    ScrollbarView,
};
use gitpulse::ui::help::{help_lines, render_help};
use gitpulse::ui::paint::{Color, Span, Style};
use gitpulse::ui::picker::render_shell_picker;
use gitpulse::ui::repo_detail::{detail_lines, render_detail};
use gitpulse::ui::status_bar::render_status_bar;

#[test]
fn scroll_offset_selected_at_top() {
    let heights = vec![5, 5, 5, 5];
    assert_eq!(compute_scroll_offset(&heights, 0, 20), 0);
}

#[test]
fn scroll_offset_selected_fits() {
    let heights = vec![5, 5, 5, 5];
    // viewport=15, cards 0-2 fit (15 total), selected=2
    assert_eq!(compute_scroll_offset(&heights, 2, 15), 0);
}

#[test]
fn scroll_offset_selected_needs_scroll() {
    let heights = vec![5, 5, 5, 5];
    // viewport=10, only 2 cards fit, selected=3
    assert_eq!(compute_scroll_offset(&heights, 3, 10), 2);
}

#[test]
fn scroll_offset_mixed_heights() {
    let heights = vec![5, 7, 5, 6]; // total 23
    // viewport=12, selected=2: heights[1..=2] = 7+5 = 12, fits from offset 1
    assert_eq!(compute_scroll_offset(&heights, 2, 12), 1);
}

#[test]
fn scroll_offset_card_taller_than_viewport() {
    let heights = vec![5, 20, 5];
    // Card 1 is 20, viewport is 10 — offset becomes selected itself
    assert_eq!(compute_scroll_offset(&heights, 1, 10), 1);
}

#[test]
fn scroll_offset_empty() {
    assert_eq!(compute_scroll_offset(&[], 0, 20), 0);
}

#[test]
fn scroll_offset_single_card() {
    assert_eq!(compute_scroll_offset(&[5], 0, 20), 0);
    assert_eq!(compute_scroll_offset(&[5], 0, 3), 0);
}

#[test]
fn scroll_offset_of_stale_selection_is_that_of_the_last_card() {
    assert_eq!(compute_scroll_offset(&[5, 5, 5], 9, 10), 1);
}

#[test]
fn scroll_offset_of_very_high_cards() {
    assert_eq!(compute_scroll_offset(&[65535, 65535, 5], 2, 10), 2);
    assert_eq!(compute_scroll_offset(&[65535, 0, 5], 2, 10), 1);
}

// -- Areas --

fn area(x: u16, y: u16, width: u16, height: u16) -> Area {
    Area { x, y, width, height }
}

fn way(size: u32, percent: u32) -> u32 {
    (size * percent + 50) / 100
}

#[test]
fn columns_are_quarters() {
    assert_eq!(
        column_areas(area(0, 0, 100, 30)),
        vec![
            area(0, 0, 25, 30),
            area(25, 0, 25, 30),
            area(50, 0, 25, 30),
            area(75, 0, 25, 30),
        ]
    );
    let odd = column_areas(area(3, 2, 10, 7));
    assert_eq!(odd, vec![area(3, 2, 3, 7), area(6, 2, 2, 7), area(8, 2, 3, 7), area(11, 2, 2, 7)]);
}

#[test]
fn columns_of_every_width() {
    for width in 0..=250u16 {
        for x in [0u16, 7, 1000] {
            let columns = column_areas(area(x, 1, width, 9));
            for col in 0..4u32 {
                let part = columns[col as usize];
                let start = x as u32 + way(width as u32, 25 * col);
                let end = x as u32 + way(width as u32, 25 * col + 25);
                assert_eq!((part.x as u32, part.width as u32), (start, end - start));
                assert_eq!((part.y, part.height), (1, 9));
            }
        }
    }
    for width in (0..=65535u16).step_by(211) {
        let columns = column_areas(area(0, 0, width, 1));
        for col in 0..4u32 {
            let part = columns[col as usize];
            let start = way(width as u32, 25 * col);
            let end = way(width as u32, 25 * col + 25);
            assert_eq!((part.x as u32, part.width as u32), (start, end - start));
        }
    }
}

#[test]
fn screen_is_board_and_bar() {
    let (board, bar) = screen_areas(area(0, 0, 80, 24));
    assert_eq!(board, area(0, 0, 80, 23));
    assert_eq!(bar, area(0, 23, 80, 1));
    let (board, bar) = screen_areas(area(5, 9, 80, 1));
    assert_eq!(board, area(5, 9, 80, 0));
    assert_eq!(bar, area(5, 9, 80, 1));
    let (board, bar) = screen_areas(area(5, 9, 80, 0));
    assert_eq!((board.y, board.height), (9, 0));
    assert_eq!((bar.y, bar.height), (9, 0));
    for height in 1..=300u16 {
        let (board, bar) = screen_areas(area(0, 4, 10, height));
        assert_eq!(board, area(0, 4, 10, height - 1));
        assert_eq!(bar, area(0, 4 + height - 1, 10, 1));
    }
}

#[test]
fn centered_areas() {
    assert_eq!(centered_rect(50, 60, area(0, 0, 100, 50)), area(25, 10, 50, 30));
    assert_eq!(centered_rect(70, 60, area(0, 0, 80, 24)), area(12, 5, 56, 14));
    assert_eq!(centered_rect(100, 100, area(3, 4, 5, 6)), area(3, 4, 5, 6));
    assert_eq!(centered_rect(0, 0, area(0, 0, 10, 10)), area(5, 5, 0, 0));
}

#[test]
fn centered_areas_of_every_size() {
    for percent in [0u16, 1, 33, 50, 51, 60, 70, 99, 100] {
        for size in 0..=120u16 {
            let r = centered_rect(percent, percent, area(2, 1, size, size));
            let side = (100 - percent as u32) / 2;
            let start = way(size as u32, side);
            let end = way(size as u32, side + percent as u32);
            assert_eq!((r.x as u32, r.width as u32), (2 + start, end - start));
            assert_eq!((r.y as u32, r.height as u32), (1 + start, end - start));
        }
    }
    for percent in 0..=100u16 {
        for size in [13u16, 80, 211, 1000, 65535] {
            let r = centered_rect(percent, 100, area(0, 0, size, 1));
            let side = (100 - percent as u32) / 2;
            let start = way(size as u32, side);
            let end = way(size as u32, side + percent as u32);
            assert_eq!((r.x as u32, r.width as u32), (start, end - start));
        }
    }
}

#[test]
fn rows_of_an_area() {
    let a = area(1, 2, 3, 4);
    assert_eq!(a.row_at(0), area(1, 2, 3, 1));
    assert_eq!(a.row_at(3), area(1, 5, 3, 1));
    assert!(a.fits_screen());
    assert!(!area(65535, 0, 1, 0).fits_screen());
}

// -- Columns --

fn synced(count: usize) -> AppState {
    let repos = (0..count).map(|n| Repo::test_default(&format!("r{n}"))).collect();
    let mut app = AppState::new_with_repos(repos);
    app.selected_column = 2;
    app
}

#[test]
fn column_shows_its_cards_below_one_another() {
    let app = synced(3);
    let view = view_column(&app, 2, area(10, 1, 20, 30));
    assert_eq!(view.title, " In Sync (3) ");
    assert_eq!(view.frame, Style { fg: Some(Color::Reset), bold: true, reversed: false });
    assert_eq!(
        view.cards,
        vec![
            (0, area(11, 2, 18, 5)),
            (1, area(11, 7, 18, 5)),
            (2, area(11, 12, 18, 5)),
        ]
    );
    assert_eq!(view.scrollbar, None);
    let other = view_column(&app, 0, area(0, 1, 10, 30));
    assert_eq!(other.title, " Behind (0) ");
    assert_eq!(other.frame, Style { fg: Some(Color::DarkGray), bold: false, reversed: false });
    assert!(other.cards.is_empty());
}

#[test]
fn column_scrolls_to_the_selection() {
    let mut app = synced(5);
    app.selected_index[2] = 3;
    let view = view_column(&app, 2, area(0, 0, 20, 14));
    // twelve rows within the frame: two cards fit
    assert_eq!(view.cards, vec![(2, area(1, 1, 18, 5)), (3, area(1, 6, 18, 5))]);
    assert_eq!(
        view.scrollbar,
        Some(ScrollbarView { area: area(0, 1, 20, 12), length: 5, position: 3 })
    );
}

#[test]
fn column_without_room_shows_nothing() {
    let app = synced(2);
    let flat = view_column(&app, 2, area(0, 0, 20, 2));
    assert!(flat.cards.is_empty());
    assert_eq!(flat.scrollbar, None);
    let low = view_column(&app, 2, area(0, 0, 20, 6));
    assert!(low.cards.is_empty()); // four rows, and a card takes five
    assert_eq!(low.scrollbar.unwrap().area, area(0, 1, 20, 4));
}

// -- Cards --

fn colored(text: &str, c: Color) -> Span {
    Span { text: text.to_string(), style: Style { fg: Some(c), bold: false, reversed: false } }
}

fn raw(text: &str) -> Span {
    Span { text: text.to_string(), style: Style { fg: None, bold: false, reversed: false } }
}

fn bold(text: &str) -> Span {
    Span { text: text.to_string(), style: Style { fg: None, bold: true, reversed: false } }
}

fn strong(text: &str, c: Color) -> Span {
    Span { text: text.to_string(), style: Style { fg: Some(c), bold: true, reversed: false } }
}

fn worktree(branch: &str, dirty: u32) -> WorktreeInfo {
    WorktreeInfo {
        path: format!("/wt/{branch}"),
        name: branch.to_string(),
        branch: branch.to_string(),
        dirty_files: dirty,
    }
}

#[test]
fn branch_line_shows_the_default_branch_where_it_differs() {
    let mut r = Repo::test_default("r");
    assert_eq!(render_branch_line(&r, 0), vec![colored("branch:main", Color::White)]);
    r.default_branch = Some("main".to_string());
    assert_eq!(render_branch_line(&r, 0).len(), 1);
    r.default_branch = Some("trunk".to_string());
    assert_eq!(
        render_branch_line(&r, 0),
        vec![
            colored("branch:main", Color::White),
            raw("  "),
            colored("default:trunk", Color::DarkGray),
        ]
    );
}

#[test]
fn branch_line_shows_the_fetch() {
    let mut r = Repo::test_default("r");
    r.fetch_status = FetchStatus::Queued;
    assert_eq!(render_branch_line(&r, 0)[1], colored(" ⏳", Color::Yellow));
    r.fetch_status = FetchStatus::Failed("x".to_string());
    assert_eq!(render_branch_line(&r, 0)[1], colored(" ✗", Color::Yellow));
    r.fetch_status = FetchStatus::Fetching;
    let frames = ["⠋", "⠙", "⠹", "⠸", "⠼", "⠴", "⠦", "⠧", "⠇", "⠏"];
    for n in 0..25 {
        let want = format!(" {}", frames[n % 10]);
        assert_eq!(render_branch_line(&r, n)[1], colored(&want, Color::Yellow));
    }
}

#[test]
fn stats_line_shows_counts_and_tags() {
    let mut r = Repo::test_default("r");
    assert_eq!(render_stats_line(&r), vec![colored("✓", Color::Green)]);
    r.behind = 3;
    r.ahead = 2;
    r.dirty_files = 5;
    assert_eq!(
        render_stats_line(&r),
        vec![
            colored("↓3", Color::Red),
            raw(" "),
            colored("↑2", Color::Green),
            raw(" "),
            colored("*5", Color::Yellow),
            raw(" "),
            colored("[uncommitted]", Color::DarkGray),
            raw(" "),
            colored("[ahead]", Color::DarkGray),
            raw(" "),
        ]
    );
}

#[test]
fn forge_line_by_status() {
    let mut r = Repo::test_default("r");
    assert!(render_forge_line(&r).is_empty());
    r.forge_status = ForgeStatus::Queued;
    assert_eq!(render_forge_line(&r), vec![colored("PR ...  Issues ...", Color::DarkGray)]);
    r.forge_status = ForgeStatus::Fetching;
    assert_eq!(render_forge_line(&r), vec![colored("PR ...  Issues ...", Color::DarkGray)]);
    r.forge_status = ForgeStatus::Failed("403".to_string());
    assert_eq!(render_forge_line(&r), vec![colored("err", Color::Red)]);
    r.forge_status = ForgeStatus::Done;
    assert!(render_forge_line(&r).is_empty());
    r.forge_stats = Some(ForgeStats { open_prs: 1, open_issues: 30, is_fork: true });
    assert_eq!(
        render_forge_line(&r),
        vec![
            colored("PR 1", Color::Green),
            raw("  "),
            colored("Issues 30", Color::Red),
            raw("  "),
            colored("Fork", Color::DarkGray),
        ]
    );
}

#[test]
fn card_lines_as_far_as_there_is_room() {
    let mut r = Repo::test_default("r");
    r.worktrees = vec![worktree("a", 0), worktree("b", 4)];
    let all = render_card_lines(&r, area(0, 0, 10, 9), 0);
    assert_eq!(all.len(), 5);
    assert_eq!(
        all[3],
        vec![
            colored("↳ ", Color::DarkGray),
            colored("a", Color::Cyan),
            colored("  ✓", Color::Green),
        ]
    );
    assert_eq!(all[4][2], colored("  *4", Color::Yellow));
    for height in 0..=5u16 {
        assert_eq!(render_card_lines(&r, area(0, 0, 10, height), 0).len(), height as usize);
    }
    assert!(render_card_lines(&r, area(0, 0, 0, 9), 0).is_empty());
}

#[test]
fn name_colors() {
    let mut r = Repo::test_default("r");
    assert_eq!(status_color(&r), Color::Yellow);
    r.has_remote = true;
    assert_eq!(status_color(&r), Color::Reset);
    r.ahead = 1;
    assert_eq!(status_color(&r), Color::Green);
    r.dirty_files = 1;
    assert_eq!(status_color(&r), Color::Yellow);
    r.behind = 1;
    assert_eq!(status_color(&r), Color::Red);
}

#[test]
fn card_titles() {
    let mut r = Repo::test_default("proj");
    assert_eq!(
        build_card_title(&r, Color::Red),
        vec![raw(" "), strong("proj", Color::Red), colored(" ⚠", Color::Yellow), raw(" ")]
    );
    r.has_remote = true;
    r.worktrees = vec![worktree("a", 0), worktree("b", 0)];
    assert_eq!(
        build_card_title(&r, Color::Reset),
        vec![
            raw(" "),
            strong("proj", Color::Reset),
            colored(" (+2 wt)", Color::DarkGray),
            raw(" "),
        ]
    );
    r.is_worktree = true;
    r.worktree_main = Some("/home/me/parent/".to_string());
    r.current_branch = "feat".to_string();
    assert_eq!(
        build_card_title(&r, Color::Green),
        vec![
            raw(" "),
            strong("parent", Color::Green),
            colored(" [feat]", Color::Cyan),
            raw(" "),
        ]
    );
    r.worktree_main = Some("/".to_string());
    assert_eq!(build_card_title(&r, Color::Green)[1], strong("proj", Color::Green));
}

#[test]
fn card_frames() {
    let r = Repo::test_default("r");
    let chosen = view_card(&r, area(0, 0, 20, 5), true, true, 0);
    assert!(chosen.thick);
    assert_eq!(chosen.frame, Style { fg: Some(Color::Reset), bold: true, reversed: false });
    assert_eq!(chosen.inner, area(1, 1, 18, 3));
    assert_eq!(chosen.lines.len(), 3);
    let near = view_card(&r, area(0, 0, 20, 5), false, true, 0);
    assert!(!near.thick);
    assert_eq!(near.frame, Style { fg: Some(Color::Reset), bold: false, reversed: false });
    let far = view_card(&r, area(0, 0, 20, 5), false, false, 0);
    assert_eq!(far.frame, Style { fg: Some(Color::DarkGray), bold: false, reversed: false });
    let tiny = view_card(&r, area(4, 4, 1, 1), false, false, 0);
    assert_eq!(tiny.inner, area(5, 5, 0, 0));
    assert!(tiny.lines.is_empty());
    let none = view_card(&r, area(4, 4, 0, 0), false, false, 0);
    assert_eq!(none.inner, area(4, 4, 0, 0));
}

#[test]
fn one_card_is_drawn_as_the_selection() {
    let mut app = synced(3);
    app.selected_index = [1, 1, 1, 1];
    let mut thick = vec![];
    for place in 0..3 {
        let card = view_card_at(&app, 2, place, area(0, 0, 20, 5));
        assert_eq!(card.thick, is_chosen(&app, 2, place));
        assert_eq!(card.frame.fg, Some(Color::Reset));
        if card.thick {
            thick.push(card.title[1].text.clone());
        }
    }
    assert_eq!(thick, vec![app.selected_repo().unwrap().name.clone()]);
    assert!(!is_chosen(&app, 0, 1));
    app.selected_column = 0;
    let away = view_card_at(&app, 2, 1, area(0, 0, 20, 5));
    assert!(!away.thick);
    assert_eq!(away.frame.fg, Some(Color::DarkGray));
}

// -- Overlays --

fn text(line: &Vec<Span>) -> String {
    line.iter().map(|s| s.text.as_str()).collect()
}

#[test]
fn details_of_a_plain_repo() {
    let r = Repo::test_default("r");
    let lines = detail_lines(&r);
    let texts: Vec<String> = lines.iter().map(text).collect();
    assert_eq!(
        texts,
        vec![
            "Path: /tmp/r",
            "",
            "Current branch: main",
            "",
            "Remote: none ⚠",
            "Behind: 0",
            "Ahead: 0",
            "Dirty files: 0",
            "",
            "Fetch: complete",
            "",
            "p pull  P push  s shell  q/Esc close",
        ]
    );
    assert_eq!(lines[0], vec![bold("Path: "), raw("/tmp/r")]);
    assert_eq!(lines[4][1], colored("none ⚠", Color::Yellow));
    assert_eq!(lines[5][1], raw("0"));
}

#[test]
fn details_of_a_busy_repo() {
    let mut r = Repo::test_default("r");
    r.default_branch = Some("trunk".to_string());
    r.has_remote = true;
    r.behind = 1;
    r.ahead = 2;
    r.dirty_files = 3;
    r.fetch_status = FetchStatus::Failed("no route".to_string());
    r.remote_info = Some(RemoteInfo {
        kind: ForgeKind::GitLab,
        host: "gitlab.com".to_string(),
        scheme: Scheme::Https,
        owner: "me".to_string(),
        repo_name: "proj".to_string(),
    });
    r.forge_status = ForgeStatus::Done;
    r.forge_stats = Some(ForgeStats { open_prs: 4, open_issues: 5, is_fork: true });
    r.is_worktree = true;
    r.worktree_main = Some("/main".to_string());
    r.worktrees = vec![worktree("a", 0), worktree("b", 7)];
    let lines = detail_lines(&r);
    let texts: Vec<String> = lines.iter().map(text).collect();
    assert_eq!(
        texts,
        vec![
            "Path: /tmp/r",
            "",
            "Current branch: main",
            "Default branch: trunk",
            "",
            "Remote: yes",
            "Behind: 1",
            "Ahead: 2",
            "Dirty files: 3",
            "",
            "Fetch: failed — no route",
            "",
            "Forge: GitLab (me/proj)",
            "Fork: yes",
            "Pull Requests: 4",
            "Issues: 5",
            "",
            "Main repo: /main",
            "",
            "Worktrees (2)",
            "  a  ✓  /wt/a",
            "  b  *7  /wt/b",
            "",
            "p pull  P push  s shell  q/Esc close",
        ]
    );
    assert_eq!(lines[6][1], colored("1", Color::Red));
    assert_eq!(lines[7][1], colored("2", Color::Green));
    assert_eq!(lines[8][1], colored("3", Color::Yellow));
    assert_eq!(lines[19], vec![bold("Worktrees (2)")]);
    r.remote_url = Some("https://x".to_string());
    r.forge_status = ForgeStatus::Failed("403".to_string());
    r.fetch_status = FetchStatus::Queued;
    let texts: Vec<String> = detail_lines(&r).iter().map(text).collect();
    assert_eq!(texts[5], "Remote: https://x");
    assert_eq!(texts[10], "Fetch: queued");
    assert_eq!(texts[13], "Forge error: 403");
    r.forge_status = ForgeStatus::Queued;
    r.fetch_status = FetchStatus::Fetching;
    let texts: Vec<String> = detail_lines(&r).iter().map(text).collect();
    assert_eq!(texts[10], "Fetch: in progress...");
    assert_eq!(texts[13], "Loading forge stats...");
}

#[test]
fn help_lists_the_keys() {
    let lines = help_lines();
    assert_eq!(lines.len(), 14);
    assert_eq!(lines[0], vec![bold("Keybindings")]);
    assert!(lines[1].is_empty());
    assert_eq!(lines[2], vec![raw("  h/l  ←/→     Move between columns")]);
    assert_eq!(lines[12], vec![raw("  q / Esc      Quit / close overlay")]);
    assert_eq!(lines[13], vec![raw("  Ctrl+c       Force quit")]);
}

#[test]
fn popups_are_framed_and_centered() {
    let screen = area(0, 0, 100, 50);
    let strong_frame = Style { fg: Some(Color::Reset), bold: true, reversed: false };
    let help = render_help(screen);
    assert_eq!(help.area, area(25, 10, 50, 30));
    assert_eq!(help.title, " Help ");
    assert_eq!(help.frame, strong_frame);
    assert_eq!(help.lines.len(), 14);
    let mut app = synced(1);
    let detail = render_detail(&app, screen).unwrap();
    assert_eq!(detail.area, area(15, 10, 70, 30));
    assert_eq!(detail.title, " r0 ");
    assert_eq!(detail.frame, strong_frame);
    assert_eq!(text(&detail.lines[0]), "Path: /tmp/r0");
    app.selected_column = 0;
    assert!(render_detail(&app, screen).is_none());
}

#[test]
fn status_bar_shows_the_message_or_the_keys() {
    let mut app = AppState::new_with_repos(vec![]);
    assert_eq!(
        render_status_bar(&app),
        colored(
            "[Sort: Name]  v sort  ? help  r refresh  p pull  P push  s shell  q quit",
            Color::DarkGray,
        )
    );
    app.status_message = Some("Refreshing...".to_string());
    assert_eq!(render_status_bar(&app), colored("Refreshing...", Color::DarkGray));
}

fn choices(labels: &[&str]) -> Vec<(String, String)> {
    labels.iter().map(|l| (l.to_string(), format!("/{l}"))).collect()
}

#[test]
fn picker_stands_at_the_lower_right() {
    let screen = area(0, 0, 80, 24);
    let view = render_shell_picker(&choices(&["main: x", "wt: feat"]), 1, screen).unwrap();
    assert_eq!(view.area, area(60, 20, 20, 4));
    assert_eq!(view.title, bold(" Open shell in... "));
    assert_eq!(view.frame, Style { fg: Some(Color::Reset), bold: false, reversed: false });
    assert_eq!(view.inner, area(61, 21, 18, 2));
    assert_eq!(view.lines.len(), 2);
    assert_eq!(view.lines[0], colored("  main: x", Color::Reset));
    assert_eq!(
        view.lines[1],
        Span {
            text: "  wt: feat".to_string(),
            style: Style { fg: None, bold: true, reversed: true },
        }
    );
}

#[test]
fn picker_grows_with_its_labels() {
    let long = "wt: a-branch-with-a-long-name"; // 29 bytes
    let view = render_shell_picker(&choices(&["main: x", long]), 0, area(0, 0, 80, 24)).unwrap();
    assert_eq!(view.area.width, 35);
    let wide = render_shell_picker(&choices(&["ééééééééé"]), 0, area(0, 0, 80, 24)).unwrap();
    assert_eq!(wide.area.width, 24); // eighteen bytes and six columns
}

#[test]
fn picker_stays_on_the_screen() {
    let many: Vec<String> = (0..40).map(|n| format!("wt: {n}")).collect();
    let labels: Vec<&str> = many.iter().map(|s| s.as_str()).collect();
    let view = render_shell_picker(&choices(&labels), 0, area(2, 3, 15, 10)).unwrap();
    assert_eq!(view.area, area(6, 7, 11, 6));
    assert_eq!(view.lines.len(), 4);
    let none = render_shell_picker(&choices(&labels), 0, area(0, 0, 3, 3)).unwrap();
    assert_eq!(none.area, area(3, 3, 0, 0));
    assert!(none.lines.is_empty());
    assert!(render_shell_picker(&vec![], 0, area(0, 0, 80, 24)).is_none());
}
