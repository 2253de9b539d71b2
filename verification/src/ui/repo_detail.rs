//! The details of a repository.

use vstd::prelude::*;

use crate::app::{selection, AppState};
use crate::model::{
    FetchStatus, FetchStatusView, ForgeStats, ForgeStatus, ForgeStatusView, RemoteInfo, Repo,
    RepoView, WorktreeInfo, WorktreeView,
};
use crate::number::{decimal, decimal_text};
use crate::text::{concat, concat3};
use crate::ui::area::{centered, centered_rect, Area};
use crate::ui::paint::{
    bold_span, colored_span, line_view, line_views, raw_span, strong_style, Color, LineView,
    PopupView, Span, SpanView, Style,
};

verus! {

/// One line, if a condition holds.
pub open spec fn line_if(condition: bool, line: LineView) -> Seq<LineView> {
    if condition {
        seq![line]
    } else {
        seq![]
    }
}

/// An empty line.
pub open spec fn empty_line() -> LineView {
    seq![]
}

/// A label and what stands behind it.
pub open spec fn labelled(label: Seq<char>, value: SpanView) -> LineView {
    seq![bold_span(label), value]
}

/// A number behind a label, in a colour where it is not zero.
pub open spec fn count_line(label: Seq<char>, n: u32, c: Color) -> LineView {
    labelled(
        label,
        if n > 0 {
            colored_span(decimal(n as nat), c)
        } else {
            raw_span(decimal(n as nat))
        },
    )
}

/// Where a repository lies and on which branch it is.
pub open spec fn place_lines(r: RepoView) -> Seq<LineView> {
    seq![
        labelled("Path: "@, raw_span(r.path)),
        empty_line(),
        labelled("Current branch: "@, colored_span(r.current_branch, Color::Cyan)),
    ] + (match r.default_branch {
        Some(default) => seq![labelled("Default branch: "@, colored_span(default, Color::Cyan))],
        None => seq![],
    }) + seq![empty_line()]
}

/// The remote, and how the repository stands to it.
pub open spec fn sync_lines(r: RepoView) -> Seq<LineView> {
    seq![
        labelled(
            "Remote: "@,
            match r.remote_url {
                Some(url) => raw_span(url),
                None => if r.has_remote {
                    colored_span("yes"@, Color::Green)
                } else {
                    colored_span("none ⚠"@, Color::Yellow)
                },
            },
        ),
        count_line("Behind: "@, r.behind, Color::Red),
        count_line("Ahead: "@, r.ahead, Color::Green),
        count_line("Dirty files: "@, r.dirty_files, Color::Yellow),
        empty_line(),
        seq![fetch_span(r.fetch_status)],
    ]
}

/// How far the fetch has come.
pub open spec fn fetch_span(status: FetchStatusView) -> SpanView {
    match status {
        FetchStatusView::Queued => colored_span("Fetch: queued"@, Color::DarkGray),
        FetchStatusView::Fetching => colored_span("Fetch: in progress..."@, Color::Yellow),
        FetchStatusView::Done => colored_span("Fetch: complete"@, Color::Green),
        FetchStatusView::Failed(e) => colored_span("Fetch: failed — "@ + e, Color::Red),
    }
}

/// What the forge says.
pub open spec fn stats_lines(stats: ForgeStats) -> Seq<LineView> {
    line_if(stats.is_fork, labelled("Fork: "@, colored_span("yes"@, Color::DarkGray))) + seq![
        labelled(
            "Pull Requests: "@,
            colored_span(decimal(stats.open_prs as nat), Color::Green),
        ),
        labelled("Issues: "@, colored_span(decimal(stats.open_issues as nat), Color::Red)),
    ]
}

/// The forge, and what it says.
pub open spec fn forge_lines(r: RepoView) -> Seq<LineView> {
    match r.remote_info {
        Some(info) => seq![
            empty_line(),
            labelled(
                "Forge: "@,
                raw_span(info.kind.title() + " ("@ + info.owner + "/"@ + info.repo_name + ")"@),
            ),
        ] + (match r.forge_status {
            ForgeStatusView::Done => match r.forge_stats {
                Some(stats) => stats_lines(stats),
                None => seq![],
            },
            ForgeStatusView::Queued | ForgeStatusView::Fetching => seq![
                seq![colored_span("Loading forge stats..."@, Color::DarkGray)],
            ],
            ForgeStatusView::Failed(e) => seq![
                seq![colored_span("Forge error: "@ + e, Color::Red)],
            ],
            ForgeStatusView::NotApplicable => seq![],
        }),
        None => seq![],
    }
}

/// The main repository of a worktree.
pub open spec fn main_lines(r: RepoView) -> Seq<LineView> {
    if r.is_worktree && r.worktree_main is Some {
        seq![
            empty_line(),
            labelled("Main repo: "@, colored_span(r.worktree_main->0, Color::DarkGray)),
        ]
    } else {
        seq![]
    }
}

/// The line for a worktree.
pub open spec fn worktree_detail(w: WorktreeView) -> LineView {
    seq![
        raw_span("  "@),
        colored_span(w.branch, Color::Cyan),
        raw_span("  "@),
        if w.dirty_files > 0 {
            colored_span("*"@ + decimal(w.dirty_files as nat), Color::Yellow)
        } else {
            colored_span("✓"@, Color::Green)
        },
        raw_span("  "@),
        colored_span(w.path, Color::DarkGray),
    ]
}

/// The worktrees of a repository.
pub open spec fn worktree_lines(r: RepoView) -> Seq<LineView> {
    if r.worktrees.len() == 0 {
        seq![]
    } else {
        seq![
            empty_line(),
            seq![bold_span("Worktrees ("@ + decimal(r.worktrees.len()) + ")"@)],
        ] + r.worktrees.map_values(|w: WorktreeView| worktree_detail(w))
    }
}

/// The keys that are of use.
pub open spec fn hint_lines() -> Seq<LineView> {
    seq![
        empty_line(),
        seq![colored_span("p pull  P push  s shell  q/Esc close"@, Color::DarkGray)],
    ]
}

/// The lines of the details of a repository.
pub open spec fn detail_text(r: RepoView) -> Seq<LineView> {
    place_lines(r) + sync_lines(r) + forge_lines(r) + main_lines(r) + worktree_lines(r)
        + hint_lines()
}

// ---------------------------------------------------------------------------
// Building
// ---------------------------------------------------------------------------

fn no_line() -> (r: Vec<Span>)
    ensures
        line_view(r@) == empty_line(),
{
    let r: Vec<Span> = Vec::new();
    assert(line_view(r@) =~= empty_line());
    r
}

fn one_span(span: Span) -> (r: Vec<Span>)
    ensures
        line_view(r@) == seq![span@],
{
    let mut r: Vec<Span> = Vec::new();
    r.push(span);
    assert(line_view(r@) =~= seq![span@]);
    r
}

fn with_label(label: &str, value: Span) -> (r: Vec<Span>)
    ensures
        line_view(r@) == labelled(label@, value@),
{
    let mut r: Vec<Span> = Vec::new();
    r.push(Span::bold(label));
    r.push(value);
    assert(line_view(r@) =~= labelled(label@, value@));
    r
}

fn number_span(n: u32, c: Color) -> (r: Span)
    ensures
        r@ == colored_span(decimal(n as nat), c),
{
    Span::colored(decimal_text(n as u64).as_str(), c)
}

fn with_count(label: &str, n: u32, c: Color) -> (r: Vec<Span>)
    ensures
        line_view(r@) == count_line(label@, n, c),
{
    if n > 0 {
        with_label(label, number_span(n, c))
    } else {
        with_label(label, Span::raw(decimal_text(n as u64).as_str()))
    }
}

fn list_place(repo: &Repo) -> (lines: Vec<Vec<Span>>)
    ensures
        line_views(lines@) == place_lines(repo@),
{
    let mut lines: Vec<Vec<Span>> = Vec::new();
    lines.push(with_label("Path: ", Span::raw(repo.path.as_str())));
    lines.push(no_line());
    lines.push(
        with_label(
            "Current branch: ",
            Span::colored(repo.current_branch.as_str(), Color::Cyan),
        ),
    );
    match &repo.default_branch {
        Some(default) => {
            lines.push(
                with_label("Default branch: ", Span::colored(default.as_str(), Color::Cyan)),
            );
        },
        None => {},
    }
    lines.push(no_line());
    assert(line_views(lines@) =~= place_lines(repo@));
    lines
}

fn list_sync(repo: &Repo) -> (lines: Vec<Vec<Span>>)
    ensures
        line_views(lines@) == sync_lines(repo@),
{
    let mut lines: Vec<Vec<Span>> = Vec::new();
    let remote = match &repo.remote_url {
        Some(url) => Span::raw(url.as_str()),
        None => if repo.has_remote {
            Span::colored("yes", Color::Green)
        } else {
            Span::colored("none ⚠", Color::Yellow)
        },
    };
    lines.push(with_label("Remote: ", remote));
    lines.push(with_count("Behind: ", repo.behind, Color::Red));
    lines.push(with_count("Ahead: ", repo.ahead, Color::Green));
    lines.push(with_count("Dirty files: ", repo.dirty_files, Color::Yellow));
    lines.push(no_line());
    let fetch = match &repo.fetch_status {
        FetchStatus::Queued => Span::colored("Fetch: queued", Color::DarkGray),
        FetchStatus::Fetching => Span::colored("Fetch: in progress...", Color::Yellow),
        FetchStatus::Done => Span::colored("Fetch: complete", Color::Green),
        FetchStatus::Failed(e) => Span::colored(
            concat("Fetch: failed — ", e.as_str()).as_str(),
            Color::Red,
        ),
    };
    lines.push(one_span(fetch));
    assert(line_views(lines@) =~= sync_lines(repo@));
    lines
}

fn list_stats(stats: &ForgeStats) -> (lines: Vec<Vec<Span>>)
    ensures
        line_views(lines@) == stats_lines(*stats),
{
    let mut lines: Vec<Vec<Span>> = Vec::new();
    if stats.is_fork {
        lines.push(with_label("Fork: ", Span::colored("yes", Color::DarkGray)));
    }
    lines.push(with_label("Pull Requests: ", number_span(stats.open_prs, Color::Green)));
    lines.push(with_label("Issues: ", number_span(stats.open_issues, Color::Red)));
    assert(line_views(lines@) =~= stats_lines(*stats));
    lines
}

fn forge_name(info: &RemoteInfo) -> (r: String)
    ensures
        r@ == info@.kind.title() + " ("@ + info@.owner + "/"@ + info@.repo_name + ")"@,
{
    let head = concat3(info.kind.label(), " (", info.owner.as_str());
    let path = concat3(head.as_str(), "/", info.repo_name.as_str());
    concat(path.as_str(), ")")
}

fn list_forge(repo: &Repo) -> (lines: Vec<Vec<Span>>)
    ensures
        line_views(lines@) == forge_lines(repo@),
{
    let mut lines: Vec<Vec<Span>> = Vec::new();
    match &repo.remote_info {
        Some(info) => {
            lines.push(no_line());
            lines.push(with_label("Forge: ", Span::raw(forge_name(info).as_str())));
            match &repo.forge_status {
                ForgeStatus::Done => match &repo.forge_stats {
                    Some(stats) => {
                        let mut more = list_stats(stats);
                        let ghost given = more@;
                        let ghost before = lines@;
                        lines.append(&mut more);
                        assert(line_views(lines@) =~= line_views(before) + line_views(given));
                    },
                    None => {},
                },
                ForgeStatus::Queued | ForgeStatus::Fetching => {
                    lines.push(
                        one_span(Span::colored("Loading forge stats...", Color::DarkGray)),
                    );
                },
                ForgeStatus::Failed(e) => {
                    let text = concat("Forge error: ", e.as_str());
                    lines.push(one_span(Span::colored(text.as_str(), Color::Red)));
                },
                ForgeStatus::NotApplicable => {},
            }
        },
        None => {},
    }
    assert(line_views(lines@) =~= forge_lines(repo@));
    lines
}

fn list_main(repo: &Repo) -> (lines: Vec<Vec<Span>>)
    ensures
        line_views(lines@) == main_lines(repo@),
{
    let mut lines: Vec<Vec<Span>> = Vec::new();
    if repo.is_worktree {
        match &repo.worktree_main {
            Some(main) => {
                lines.push(no_line());
                lines.push(
                    with_label("Main repo: ", Span::colored(main.as_str(), Color::DarkGray)),
                );
            },
            None => {},
        }
    }
    assert(line_views(lines@) =~= main_lines(repo@));
    lines
}

fn list_worktree(wt: &WorktreeInfo) -> (r: Vec<Span>)
    ensures
        line_view(r@) == worktree_detail(wt@),
{
    let mut r: Vec<Span> = Vec::new();
    r.push(Span::raw("  "));
    r.push(Span::colored(wt.branch.as_str(), Color::Cyan));
    r.push(Span::raw("  "));
    if wt.dirty_files > 0 {
        let count = concat("*", decimal_text(wt.dirty_files as u64).as_str());
        r.push(Span::colored(count.as_str(), Color::Yellow));
    } else {
        r.push(Span::colored("✓", Color::Green));
    }
    r.push(Span::raw("  "));
    r.push(Span::colored(wt.path.as_str(), Color::DarkGray));
    assert(line_view(r@) =~= worktree_detail(wt@));
    r
}

fn list_worktrees(repo: &Repo) -> (lines: Vec<Vec<Span>>)
    ensures
        line_views(lines@) == worktree_lines(repo@),
{
    let ghost want = worktree_lines(repo@);
    let mut lines: Vec<Vec<Span>> = Vec::new();
    assert(repo@.worktrees.len() == repo.worktrees@.len());
    if repo.worktrees.len() == 0 {
        assert(line_views(lines@) =~= want);
        return lines;
    }
    let count = decimal_text(repo.worktrees.len() as u64);
    lines.push(no_line());
    lines.push(one_span(Span::bold(concat3("Worktrees (", count.as_str(), ")").as_str())));
    let mut k: usize = 0;
    assert(line_views(lines@) =~= want.take(2));
    while k < repo.worktrees.len()
        invariant
            want == worktree_lines(repo@),
            repo@.worktrees.len() == repo.worktrees@.len(),
            want.len() == repo.worktrees@.len() + 2,
            k <= repo.worktrees@.len(),
            repo.worktrees@.len() > 0,
            line_views(lines@) == want.take(k + 2),
        decreases repo.worktrees@.len() - k,
    {
        let ghost before = lines@;
        let line = list_worktree(&repo.worktrees[k]);
        proof {
            assert(want[k + 2] == worktree_detail(repo@.worktrees[k as int]));
            assert(line_views(before.push(line)) =~= line_views(before).push(line_view(line@)));
            assert(want.take(k + 3) =~= want.take(k + 2).push(want[k + 2]));
        }
        lines.push(line);
        k = k + 1;
    }
    assert(want.take(k + 2) =~= want);
    lines
}

fn join_lines(first: Vec<Vec<Span>>, second: Vec<Vec<Span>>) -> (r: Vec<Vec<Span>>)
    ensures
        line_views(r@) == line_views(first@) + line_views(second@),
{
    let mut r = first;
    let mut more = second;
    r.append(&mut more);
    assert(line_views(r@) =~= line_views(first@) + line_views(second@));
    r
}

/// The lines of the details of a repository.
pub fn detail_lines(repo: &Repo) -> (r: Vec<Vec<Span>>)
    ensures
        line_views(r@) == detail_text(repo@),
{
    let lines = join_lines(list_place(repo), list_sync(repo));
    let lines = join_lines(lines, list_forge(repo));
    let lines = join_lines(lines, list_main(repo));
    let lines = join_lines(lines, list_worktrees(repo));
    let mut hint: Vec<Vec<Span>> = Vec::new();
    hint.push(no_line());
    hint.push(
        one_span(Span::colored("p pull  P push  s shell  q/Esc close", Color::DarkGray)),
    );
    assert(line_views(hint@) =~= hint_lines());
    join_lines(lines, hint)
}

/// The details of the selected repository over a screen; nothing where none is selected.
pub fn render_detail(s: &AppState, screen: Area) -> (r: Option<PopupView>)
    requires
        s.well_formed(),
        screen.on_screen(),
    ensures
        match selection(*s) {
            Some(repo) => {
                &&& r matches Some(popup)
                &&& popup.area == centered(70, 60, screen)
                &&& popup.title@ == " "@ + repo@.name + " "@
                &&& popup.frame == strong_style(Color::Reset)
                &&& line_views(popup.lines@) == detail_text(repo@)
            },
            None => r is None,
        },
{
    match s.selected_repo() {
        Some(repo) => Some(
            PopupView {
                area: centered_rect(70, 60, screen),
                title: concat3(" ", repo.name.as_str(), " "),
                frame: Style::strong(Color::Reset),
                lines: detail_lines(repo),
            },
        ),
        None => None,
    }
}

// ---------------------------------------------------------------------------
// Laws
// ---------------------------------------------------------------------------

/// The line says a value behind a label in bold.
pub open spec fn says(line: LineView, label: Seq<char>, value: Seq<char>) -> bool {
    &&& line.len() == 2
    &&& line[0].text == label
    &&& line[0].style.bold
    &&& line[1].text == value
}

/// A number is coloured exactly where it is not zero.
pub open spec fn stands_out(line: LineView, n: u32, c: Color) -> bool {
    line[1].style.fg == if n > 0 {
        Some(c)
    } else {
        None
    }
}

/// The number of lines on the place of a repository.
pub open spec fn place_len(r: RepoView) -> int {
    if r.default_branch is Some {
        5
    } else {
        4
    }
}

/// The details say where the repository lies, on which branch it is, and how it stands to
/// its remote: what there is to pull, to push and to commit, each with its own number, and
/// how far the fetch has come.
pub proof fn details_tell_the_state(r: RepoView)
    ensures
        ({
            let text = detail_text(r);
            let at = place_len(r);
            &&& text.len() >= at + 6
            &&& says(text[0], "Path: "@, r.path)
            &&& says(text[2], "Current branch: "@, r.current_branch)
            &&& r.default_branch matches Some(b) ==> says(text[3], "Default branch: "@, b)
            &&& r.remote_url matches Some(url) ==> says(text[at], "Remote: "@, url)
            &&& r.remote_url is None && r.has_remote ==> says(text[at], "Remote: "@, "yes"@)
            &&& r.remote_url is None && !r.has_remote ==> says(text[at], "Remote: "@, "none ⚠"@)
            &&& says(text[at + 1], "Behind: "@, decimal(r.behind as nat))
            &&& stands_out(text[at + 1], r.behind, Color::Red)
            &&& says(text[at + 2], "Ahead: "@, decimal(r.ahead as nat))
            &&& stands_out(text[at + 2], r.ahead, Color::Green)
            &&& says(text[at + 3], "Dirty files: "@, decimal(r.dirty_files as nat))
            &&& stands_out(text[at + 3], r.dirty_files, Color::Yellow)
            &&& text[at + 5].len() == 1
            &&& r.fetch_status is Queued ==> text[at + 5][0].text == "Fetch: queued"@
            &&& r.fetch_status is Fetching ==> text[at + 5][0].text == "Fetch: in progress..."@
            &&& r.fetch_status is Done ==> text[at + 5][0].text == "Fetch: complete"@
            &&& r.fetch_status matches FetchStatusView::Failed(e) ==> text[at + 5][0].text
                == "Fetch: failed — "@ + e
        }),
{
    let p = place_lines(r);
    let s = sync_lines(r);
    let text = detail_text(r);
    let at = place_len(r);
    assert(p.len() == at);
    assert(text[0] == p[0] && text[2] == p[2] && text[3] == p[3]);
    assert(text[at] == s[0] && text[at + 1] == s[1] && text[at + 2] == s[2]);
    assert(text[at + 3] == s[3] && text[at + 5] == s[5]);
}

/// The details name the forge and the project on it, and say what the forge has told: the
/// pull requests and the issues, each with its own number, and a fork exactly where it is
/// one; that it is awaited; or the error. Without a forge nothing is said of one.
pub proof fn details_tell_the_figures(r: RepoView)
    ensures
        ({
            let text = detail_text(r);
            let at = place_len(r) + 6;
            let stats = r.forge_stats->0;
            let told = r.forge_status is Done && r.forge_stats is Some;
            let figures = at + 2 + (if stats.is_fork {
                1int
            } else {
                0
            });
            let awaited = r.forge_status is Queued || r.forge_status is Fetching;
            r.remote_info matches Some(info) ==> {
                &&& says(
                    text[at + 1],
                    "Forge: "@,
                    info.kind.title() + " ("@ + info.owner + "/"@ + info.repo_name + ")"@,
                )
                &&& told && stats.is_fork ==> says(text[at + 2], "Fork: "@, "yes"@)
                &&& told ==> says(
                    text[figures],
                    "Pull Requests: "@,
                    decimal(stats.open_prs as nat),
                )
                &&& told ==> says(
                    text[figures + 1],
                    "Issues: "@,
                    decimal(stats.open_issues as nat),
                )
                &&& awaited ==> text[at + 2].len() == 1 && text[at + 2][0].text
                    == "Loading forge stats..."@
                &&& r.forge_status matches ForgeStatusView::Failed(e) ==> text[at + 2].len() == 1
                    && text[at + 2][0].text == "Forge error: "@ + e
            }
        }),
        r.remote_info is None ==> forge_lines(r).len() == 0,
{
    let p = place_lines(r);
    let s = sync_lines(r);
    let f = forge_lines(r);
    let text = detail_text(r);
    let at = place_len(r) + 6;
    assert(p.len() + s.len() == at);
    assert forall|k: int| 0 <= k < f.len() implies #[trigger] text[at + k] == f[k] by {}
    if r.remote_info is Some {
        assert(text[at + 1] == f[1]);
        if f.len() > 2 {
            assert(text[at + 2] == f[2]);
        }
        if f.len() > 3 {
            assert(text[at + 3] == f[3]);
        }
        if f.len() > 4 {
            assert(text[at + 4] == f[4]);
        }
    }
}

/// Before the last two lines stand the worktrees, in their order and with their number
/// above them: each with its branch, its path, and the number of its changed files or a
/// tick exactly where there is none.
pub proof fn details_tell_the_worktrees(r: RepoView, k: int)
    requires
        0 <= k < r.worktrees.len(),
    ensures
        ({
            let text = detail_text(r);
            let at = text.len() - 2 - r.worktrees.len();
            let w = r.worktrees[k];
            let line = text[at + k];
            &&& at > 0
            &&& text[at - 1].len() == 1
            &&& text[at - 1][0].text == "Worktrees ("@ + decimal(r.worktrees.len()) + ")"@
            &&& line.len() == 6
            &&& line[1].text == w.branch
            &&& w.dirty_files == 0 ==> line[3].text == "✓"@
            &&& w.dirty_files > 0 ==> line[3].text == "*"@ + decimal(w.dirty_files as nat)
            &&& line[5].text == w.path
        }),
{
    let front = place_lines(r) + sync_lines(r) + forge_lines(r) + main_lines(r);
    let w = worktree_lines(r);
    let text = detail_text(r);
    let at = text.len() - 2 - r.worktrees.len();
    assert(front.len() + 2 == at);
    assert(text[at - 1] == w[1]);
    assert(text[at + k] == w[2 + k]);
}

/// The details name the main repository exactly for a worktree for which it is known.
pub proof fn details_tell_the_main_repository(r: RepoView)
    ensures
        ({
            let text = detail_text(r);
            let at = place_len(r) + 6 + forge_lines(r).len();
            let known = r.is_worktree && r.worktree_main is Some;
            &&& known ==> says(text[at + 1], "Main repo: "@, r.worktree_main->0)
            &&& text.len() == at + (if known {
                2int
            } else {
                0
            }) + (if r.worktrees.len() > 0 {
                r.worktrees.len() + 2int
            } else {
                0
            }) + 2
        }),
{
    let front = place_lines(r) + sync_lines(r) + forge_lines(r);
    let m = main_lines(r);
    let text = detail_text(r);
    let at = place_len(r) + 6 + forge_lines(r).len();
    assert(front.len() == at);
    if m.len() > 0 {
        assert(text[at + 1] == m[1]);
    }
}

} // verus!
