use dyad::action::Action;
use dyad::app::{App, Env, GitFile, GitGroup, GitView, HistoryView, OpenFileView, OpenedFile};
use dyad::git::LogEntry;
use dyad::lsp::{Diagnostic, Position, Range};
use dyad::syntax::HighlightSpan;
use dyad::theme;
use dyad::tree::DirItem;
use dyad::ui::help::render_keys_help;
use dyad::ui::lists::{
    changes_width, diff_line_style, git_status_style, history_width, render_git_diff,
    render_git_files, render_history_list, render_history_show, render_open_file, render_tree,
};
use dyad::ui::status::{current_line_diagnostic, lsp_badge_span, render_status, HINT_TEXT};
use dyad::ui::{
    build_line, gutter_width, pane_of, place_cursor, render_gutter, render_text, scroll_top,
    text_viewport_rows, truncate_to, Pane, Span,
};

const ENV: Env = Env { rows: 24, now: 0, indexing: false };

fn app_on(path: &str, contents: &str, spawned: bool) -> App {
    let file = OpenedFile {
        loaded: Ok(Some(contents.to_string())),
        absolute: path.to_string(),
        canonical: path.to_string(),
        diff: Ok("@@ -1 +1,2 @@\n-a\n+b\n+c\n".to_string()),
        spawned,
        listings: vec![],
    };
    let items = vec![
        DirItem { name: "z.txt".to_string(), is_dir: false },
        DirItem { name: "sub".to_string(), is_dir: true },
    ];
    App::new(path.to_string(), file, "/home/proj".to_string(), &items).unwrap()
}

fn text(line: &[Span]) -> String {
    line.iter().map(|s| s.text.as_str()).collect()
}

#[test]
fn texts_are_cut_by_characters() {
    assert_eq!(truncate_to("héllo", 2), "hé");
    assert_eq!(truncate_to("hé", 9), "hé");
}

#[test]
fn lists_scroll_so_that_the_selection_shows() {
    assert_eq!(scroll_top(3, 10, 5), 0);
    assert_eq!(scroll_top(3, 4, 20), 0);
    assert_eq!(scroll_top(7, 4, 20), 4);
    assert_eq!(scroll_top(7, 0, 20), 0);
    assert_eq!(text_viewport_rows(24), 23);
    assert_eq!(text_viewport_rows(0), 0);
}

#[test]
fn the_gutter_fits_the_highest_line_number() {
    assert_eq!(gutter_width(0), 3);
    assert_eq!(gutter_width(9), 3);
    assert_eq!(gutter_width(1000), 6);
    let app = app_on("/p/a.txt", "x\ny\n", false);
    let lines = render_gutter(&app, 4, 5);
    assert_eq!(lines.len(), 5);
    assert_eq!(text(&lines[0]), " 1 ~");
    assert_eq!(text(&lines[1]), " 2 +");
    assert_eq!(text(&lines[2]), " 3  ");
    assert!(lines[3].is_empty());
    assert_eq!(lines[1][2].style.fg, Some(theme::GREEN));
}

#[test]
fn lines_are_cut_at_their_highlights() {
    let cs: Vec<char> = "let x = 1;".chars().collect();
    let spans = [
        HighlightSpan { col_start: 0, col_end: 3, capture_idx: 8 },
        HighlightSpan { col_start: 8, col_end: 20, capture_idx: 10 },
    ];
    let line = build_line(&cs, &spans);
    let parts: Vec<&str> = line.iter().map(|s| s.text.as_str()).collect();
    assert_eq!(parts, vec!["let", " x = ", "1;"]);
    assert!(line[0].style.bold);
    assert_eq!(line[1].style.fg, None);
    assert_eq!(text(&build_line(&cs, &[])), "let x = 1;");
    assert!(build_line(&[], &spans).is_empty());
}

#[test]
fn text_is_shown_without_line_breaks() {
    let app = app_on("/p/a.rs", "fn a() {}\r\n// long comment\n", false);
    let lines = render_text(&app, 7, 4);
    assert_eq!(text(&lines[0]), "fn a() ");
    assert_eq!(text(&lines[1]), "// long");
    assert!(lines[1][0].style.italic);
    assert!(lines[2].is_empty());
    assert!(lines[3].is_empty());
}

#[test]
fn the_tree_is_headed_by_its_root() {
    let mut app = app_on("/p/a.txt", "", false);
    let lines = render_tree(&mut app.tree, 10, 5);
    assert_eq!(text(&lines[0]), " proj ");
    assert_eq!(text(&lines[1]), "↰ ..");
    assert_eq!(lines[1][0].style, theme::tree_selected());
    assert_eq!(text(&lines[2]), "▸ sub");
    assert_eq!(lines[2][0].style, theme::tree_dir());
    assert_eq!(text(&lines[3]), "  z.txt");
    assert!(lines[4].is_empty());
}

fn git_view() -> GitView {
    let file = |path: &str, staged: char, unstaged: char, group: GitGroup| GitFile {
        path: path.to_string(),
        staged,
        unstaged,
        group,
    };
    GitView {
        files: vec![
            file("a.rs", 'A', ' ', GitGroup::Staged),
            file("b.rs", ' ', 'M', GitGroup::Modified),
            file("c.rs", ' ', 'D', GitGroup::Modified),
        ],
        cursor: 1,
        diff_lines: vec!["@@ -1 @@".to_string(), "+x".to_string(), " y".to_string()],
        diff_scroll: 1,
        repo_root: "/p".to_string(),
    }
}

#[test]
fn changed_files_stand_under_their_headlines() {
    let lines = render_git_files(&git_view(), 40, 6);
    let shown: Vec<String> = lines.iter().map(|l| text(l)).collect();
    assert_eq!(
        shown,
        vec![" Staged ", " A  a.rs", " Modified ", "  M b.rs", "  D c.rs", ""]
    );
    assert_eq!(lines[3][0].style, theme::tree_selected());
    assert_eq!(lines[1][0].style.fg, Some(theme::GREEN));
    assert_eq!(lines[4][0].style.fg, Some(theme::RED));
    let scrolled = render_git_files(&git_view(), 40, 2);
    assert_eq!(text(&scrolled[1]), "  M b.rs");
}

#[test]
fn diffs_are_painted_by_their_first_characters() {
    let lines = render_git_diff(&git_view(), 40, 3);
    assert_eq!(text(&lines[0]), "+x");
    assert_eq!(lines[0][0].style.fg, Some(theme::GREEN));
    assert_eq!(lines[1][0].style, theme::editor());
    assert!(lines[2].is_empty());
    assert_eq!(diff_line_style("+++ b/x").fg, Some(theme::VIOLET));
    assert_eq!(diff_line_style("@@ -1").fg, Some(theme::CYAN));
    assert_eq!(diff_line_style("-x").fg, Some(theme::RED));
    assert_eq!(git_status_style('A', 'M').fg, Some(theme::YELLOW));
    assert_eq!(git_status_style('?', '?').fg, Some(theme::VIOLET));
    assert_eq!(git_status_style('R', ' '), theme::tree());
}

#[test]
fn commits_are_listed_with_their_authors_clamped() {
    let view = HistoryView {
        entries: vec![LogEntry {
            sha: "abcdef0123".to_string(),
            short_sha: "abcdef0".to_string(),
            author: "A very long name".to_string(),
            date: "2026-01-02".to_string(),
            subject: "Do it".to_string(),
        }],
        cursor: 0,
        commit_lines: vec!["commit abc".to_string(), "+x".to_string()],
        commit_scroll: 0,
        repo_root: "/p".to_string(),
    };
    let lines = render_history_list(&view, 80, 2);
    assert_eq!(text(&lines[0]), " abcdef0 2026-01-02 A very lon Do it");
    assert_eq!(lines[0][0].style, theme::tree_selected());
    let shown = render_history_show(&view, 80, 2);
    assert_eq!(shown[0][0].style, theme::status_hint());
    assert_eq!(shown[1][0].style.fg, Some(theme::GREEN));
    assert_eq!(history_width(100), 48);
    assert_eq!(changes_width(50), 30);
    assert_eq!(changes_width(10), 0);
}

#[test]
fn matching_files_are_marked() {
    let mut view = OpenFileView {
        root: "/p".to_string(),
        files: vec!["a.rs".to_string(), "b.rs".to_string()],
        query: "b".to_string(),
        matches: vec![1],
        cursor: 0,
        top: 0,
    };
    let lines = render_open_file(&view, 40, 2);
    assert_eq!(text(&lines[0]), "▸ b.rs");
    assert!(lines[1].is_empty());
    view.matches.clear();
    let lines = render_open_file(&view, 40, 2);
    assert_eq!(text(&lines[0]), " No matches for \"b\"");
    view.query.clear();
    assert_eq!(text(&render_open_file(&view, 40, 2)[0]), " No files");
}

#[test]
fn the_keys_are_listed_in_sections() {
    let lines = render_keys_help(80, 5);
    let shown: Vec<String> = lines.iter().map(|l| text(l)).collect();
    assert_eq!(shown[0], "");
    assert_eq!(shown[1], " Modals");
    assert_eq!(shown[2], "  Ctrl-T                  toggle file tree sidebar");
    assert_eq!(shown.len(), 5);
    let all = render_keys_help(80, 100);
    assert_eq!(all.len(), 100);
    assert!(all[99].is_empty());
}

#[test]
fn the_status_bar_shows_the_file_and_hints() {
    let mut app = app_on("/p/a.txt", "x\n", false);
    let width = 140;
    let line = render_status(&app, false, &vec![], width);
    assert_eq!(text(&line[..1]), " /p/a.txt  L1:C1  · ");
    assert_eq!(text(&line).chars().count(), width as usize);
    assert!(text(&line).ends_with(HINT_TEXT));
    app.apply(Action::ToggleAutosave, ENV);
    let line = render_status(&app, false, &vec![], width);
    assert_eq!(line[1].text, "auto ");
    assert!(text(&line).ends_with(" Autosave on "));
    app.apply(Action::GoToLine, ENV);
    app.apply(Action::Insert('4'), ENV);
    let line = render_status(&app, false, &vec![], 30);
    assert!(text(&line).contains("4_"));
    assert_eq!(text(&line).chars().count(), 30);
}

#[test]
fn the_badge_tells_how_the_server_is() {
    let text_file = app_on("/p/a.txt", "x\n", false);
    assert!(lsp_badge_span(&text_file, false).is_none());
    let alive = app_on("/p/a.rs", "x\n", true);
    assert_eq!(lsp_badge_span(&alive, false).unwrap().text, "lsp ");
    assert_eq!(lsp_badge_span(&alive, true).unwrap().text, "lsp… ");
    let gone = app_on("/p/a.rs", "x\n", false);
    let badge = lsp_badge_span(&gone, false).unwrap();
    assert_eq!(badge.text, "lsp! ");
    assert_eq!(badge.style.fg, Some(theme::RED));
}

#[test]
fn the_diagnostic_of_the_line_is_shown_on_one_line() {
    let app = app_on("/p/a.rs", "x\n", true);
    let at = |line: u32| {
        let p = Position { line, character: 0 };
        Range { start: p, end: p }
    };
    let d = |line: u32, message: &str, severity: u8| Diagnostic {
        range: at(line),
        severity: Some(severity),
        message: message.to_string(),
        source: None,
    };
    let ds = vec![d(3, "far", 1), d(0, "two\nlines", 2)];
    let (said, severity) = current_line_diagnostic(&app, &ds).unwrap();
    assert_eq!(said, " warn: two · lines ");
    assert_eq!(severity, Some(2));
    let line = render_status(&app, false, &ds, 120);
    assert_eq!(line.last().unwrap().style.fg, Some(theme::YELLOW));
    assert!(current_line_diagnostic(&app, &vec![]).is_none());
}

#[test]
fn the_cursor_is_placed_in_the_text_only() {
    let mut app = app_on("/p/a.txt", "abc\n", false);
    app.apply(Action::MoveRight, ENV);
    assert_eq!(pane_of(&app), Pane::Text);
    assert_eq!(place_cursor(&app, 10, 5), Some((1, 0)));
    assert_eq!(place_cursor(&app, 1, 5), None);
    app.apply(Action::ToggleKeysHelp, ENV);
    assert_eq!(pane_of(&app), Pane::Keys);
    assert_eq!(place_cursor(&app, 10, 5), None);
}

#[test]
fn the_palette_is_solarized() {
    assert_eq!(theme::BASE03.rgb(), Some((0x00, 0x2b, 0x36)));
    assert_eq!(theme::GREEN.rgb(), Some((0x85, 0x99, 0x00)));
    assert_eq!(theme::Color::Gray.rgb(), None);
    assert_eq!(theme::diagnostic(Some(1)), theme::RED);
    assert_eq!(theme::diagnostic(None), theme::BASE1);
    assert_eq!(theme::syntax("string").fg, Some(theme::CYAN));
    assert!(theme::syntax("comment").italic);
    assert_eq!(theme::syntax("operator").fg, None);
}
