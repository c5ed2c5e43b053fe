use dyad::action::Action;
use dyad::app::{App, Env, Errand, Jump, Mode, OpenedFile};
use dyad::git::{LineStatus, StatusEntry};
use dyad::language::Language;
use dyad::lsp::{Location, Position, Range, SymbolInformation, TextEdit, WorkspaceEdit};
use dyad::runtime::requests::ServerRequest;
use dyad::runtime::ServerNotice;
use dyad::search::TextHit;
use dyad::tree::{DirItem, Listing};

const ENV: Env = Env { rows: 24, now: 1000, indexing: false };

fn opened(contents: &str, path: &str, spawned: bool) -> OpenedFile {
    OpenedFile {
        loaded: Ok(Some(contents.to_string())),
        absolute: path.to_string(),
        canonical: path.to_string(),
        diff: Ok(String::new()),
        spawned,
        listings: vec![],
    }
}

fn items() -> Vec<DirItem> {
    vec![
        DirItem { name: "a.txt".to_string(), is_dir: false },
        DirItem { name: "sub".to_string(), is_dir: true },
    ]
}

fn app_on(path: &str, contents: &str, spawned: bool) -> App {
    App::new(path.to_string(), opened(contents, path, spawned), "/p".to_string(), &items())
        .unwrap()
}

fn app_on_temp_txt(contents: &str) -> App {
    app_on("/p/a.txt", contents, false)
}

fn press(app: &mut App, keys: &str) {
    for c in keys.chars() {
        assert!(app.apply(Action::Insert(c), ENV).is_none());
    }
}

#[test]
fn opens_file_in_view_mode_by_default() {
    let app = app_on_temp_txt("hello\n");
    assert_eq!(app.mode, Mode::View);
}

#[test]
fn view_mode_blocks_insert_and_preserves_buffer() {
    let mut app = app_on_temp_txt("hello\n");
    assert_eq!(app.mode, Mode::View);
    let before = app.buffer.rope().to_string();
    let before_version = app.buffer.version();
    app.apply(Action::Insert('x'), ENV);
    assert_eq!(app.buffer.rope().to_string(), before);
    assert_eq!(app.buffer.version(), before_version);
    assert!(!app.buffer.is_dirty());
    assert!(app.status.contains("View mode"));
}

#[test]
fn view_mode_blocks_delete_and_clear_line() {
    let mut app = app_on_temp_txt("hello\nworld\n");
    let before = app.buffer.rope().to_string();
    app.apply(Action::DeleteNext, ENV);
    app.apply(Action::DeletePrev, ENV);
    app.apply(Action::ClearLine, ENV);
    assert_eq!(app.buffer.rope().to_string(), before);
    assert!(!app.buffer.is_dirty());
}

#[test]
fn toggle_mode_flips_view_and_edit() {
    let mut app = app_on_temp_txt("hello\n");
    assert_eq!(app.mode, Mode::View);
    app.apply(Action::ToggleMode, ENV);
    assert_eq!(app.mode, Mode::Edit);
    app.apply(Action::ToggleMode, ENV);
    assert_eq!(app.mode, Mode::View);
}

#[test]
fn edit_mode_allows_insert() {
    let mut app = app_on_temp_txt("hello\n");
    app.apply(Action::ToggleMode, ENV);
    assert_eq!(app.mode, Mode::Edit);
    app.apply(Action::Insert('X'), ENV);
    assert!(app.buffer.rope().to_string().starts_with('X'));
    assert!(app.buffer.is_dirty());
}

#[test]
fn view_mode_allows_movement_and_save() {
    let mut app = app_on_temp_txt("ab\ncd\n");
    app.apply(Action::MoveDown, ENV);
    app.apply(Action::MoveRight, ENV);
    assert_eq!(app.view.cursor_line(), 1);
    assert_eq!(app.view.cursor_col(), 1);
    match app.apply(Action::Save, ENV) {
        Some(Errand::Save { path, contents }) => {
            assert_eq!(path, "/p/a.txt");
            assert_eq!(contents, "ab\ncd\n");
        }
        other => panic!("expected a save, got {other:?}"),
    }
    app.saved(Ok(()), Ok("@@ -0,0 +2 @@\n+cd\n".to_string()));
    assert_eq!(app.status, "Saved 6 bytes");
    assert_eq!(app.line_status(1), Some(LineStatus::Added));
    app.saved(Err("disk full".to_string()), Ok(String::new()));
    assert_eq!(app.status, "Save failed: disk full");
}

#[test]
fn edits_are_transactions_with_an_intent() {
    let mut app = app_on_temp_txt("ab\n");
    app.apply(Action::ToggleMode, ENV);
    press(&mut app, "x\n");
    app.apply(Action::DeletePrev, ENV);
    assert_eq!(app.buffer.text(), "xab\n");
    let intents: Vec<&str> =
        app.tx_manager.recent(10).iter().map(|c| c.intent.as_str()).collect();
    assert_eq!(intents, vec!["insert 'x'", "insert newline", "delete backward"]);
    app.apply(Action::ClearLine, ENV);
    assert_eq!(app.buffer.text(), "\n");
}

#[test]
fn leaving_with_unsaved_changes_takes_two_tries() {
    let mut app = app_on_temp_txt("ab\n");
    app.apply(Action::ToggleMode, ENV);
    press(&mut app, "x");
    app.apply(Action::Quit, ENV);
    assert!(app.running);
    app.apply(Action::MoveRight, ENV);
    app.apply(Action::Quit, ENV);
    assert!(app.running);
    app.apply(Action::Quit, ENV);
    assert!(!app.running);
}

#[test]
fn a_saved_buffer_is_left_at_once() {
    let mut app = app_on_temp_txt("ab\n");
    app.apply(Action::ToggleMode, ENV);
    press(&mut app, "x");
    app.saved(Ok(()), Ok(String::new()));
    app.apply(Action::Quit, ENV);
    assert!(!app.running);
}

#[test]
fn autosave_waits_for_the_keys_to_rest() {
    let mut app = app_on_temp_txt("ab\n");
    app.apply(Action::ToggleMode, ENV);
    app.apply(Action::ToggleAutosave, ENV);
    assert_eq!(app.status, "Autosave on");
    press(&mut app, "x");
    assert!(app.maybe_autosave(1499).is_none());
    assert!(matches!(app.maybe_autosave(1500), Some(Errand::Autosave { .. })));
    app.autosaved(Err("full".to_string()), Ok(String::new()));
    assert!(app.buffer.is_dirty());
    app.autosaved(Ok(()), Ok(String::new()));
    assert_eq!(app.status, "Autosaved 4 bytes");
    assert!(app.maybe_autosave(9999).is_none());
}

#[test]
fn escape_closes_the_topmost_overlay_first() {
    let mut app = app_on_temp_txt("ab\n");
    app.apply(Action::ToggleKeysHelp, ENV);
    app.apply(Action::OpenTextSearch, ENV);
    assert!(app.keys_help && app.text_search.is_some());
    app.apply(Action::Escape, ENV);
    assert!(!app.keys_help && app.text_search.is_some());
    app.apply(Action::Escape, ENV);
    assert!(app.text_search.is_none());
}

#[test]
fn the_second_key_of_a_chord_is_not_typed() {
    let mut app = app_on_temp_txt("ab\n");
    app.apply(Action::ToggleMode, ENV);
    app.apply(Action::CtrlGPrefix, ENV);
    assert!(app.status.starts_with("Ctrl-G:"));
    app.apply(Action::Insert('f'), ENV);
    assert!(app.text_search.is_some());
    app.apply(Action::Escape, ENV);
    app.apply(Action::CtrlGPrefix, ENV);
    app.apply(Action::Insert('z'), ENV);
    assert_eq!(app.buffer.text(), "ab\n");
    assert!(app.chord.is_none());
}

#[test]
fn lines_are_gone_to_by_number() {
    let mut app = app_on_temp_txt("a\nb\nc\n");
    app.apply(Action::GoToLine, ENV);
    press(&mut app, "3");
    app.apply(Action::Insert('\n'), ENV);
    assert_eq!(app.view.cursor_line(), 2);
    app.apply(Action::GoToLine, ENV);
    press(&mut app, "99");
    app.apply(Action::Insert('\n'), ENV);
    assert_eq!(app.view.cursor_line(), 3);
    assert!(app.prompt.is_none());
}

#[test]
fn files_are_found_by_name_and_opened() {
    let mut app = app_on_temp_txt("a\n");
    match app.apply(Action::OpenFile, ENV) {
        Some(Errand::Walk { root }) => app.walked(root, vec!["a.txt".into(), "b.rs".into()]),
        other => panic!("expected a walk, got {other:?}"),
    }
    press(&mut app, "b");
    match app.apply(Action::Insert('\n'), ENV) {
        Some(Errand::Open { path, spawn, jump }) => {
            assert_eq!(path, "/p/b.rs");
            assert_eq!(spawn, Some(Language::Rust));
            assert_eq!(jump, Jump::Dialog);
            app.opened(path, jump, opened("fn b() {}\n", "/p/b.rs", true), ENV);
        }
        other => panic!("expected an open, got {other:?}"),
    }
    assert_eq!(app.buffer.text(), "fn b() {}\n");
    assert_eq!(app.active_server(), Some(Language::Rust));
    assert_eq!(app.mode, Mode::View);
}

#[test]
fn a_file_that_cannot_be_opened_leaves_the_buffer() {
    let mut app = app_on_temp_txt("a\n");
    let mut file = opened("", "/p/x.rs", false);
    file.loaded = Err("denied".to_string());
    app.opened("/p/x.rs".to_string(), Jump::Dialog, file, ENV);
    assert_eq!(app.buffer.text(), "a\n");
    assert!(app.status.contains("denied"));
}

fn place(line: u32, character: u32) -> Range {
    let p = Position { line, character };
    Range { start: p, end: p }
}

#[test]
fn definitions_are_gone_to_and_come_back_from() {
    let mut app = app_on("/p/a.rs", "fn a() {}\nfn b() {}\n", true);
    let asked = app.apply(Action::GoToDefinition, ENV);
    assert!(matches!(asked, Some(Errand::Ask(ServerRequest::Definition { line: 0, .. }))));
    let here = Location { uri: "file:///p/a.rs".to_string(), range: place(1, 3) };
    assert!(app.defined(Ok(vec![here]), ENV).is_none());
    assert_eq!((app.view.cursor_line(), app.view.cursor_col()), (1, 3));
    assert!(app.apply(Action::GoBack, ENV).is_none());
    assert_eq!(app.status, "Nothing to go back to");

    app.apply(Action::GoToDefinition, ENV);
    let there = Location { uri: "file:///p/lib.rs".to_string(), range: place(4, 1) };
    match app.defined(Ok(vec![there]), ENV) {
        Some(Errand::Open { path, spawn, jump }) => {
            assert_eq!(path, "/p/lib.rs");
            assert_eq!(spawn, None);
            assert_eq!(jump, Jump::Definition { line: 4, col: 1 });
            app.opened(path, jump, opened("1\n2\n3\n4\n56\n", "/p/lib.rs", true), ENV);
        }
        other => panic!("expected an open, got {other:?}"),
    }
    assert_eq!((app.view.cursor_line(), app.view.cursor_col()), (4, 1));
    match app.apply(Action::GoBack, ENV) {
        Some(Errand::Open { path, jump, .. }) => {
            assert_eq!(path, "/p/a.rs");
            app.opened(path, jump, opened("fn a() {}\nfn b() {}\n", "/p/a.rs", true), ENV);
        }
        other => panic!("expected an open, got {other:?}"),
    }
    assert_eq!((app.view.cursor_line(), app.view.cursor_col()), (1, 3));
}

#[test]
fn servers_are_told_of_every_edit() {
    let mut app = app_on("/p/a.rs", "fn a() {}\n", true);
    app.apply(Action::ToggleMode, ENV);
    press(&mut app, "x");
    let told = app.take_notices();
    assert_eq!(told.len(), 1);
    match &told[0] {
        ServerNotice::Change { uri, version, text, .. } => {
            assert_eq!(uri, "file:///p/a.rs");
            assert_eq!(*version, 1);
            assert_eq!(text, "xfn a() {}\n");
        }
        other => panic!("expected a change, got {other:?}"),
    }
}

#[test]
fn types_are_shown_from_the_source_where_the_server_says_little() {
    let mut app = app_on("/p/a.rs", "let x: i32 = 5;\n", true);
    let asked = app.apply(Action::ShowType, ENV);
    assert!(matches!(asked, Some(Errand::Ask(ServerRequest::Hover { .. }))));
    app.hovered(Ok(Some("```rust\ncore::x\n```".to_string())), ENV);
    assert!(app.status.contains("i32"), "{}", app.status);
    app.hovered(Ok(Some("```rust\nfn a() -> u8\n```".to_string())), ENV);
    assert!(app.status.contains("fn a() -> u8"));
}

#[test]
fn renames_are_applied_in_the_buffer() {
    let mut app = app_on("/p/a.rs", "fn a() {}\n", true);
    app.apply(Action::ToggleMode, ENV);
    app.apply(Action::MoveRight, ENV);
    app.apply(Action::MoveRight, ENV);
    app.apply(Action::MoveRight, ENV);
    app.apply(Action::Rename, ENV);
    assert!(app.prompt.is_some());
    app.apply(Action::DeletePrev, ENV);
    press(&mut app, "b");
    let asked = app.apply(Action::Insert('\n'), ENV);
    assert!(matches!(asked, Some(Errand::Ask(ServerRequest::Rename { .. }))), "{asked:?}");
    let range = Range {
        start: Position { line: 0, character: 3 },
        end: Position { line: 0, character: 4 },
    };
    let edits = WorkspaceEdit {
        changes: vec![(
            "file:///p/a.rs".to_string(),
            vec![TextEdit { range, new_text: "b".to_string() }],
        )],
    };
    app.renamed("b", Ok(edits), ENV);
    assert_eq!(app.buffer.text(), "fn b() {}\n");
    assert!(app.cursor_in_bounds());
}

#[test]
fn types_are_searched_for_through_the_server() {
    let mut app = app_on("/p/a.rs", "fn a() {}\n", true);
    app.apply(Action::OpenTypeSearch, ENV);
    assert!(app.apply(Action::Insert('V'), ENV).is_none());
    let asked = app.apply(Action::Insert('a'), ENV);
    assert!(matches!(asked, Some(Errand::Ask(ServerRequest::WorkspaceSymbol { .. }))));
    let symbol = |name: &str, kind: u32| SymbolInformation {
        name: name.to_string(),
        kind,
        location: Location { uri: "file:///p/v.rs".to_string(), range: place(2, 4) },
        container_name: None,
    };
    app.symbols_known("Va", Ok(vec![symbol("Vase", 23), symbol("vary", 12)]), ENV);
    let found: Vec<&str> =
        app.type_search.as_ref().unwrap().results.iter().map(|h| h.name.as_str()).collect();
    assert_eq!(found, vec!["Vase"]);
    match app.apply(Action::Insert('\n'), ENV) {
        Some(Errand::Open { path, jump, .. }) => {
            assert_eq!(path, "/p/v.rs");
            assert_eq!(jump, Jump::TypeHit { line: 2, col: 4 });
        }
        other => panic!("expected an open, got {other:?}"),
    }
}

#[test]
fn text_is_searched_for_in_the_project() {
    let mut app = app_on_temp_txt("a\nneedle\n");
    app.apply(Action::OpenTextSearch, ENV);
    assert!(app.apply(Action::Insert('n'), ENV).is_none());
    let asked = app.apply(Action::Insert('e'), ENV);
    assert!(matches!(asked, Some(Errand::Grep { .. })), "{asked:?}");
    let hit = TextHit {
        path: "a.txt".to_string(),
        line: 1,
        col: 0,
        preview: "needle".to_string(),
    };
    app.grepped("ne", vec![hit], false);
    assert!(app.apply(Action::Insert('\n'), ENV).is_none());
    assert_eq!(app.view.cursor_line(), 1);
    assert!(app.text_search.is_none());
}

#[test]
fn changed_files_are_listed_staged_and_committed() {
    let mut app = app_on_temp_txt("a\n");
    let asked = app.apply(Action::ToggleGitDiff, ENV);
    assert!(matches!(asked, Some(Errand::Status { .. })));
    let entry = |path: &str, staged: char, unstaged: char| StatusEntry {
        path: path.to_string(),
        staged,
        unstaged,
    };
    let found = vec![entry("z.rs", '?', '?'), entry("b.rs", ' ', 'M'), entry("a.rs", 'A', ' ')];
    let next = app.status_known(Ok(("/p".to_string(), found)));
    assert!(matches!(next, Some(Errand::FileDiff { .. })));
    app.diffed(Ok("@@\n+x\n".to_string()), false);
    let paths: Vec<&str> =
        app.diff.as_ref().unwrap().files.iter().map(|f| f.path.as_str()).collect();
    assert_eq!(paths, vec!["a.rs", "b.rs", "z.rs"]);
    app.apply(Action::MoveDown, ENV);
    match app.apply(Action::Insert('s'), ENV) {
        Some(Errand::Stage { repo_root, path }) => {
            assert_eq!(repo_root, "/p");
            assert_eq!(path, "b.rs");
        }
        other => panic!("expected a stage, got {other:?}"),
    }
    assert!(matches!(app.staged("b.rs", Ok(())), Some(Errand::Refresh { .. })));
    app.apply(Action::Insert('c'), ENV);
    press(&mut app, "msg");
    match app.apply(Action::Insert('\n'), ENV) {
        Some(Errand::Commit { message, .. }) => assert_eq!(message, "msg"),
        other => panic!("expected a commit, got {other:?}"),
    }
}

#[test]
fn the_tree_opens_files_and_directories() {
    let mut app = App::new_for_dir("/p".to_string(), &items());
    assert!(app.tree.focused);
    app.apply(Action::MoveDown, ENV);
    match app.apply(Action::Insert('\n'), ENV) {
        Some(Errand::List { dir }) => assert_eq!(dir, "/p/sub"),
        other => panic!("expected a listing, got {other:?}"),
    }
    app.listed(&vec![DirItem { name: "c.rs".to_string(), is_dir: false }]);
    app.apply(Action::MoveDown, ENV);
    match app.apply(Action::Insert('\n'), ENV) {
        Some(Errand::Open { path, jump, .. }) => {
            assert_eq!(path, "/p/sub/c.rs");
            assert_eq!(jump, Jump::Tree);
            app.opened(path, jump, opened("x", "/p/sub/c.rs", false), ENV);
        }
        other => panic!("expected an open, got {other:?}"),
    }
    assert!(!app.tree.focused);
    match app.apply(Action::ToggleTree, ENV) {
        Some(Errand::Reveal { path }) => {
            assert_eq!(path, "/p/sub/c.rs");
            let there = Listing {
                dir: "/p/sub".to_string(),
                items: vec![DirItem { name: "c.rs".to_string(), is_dir: false }],
            };
            app.revealed("/p/sub/c.rs", &vec![there]);
        }
        other => panic!("expected a reveal, got {other:?}"),
    }
    assert_eq!(app.tree.entries[app.tree.cursor].name, "c.rs");
}

#[test]
fn new_files_are_checked_for_before_they_are_made() {
    let mut app = app_on_temp_txt("a\n");
    app.apply(Action::NewFile, ENV);
    press(&mut app, "n.txt");
    match app.apply(Action::Insert('\n'), ENV) {
        Some(Errand::Exists { path }) => {
            assert_eq!(path, "/p/n.txt");
            assert!(app.exists_known(path.clone(), true).is_none());
            assert!(app.status.contains("exists"), "{}", app.status);
            let next = app.exists_known(path.clone(), false);
            assert!(matches!(next, Some(Errand::Create { .. })), "{next:?}");
            let next = app.created(path, Ok(()));
            assert!(matches!(next, Some(Errand::Open { jump: Jump::Created, .. })));
        }
        other => panic!("expected a check, got {other:?}"),
    }
}

fn rename_edit(line: u32, from: u32, to: u32, text: &str) -> TextEdit {
    TextEdit {
        range: Range {
            start: Position { line, character: from },
            end: Position { line, character: to },
        },
        new_text: text.to_string(),
    }
}

#[test]
fn a_rename_that_fails_leaves_nothing_behind() {
    let mut app = app_on("/p/a.rs", "fn a() {}\n", true);
    let version = app.buffer.version();
    let edits = WorkspaceEdit {
        changes: vec![
            ("file:///p/a.rs".to_string(), vec![rename_edit(0, 3, 4, "b")]),
            ("file:///p/a.rs".to_string(), vec![rename_edit(99, 0, 1, "b")]),
        ],
    };
    app.renamed("b", Ok(edits), ENV);
    assert!(app.status.starts_with("Rename apply failed"), "{}", app.status);
    assert_eq!(app.buffer.text(), "fn a() {}\n");
    assert!(!app.buffer.is_dirty());
    assert!(app.buffer.version() > version);
    assert!(app.tx_manager.recent(10).is_empty());
    let edits = WorkspaceEdit {
        changes: vec![("file:///p/a.rs".to_string(), vec![rename_edit(0, 3, 4, "b")])],
    };
    app.renamed("b", Ok(edits), ENV);
    assert_eq!(app.buffer.text(), "fn b() {}\n");
    assert_eq!(app.tx_manager.recent(10)[0].intent, "rename -> b");
}

#[test]
fn a_rename_pulls_the_cursor_back_into_the_text() {
    let mut app = app_on("/p/a.rs", "a\nlong_name\n", true);
    app.apply(Action::MoveDown, ENV);
    app.apply(Action::MoveEnd, ENV);
    assert_eq!((app.view.cursor_line(), app.view.cursor_col()), (1, 9));
    let edits = WorkspaceEdit {
        changes: vec![("file:///p/a.rs".to_string(), vec![rename_edit(1, 0, 9, "x")])],
    };
    app.renamed("x", Ok(edits), ENV);
    assert_eq!(app.buffer.text(), "a\nx\n");
    assert!(app.cursor_in_bounds());
    assert_eq!((app.view.cursor_line(), app.view.cursor_col()), (1, 1));
}

#[test]
fn a_server_is_looked_for_by_the_file_at_hand() {
    let mut app = app_on("/p/a.rs", "x\n", false);
    assert!(app.lsp_attempted);
    app.opened("/p/a.txt".to_string(), Jump::Dialog, opened("t\n", "/p/a.txt", false), ENV);
    assert!(!app.lsp_attempted);
    app.opened("/p/b.rs".to_string(), Jump::Dialog, opened("y\n", "/p/b.rs", true), ENV);
    assert!(app.lsp_attempted);
    assert_eq!(app.active_server(), Some(Language::Rust));
}
