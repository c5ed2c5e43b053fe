//! What holds across operations, on concrete values.

use dyad::action::Action;
use dyad::app::{App, Env, Errand, OpenedFile};
use dyad::buffer::Buffer;
use dyad::lsp::{Position, Range, TextEdit};
use dyad::order::sort;
use dyad::protocol::{apply_text_edits, ByteRange, CharRange, SOLE_BUFFER_ID};
use dyad::runtime::screen::KeyEdit;
use dyad::runtime::EditorCore;
use dyad::syntax::Syntax;
use dyad::test_runner::parse_failure_header;

fn edit(line: u32, start: u32, end: u32, text: &str) -> TextEdit {
    TextEdit {
        range: Range {
            start: Position { line, character: start },
            end: Position { line, character: end },
        },
        new_text: text.to_string(),
    }
}

fn core_with(texts: &[&str]) -> EditorCore {
    let mut core = EditorCore::new();
    for (i, text) in texts.iter().enumerate() {
        let path = format!("/tmp/laws_{i}.rs");
        core.buffer_open(path.clone(), path, Ok(Some(text.to_string()))).unwrap();
    }
    core
}

fn text_of(core: &EditorCore, id: u64) -> String {
    core.buffer_read(id, None).unwrap().text
}

#[test]
fn edits_in_any_order_land_where_the_server_saw_them() {
    let mut b = Buffer::open("/tmp/x.rs".to_string(), Some("let a = a;\r\nlet b = a + a;\n"));
    let listed = vec![
        edit(0, 4, 5, "first"),
        edit(1, 12, 13, "x\ny"),
        edit(0, 8, 9, ""),
        edit(1, 8, 9, "long name"),
        edit(1, 0, 0, "// "),
    ];
    apply_text_edits(&mut b, &sort(listed)).unwrap();
    assert_eq!(b.text(), "let first = ;\r\n// let b = long name + x\ny;\n");
}

#[test]
fn spans_of_a_line_do_not_overlap() {
    let b = Buffer::open(
        "/tmp/x.rs".to_string(),
        Some("pub fn f(x: &'static str) -> Option<u8> { println!(\"{x}\"); None } // é\n"),
    );
    let mut syn = Syntax::for_path(Some("/tmp/x.rs")).unwrap();
    syn.refresh(b.rope(), b.version());
    let spans = syn.line_spans(0);
    assert!(spans.len() > 5);
    for pair in spans.windows(2) {
        assert!(pair[0].col_end <= pair[1].col_start);
    }
    syn.refresh(b.rope(), b.version());
    assert_eq!(syn.line_spans(0).len(), spans.len());
}

#[test]
fn node_edits_are_read_back_and_isolated() {
    let mut core = core_with(&["fn é() {}\n", "fn other() {}\n"]);
    let v = core.buffer_version(SOLE_BUFFER_ID).unwrap();
    let w = core
        .edit_replace_node(SOLE_BUFFER_ID, v, ByteRange { start: 3, end: 5 }, "name")
        .unwrap();
    let read = core.buffer_read(SOLE_BUFFER_ID, None).unwrap();
    assert_eq!((read.text.as_str(), read.version), ("fn name() {}\n", w));
    assert_eq!(text_of(&core, 2), "fn other() {}\n");
}

#[test]
fn a_transaction_of_many_edits_is_one_entry_or_none() {
    let mut core = core_with(&["seed\n", "other\n"]);
    for commit in [true, false] {
        let before = text_of(&core, 1);
        let logged = core.history_recent(10).len();
        let tx = core.tx_begin(1, "compose".to_string(), None).unwrap();
        for _ in 0..3 {
            let v = core.buffer_version(1).unwrap();
            core.edit_replace_range(1, v, CharRange { start: 0, end: 1 }, "xy").unwrap();
        }
        assert_eq!(core.history_recent(10).len(), logged);
        if commit {
            core.tx_commit(tx).unwrap();
            assert_eq!(core.history_recent(10).len(), logged + 1);
            assert_eq!(text_of(&core, 1), "xyyyeed\n");
        } else {
            core.tx_rollback(tx).unwrap();
            assert_eq!(core.history_recent(10).len(), logged);
            assert_eq!(text_of(&core, 1), before);
        }
        assert_eq!(text_of(&core, 2), "other\n");
    }
}

#[test]
fn empty_keystrokes_leave_no_trace() {
    let mut core = core_with(&["ab\n"]);
    let _ = core.take_notices();
    let changed = core.tui_apply_edit(1, "delete".to_string(), KeyEdit::Delete(1, 1)).unwrap();
    assert!(!changed);
    assert!(core.history_recent(10).is_empty());
    assert!(core.take_notices().is_empty());
    assert_eq!(text_of(&core, 1), "ab\n");
}

#[test]
fn overlays_lock_nobody_in() {
    let env = Env { rows: 24, now: 0, indexing: false };
    for overlay in [Action::ToggleKeysHelp, Action::OpenTextSearch, Action::ToggleTree] {
        let file = OpenedFile {
            loaded: Ok(Some("ab\n".to_string())),
            absolute: "/p/a.txt".to_string(),
            canonical: "/p/a.txt".to_string(),
            diff: Ok(String::new()),
            spawned: false,
            listings: vec![],
        };
        let mut app =
            App::new("/p/a.txt".to_string(), file, "/p".to_string(), &vec![]).unwrap();
        app.apply(overlay, env);
        assert!(matches!(app.apply(Action::Save, env), Some(Errand::Save { .. })));
        app.apply(Action::Quit, env);
        assert!(!app.running);
    }
}

#[test]
fn counters_have_room() {
    let core = core_with(&["a", "b"]);
    assert!(core.has_room(5));
    assert!(!core.has_room(i32::MAX as u64 + 1));
    assert!(!core.has_room(u64::MAX));
}

#[test]
fn failure_headers_name_the_test() {
    assert_eq!(parse_failure_header("---- a::b stdout ----").as_deref(), Some("a::b"));
    assert_eq!(parse_failure_header("---- a::b"), None);
}

#[test]
fn a_key_that_breaks_the_lines_is_told_apart() {
    let env = Env { rows: 24, now: 0, indexing: false };
    let file = OpenedFile {
        loaded: Ok(Some("a\rb".to_string())),
        absolute: "/p/a.txt".to_string(),
        canonical: "/p/a.txt".to_string(),
        diff: Ok(String::new()),
        spawned: false,
        listings: vec![],
    };
    let mut app = App::new("/p/a.txt".to_string(), file, "/p".to_string(), &vec![]).unwrap();
    app.apply(Action::ToggleMode, env);
    assert!(app.can_apply(Action::Insert('\n')));
    app.apply(Action::MoveDown, env);
    assert!(!app.can_apply(Action::Insert('\n')));
    assert!(app.can_apply(Action::Insert('x')));
    assert!(app.can_count());
}

#[test]
fn an_ended_transaction_cannot_be_ended_again() {
    let mut core = core_with(&["fn a() {}\n"]);
    let tx = core.tx_begin(1, "first".to_string(), None).unwrap();
    let v = core.buffer_version(1).unwrap();
    core.edit_replace_range(1, v, CharRange { start: 0, end: 0 }, "// x\n").unwrap();
    let v = core.buffer_version(1).unwrap();
    core.tx_rollback(tx).unwrap();
    assert_eq!(text_of(&core, 1), "fn a() {}\n");
    assert_eq!(core.buffer_version(1).unwrap(), v + 1);
    assert!(core.history_recent(9).is_empty());
    assert!(core.tx_rollback(tx).is_err());
    let tx = core.tx_begin(1, "second".to_string(), Some("talk".to_string())).unwrap();
    let change = core.tx_commit(tx).unwrap();
    let history = core.history_recent(9);
    assert_eq!(history.len(), 1);
    assert_eq!((history[0].change_id, history[0].tx_id), (change, tx));
    assert_eq!(history[0].conversation_id.as_deref(), Some("talk"));
    assert!(core.tx_commit(tx).is_err());
}

#[test]
fn packs_are_truncated_where_the_largest_budget_takes_more() {
    let core = core_with(&["use std::fmt;\nuse std::io;\nfn a() {}\nfn b() {}\n"]);
    let most = core.context_pack(1, 2, 4, usize::MAX).unwrap();
    assert!(!most.truncated);
    for budget in 0..40 {
        let pack = core.context_pack(1, 2, 4, budget).unwrap();
        assert_eq!(pack.truncated, pack.slices.len() < most.slices.len(), "{budget}");
        let sum: usize = pack.slices.iter().map(|s| s.estimated_tokens).sum();
        assert_eq!(sum, pack.estimated_tokens);
        assert!(pack.slices.len() < 2 || sum <= budget);
    }
}
