use dyad::error::EditorError;
use dyad::protocol::SOLE_BUFFER_ID;
use dyad::runtime::screen::KeyEdit;
use dyad::runtime::{EditorCore, ServerNotice};

fn path_of(name: &str) -> String {
    format!("/tmp/dyad-core-{name}.txt")
}

fn core_with(name: &str, contents: &str) -> EditorCore {
    let mut core = EditorCore::new();
    let path = path_of(name);
    core.buffer_open(path.clone(), path, Ok(Some(contents.to_string()))).unwrap();
    core
}

#[test]
fn open_focuses_sole_buffer() {
    let core = core_with("focus", "hello\nworld\n");
    assert_eq!(core.focus(), Some(SOLE_BUFFER_ID));
    let meta = core.buffer_meta(SOLE_BUFFER_ID).unwrap();
    assert_eq!(meta.line_count, 3);
    assert!(!meta.dirty);
    assert_eq!(meta.version, 0);
    assert_eq!(meta.path, Some(path_of("focus")));
}

#[test]
fn render_lines_strips_newline_and_pads_past_eof() {
    let core = core_with("render", "ab\ncd\n");
    let lines = core.render_lines(SOLE_BUFFER_ID, 0, 4).unwrap();
    assert_eq!(lines.len(), 4);
    assert_eq!(lines[0].text, "ab");
    assert_eq!(lines[1].text, "cd");
    assert_eq!(lines[2].text, "");
    assert_eq!(lines[3].text, "");
}

#[test]
fn render_lines_honors_top_line_offset() {
    let core = core_with("offset", "l0\nl1\nl2\nl3\n");
    let lines = core.render_lines(SOLE_BUFFER_ID, 2, 2).unwrap();
    assert_eq!(lines[0].text, "l2");
    assert_eq!(lines[1].text, "l3");
}

#[test]
fn tui_apply_edit_commits_real_change_and_discards_noop() {
    let mut core = core_with("edit", "x\n");
    let changed = core
        .tui_apply_edit(SOLE_BUFFER_ID, "insert".to_string(), KeyEdit::InsertChar(0, 'Z'))
        .unwrap();
    assert!(changed);
    assert!(core
        .buffer_ref(SOLE_BUFFER_ID)
        .unwrap()
        .rope()
        .to_string()
        .starts_with("Zx"));
    assert_eq!(core.history_recent(10).len(), 1);

    let again = core
        .tui_apply_edit(SOLE_BUFFER_ID, "noop".to_string(), KeyEdit::Nothing)
        .unwrap();
    assert!(!again);
    assert_eq!(
        core.history_recent(10).len(),
        1,
        "a no-op edit must not record flat history"
    );
}

#[test]
fn tui_save_persists_and_clears_dirty() {
    let mut core = core_with("save", "a\n");
    core.tui_apply_edit(SOLE_BUFFER_ID, "insert".to_string(), KeyEdit::InsertChar(0, 'q'))
        .unwrap();
    assert!(core.buffer_meta(SOLE_BUFFER_ID).unwrap().dirty);
    let (target, contents) = core.tui_save_target(SOLE_BUFFER_ID).unwrap();
    assert_eq!(target, path_of("save"));
    assert!(contents.starts_with("qa"));
    let bytes = core.tui_save(SOLE_BUFFER_ID, Ok(())).unwrap();
    assert!(bytes > 0);
    assert!(!core.buffer_meta(SOLE_BUFFER_ID).unwrap().dirty);
}

#[test]
fn lens_rejects_unknown_buffer_id() {
    let mut core = core_with("unknown", "z\n");
    assert!(core.buffer_meta(999).is_err());
    assert!(core.render_lines(999, 0, 1).is_err());
    assert!(core.buffer_ref(999).is_err());
    assert!(core.tui_save(999, Ok(())).is_err());
    assert!(core.tui_apply_edit(999, "x".to_string(), KeyEdit::Nothing).is_err());
}

#[test]
fn a_file_that_cannot_be_read_is_not_opened() {
    let mut core = EditorCore::new();
    let refused = EditorError::Outside { message: "denied".to_string() };
    let err = core.buffer_open("/x".to_string(), "/x".to_string(), Err(refused)).unwrap_err();
    assert_eq!(err.message(), "denied");
    assert!(core.buffer_list().is_empty());
    assert_eq!(core.focus(), None);
}

#[test]
fn servers_are_told_of_opens_changes_and_closes() {
    let mut core = EditorCore::new();
    let id = core
        .buffer_open("a.rs".to_string(), "/p/a.rs".to_string(), Ok(Some("fn a() {}".to_string())))
        .unwrap();
    let started = core.take_notices();
    assert_eq!(started.len(), 1);
    match &started[0] {
        ServerNotice::Spawn { uri, text, .. } => {
            assert_eq!(uri, "file:///p/a.rs");
            assert_eq!(text, "fn a() {}");
        }
        other => panic!("expected a start, got {other:?}"),
    }
    core.server_started(dyad::language::Language::Rust);
    core.tui_apply_edit(id, "insert".to_string(), KeyEdit::InsertChar(0, 'x')).unwrap();
    core.buffer_close(id).unwrap();
    let told = core.take_notices();
    assert_eq!(told.len(), 2);
    assert!(matches!(&told[0], ServerNotice::Change { version: 1, .. }));
    assert!(matches!(&told[1], ServerNotice::Close { .. }));
    assert!(core.take_notices().is_empty());
}

#[test]
fn texts_and_nodes_are_edited_from_the_terminal() {
    let mut core = core_with("texts", "ab\n");
    let id = SOLE_BUFFER_ID;
    assert!(core
        .tui_apply_edit(id, "paste".to_string(), KeyEdit::InsertStr(1, "xyz".to_string()))
        .unwrap());
    assert_eq!(core.buffer_ref(id).unwrap().text(), "axyzb\n");
    assert!(core
        .tui_apply_edit(id, "node".to_string(), KeyEdit::ReplaceNode(1, 4, "-".to_string()))
        .unwrap());
    assert_eq!(core.buffer_ref(id).unwrap().text(), "a-b\n");
    assert_eq!(core.history_recent(10).len(), 2);
}
