use dyad::buffer::{advance_by, Buffer};
use dyad::error::EditorError;

fn temp_buffer(name: &str) -> Buffer {
    Buffer::open(format!("/tmp/dyad_buffer_test_{name}.rs"), None)
}

#[test]
fn scratch_starts_empty_and_unpathed() {
    let buf = Buffer::scratch();
    assert_eq!(buf.len_chars(), 0);
    assert_eq!(buf.version(), 0);
    assert!(!buf.is_dirty());
    assert!(buf.path().is_none());
}

#[test]
fn open_missing_file_returns_empty_buffer() {
    let path = "/tmp/dyad_buffer_test_missing.rs";
    let buf = Buffer::open(path.to_string(), None);
    assert_eq!(buf.len_chars(), 0);
    assert!(!buf.is_dirty());
    assert_eq!(buf.path(), Some(path));
}

#[test]
fn open_existing_file_loads_contents() {
    let buf = Buffer::open("/tmp/existing.rs".to_string(), Some("hello\nworld\n"));
    assert_eq!(buf.rope().to_string(), "hello\nworld\n");
    assert_eq!(buf.line_count(), 3);
}

#[test]
fn insert_char_bumps_version_and_marks_dirty() {
    let mut buf = temp_buffer("insert_char");
    let v0 = buf.version();
    assert!(!buf.is_dirty());
    buf.insert_char(0, 'h');
    assert_eq!(buf.rope().to_string(), "h");
    assert_ne!(buf.version(), v0);
    assert!(buf.is_dirty());
}

#[test]
fn insert_char_newline_advances_row() {
    let mut buf = temp_buffer("newline");
    buf.insert_char(0, 'a');
    buf.insert_char(1, '\n');
    buf.insert_char(2, 'b');
    let edits = buf.drain_edits();
    assert_eq!(edits.len(), 3);
    let last = edits[2];
    assert_eq!(last.start_row, 1);
    assert_eq!(last.start_col, 0);
    assert_eq!(last.new_end_row, 1);
    assert_eq!(last.new_end_col, 1);
}

#[test]
fn insert_char_supports_multibyte() {
    let mut buf = temp_buffer("multibyte");
    buf.insert_char(0, 'é');
    assert_eq!(buf.rope().to_string(), "é");
    let edits = buf.drain_edits();
    assert_eq!(edits.len(), 1);
    assert_eq!(edits[0].new_end_byte - edits[0].start_byte, 2);
    assert_eq!(edits[0].new_end_col, 2);
}

#[test]
fn insert_str_with_newlines_updates_row_column() {
    let mut buf = temp_buffer("insert_str");
    buf.insert_str(0, "ab\ncd");
    let edits = buf.drain_edits();
    assert_eq!(edits.len(), 1);
    let e = edits[0];
    assert_eq!(e.start_row, 0);
    assert_eq!(e.start_col, 0);
    assert_eq!(e.new_end_row, 1);
    assert_eq!(e.new_end_col, 2);
}

#[test]
fn delete_range_empty_is_a_noop() {
    let mut buf = temp_buffer("noop_delete");
    buf.insert_str(0, "hello");
    let v_before = buf.version();
    buf.drain_edits();
    buf.delete_range(2, 2);
    assert_eq!(buf.rope().to_string(), "hello");
    assert_eq!(buf.version(), v_before);
    assert!(buf.drain_edits().is_empty());
}

#[test]
fn delete_range_removes_chars_and_records_edit() {
    let mut buf = temp_buffer("delete_range");
    buf.insert_str(0, "hello world");
    buf.drain_edits();
    buf.delete_range(5, 11);
    assert_eq!(buf.rope().to_string(), "hello");
    let edits = buf.drain_edits();
    assert_eq!(edits.len(), 1);
    let e = edits[0];
    assert_eq!(e.start_byte, 5);
    assert_eq!(e.old_end_byte, 11);
    assert_eq!(e.new_end_byte, 5);
}

#[test]
fn replace_node_swaps_byte_range() {
    let mut buf = temp_buffer("replace_node");
    buf.insert_str(0, "fn hello() {}");
    buf.replace_node(3, 8, "goodbye");
    assert_eq!(buf.rope().to_string(), "fn goodbye() {}");
    assert!(buf.is_dirty());
}

#[test]
fn line_len_chars_strips_terminator() {
    let mut buf = temp_buffer("line_len");
    buf.insert_str(0, "abc\ndef\r\nxy");
    assert_eq!(buf.line_len_chars(0), 3);
    assert!(buf.line_len_chars(1) <= buf.line(1).chars().count());
    assert_eq!(buf.line_len_chars(1), 4);
    assert_eq!(buf.line_len_chars(2), 2);
}

#[test]
fn save_writes_contents_and_clears_dirty() {
    let path = "/tmp/dyad_buffer_test_save.rs";
    let mut buf = Buffer::open(path.to_string(), None);
    buf.insert_str(0, "saved text\n");
    assert!(buf.is_dirty());
    let (target, contents) = buf.save_target().unwrap();
    assert_eq!(target, path);
    assert_eq!(contents, "saved text\n");
    let bytes = buf.save(Ok(())).unwrap();
    assert_eq!(bytes, "saved text\n".len());
    assert!(!buf.is_dirty());
}

#[test]
fn save_without_path_errors() {
    let mut buf = Buffer::scratch();
    buf.insert_str(0, "scratch");
    assert!(buf.save_target().is_err());
    let err = buf.save(Ok(())).unwrap_err();
    assert!(err.message().contains("no associated path"));
}

#[test]
fn a_save_that_failed_leaves_the_buffer_dirty() {
    let mut buf = temp_buffer("failed");
    buf.insert_str(0, "x");
    let refused = EditorError::Outside { message: "disk full".to_string() };
    assert_eq!(buf.save(Err(refused)).unwrap_err().message(), "disk full");
    assert!(buf.is_dirty());
}

#[test]
fn drain_edits_returns_then_clears_pending() {
    let mut buf = temp_buffer("drain");
    buf.insert_char(0, 'a');
    buf.insert_char(1, 'b');
    let first = buf.drain_edits();
    assert_eq!(first.len(), 2);
    assert!(buf.drain_edits().is_empty());
}

#[test]
fn snapshot_then_restore_round_trips_text() {
    let mut buf = temp_buffer("snapshot");
    buf.insert_str(0, "initial");
    let snap = buf.snapshot();
    let pre_version = buf.version();

    buf.insert_str(buf.len_chars(), " mutation");
    assert_eq!(buf.rope().to_string(), "initial mutation");

    buf.restore(snap);
    assert_eq!(buf.rope().to_string(), "initial");
    assert_ne!(buf.version(), pre_version);
}

#[test]
fn line_to_char_aligns_with_rope() {
    let mut buf = temp_buffer("line_to_char");
    buf.insert_str(0, "a\nbc\ndef\n");
    assert_eq!(buf.line_to_char(0), 0);
    assert_eq!(buf.line_to_char(1), 2);
    assert_eq!(buf.line_to_char(2), 5);
}

#[test]
fn reads_agree_with_the_text() {
    let buf = Buffer::open("/tmp/x".to_string(), Some("aé\nb"));
    assert_eq!(buf.len_chars(), 4);
    assert_eq!(buf.len_bytes(), 5);
    assert_eq!(buf.text(), "aé\nb");
    assert_eq!(buf.slice(1, 3), "é\n");
    assert_eq!(buf.char_at(1), 'é');
    assert_eq!(buf.char_to_line(3), 1);
    assert_eq!(buf.line(0), "aé\n");
}

#[test]
fn text_advances_the_point_before_it() {
    assert_eq!(advance_by(2, 3, "ab"), (2, 5));
    assert_eq!(advance_by(2, 3, "a\nbé"), (3, 3));
}
