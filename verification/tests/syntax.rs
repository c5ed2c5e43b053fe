use dyad::buffer::Buffer;
use dyad::error::EditorError;
use dyad::syntax::{style_for, Syntax};
use dyad::theme::Color;
use ropey::Rope;

fn slice(rope: &Rope, byte_start: usize, byte_end: usize) -> String {
    let cs = rope.byte_to_char(byte_start);
    let ce = rope.byte_to_char(byte_end);
    rope.slice(cs..ce).to_string()
}

#[test]
fn ast_query_finds_function_names() {
    let mut syn = Syntax::rust();
    let rope = Rope::from_str("fn hello() {}\nfn world() {}\n");
    syn.refresh(&rope, 1);
    let matches = syn
        .ast_query(&rope, "(function_item name: (identifier) @name)")
        .unwrap();
    let names: Vec<String> = matches
        .into_iter()
        .filter(|m| m.capture == "name")
        .map(|m| slice(&rope, m.byte_start, m.byte_end))
        .collect();
    assert_eq!(names, vec!["hello".to_string(), "world".to_string()]);
}

#[test]
fn replace_node_renames_function() {
    let mut buf = Buffer::open("/tmp/dyad_test_replace_node.rs".to_string(), None);
    buf.insert_str(0, "fn hello() {}\n");

    let mut syn = Syntax::rust();
    syn.refresh(buf.rope(), buf.version());
    let matches = syn
        .ast_query(buf.rope(), "(function_item name: (identifier) @name)")
        .unwrap();
    let target = matches
        .into_iter()
        .find(|m| m.capture == "name")
        .expect("function name should match");

    let before_version = buf.version();
    buf.replace_node(target.byte_start, target.byte_end, "world");

    assert_eq!(buf.rope().to_string(), "fn world() {}\n");
    assert_ne!(buf.version(), before_version);
    assert!(buf.is_dirty());
}

#[test]
fn queries_need_a_parse_and_a_grammar() {
    let syn = Syntax::rust();
    let rope = Rope::from_str("fn a() {}");
    assert_eq!(syn.ast_query(&rope, "(function_item) @f").unwrap_err(), EditorError::NotParsed);
    let mut syn = Syntax::rust();
    syn.refresh(&rope, 0);
    assert_eq!(syn.ast_query(&rope, "(no such node").unwrap_err(), EditorError::BadQuery);
    assert!(Syntax::for_path(Some("a.rs")).is_some());
    assert!(Syntax::for_path(Some("a.txt")).is_none());
    assert!(Syntax::for_path(None).is_none());
}

#[test]
fn spans_stay_within_their_lines() {
    let mut syn = Syntax::rust();
    let rope = Rope::from_str("// note\nfn é() { let x = 1; }\n");
    syn.refresh(&rope, 0);
    let comment = syn.line_spans(0);
    assert!(!comment.is_empty());
    assert_eq!(comment[0].col_start, 0);
    assert_eq!(style_for(comment[0].capture_idx).fg, Some(Color::DarkGray));
    for line in 0..2 {
        let width = rope.line(line).len_chars();
        for span in syn.line_spans(line) {
            assert!(span.col_start < span.col_end);
            assert!(span.col_end <= width);
        }
    }
    assert!(syn.line_spans(99).is_empty());
}

#[test]
fn styles_go_by_the_first_part_of_a_name() {
    assert!(style_for(1).italic);
    assert!(style_for(8).bold);
    assert_eq!(style_for(8).fg, Some(Color::Magenta));
    assert_eq!(style_for(17).fg, Some(Color::Green));
    assert_eq!(style_for(22).fg, None);
    assert_eq!(style_for(999).fg, None);
}
