use dyad::buffer::Buffer;
use dyad::hover::{extract_signature, looks_like_path_only, type_from_source_line};

#[test]
fn extract_signature_picks_last_code_block() {
    let hover = "\
```rust
test_crate::main
```

```rust
let x: i32
```
";
    assert_eq!(extract_signature(hover).as_deref(), Some("let x: i32"));
}

#[test]
fn extract_signature_handles_multi_line_blocks() {
    let hover = "\
```rust
fn foo(
    a: i32,
) -> i32
```
";
    assert_eq!(
        extract_signature(hover).as_deref(),
        Some("fn foo( a: i32, ) -> i32")
    );
}

#[test]
fn extract_signature_falls_back_to_plain_text() {
    assert_eq!(
        extract_signature("just a plain line").as_deref(),
        Some("just a plain line")
    );
}

#[test]
fn looks_like_path_only_flags_bare_paths() {
    assert!(looks_like_path_only("dyad::app::App"));
    assert!(looks_like_path_only("core::option::Option"));
    assert!(!looks_like_path_only("Option<HistoryView>"));
    assert!(!looks_like_path_only("fn foo() -> i32"));
    assert!(!looks_like_path_only("let x: i32"));
    assert!(!looks_like_path_only("i32"));
    assert!(!looks_like_path_only("App"));
    assert!(looks_like_path_only("größe::é9"));
}

#[test]
fn type_from_source_line_extracts_field_type() {
    let buffer = buffer_with("    pub history: Option<HistoryView>,\n");
    assert_eq!(
        type_from_source_line(&buffer, 0).as_deref(),
        Some("Option<HistoryView>")
    );
}

#[test]
fn type_from_source_line_extracts_let_binding() {
    let buffer = buffer_with("let x: i32 = 5;\n");
    assert_eq!(type_from_source_line(&buffer, 0).as_deref(), Some("i32"));
}

#[test]
fn type_from_source_line_returns_none_for_expression_only() {
    let buffer = buffer_with("foo(bar);\n");
    assert_eq!(type_from_source_line(&buffer, 0), None);
}

fn buffer_with(text: &str) -> Buffer {
    let mut b = Buffer::scratch();
    b.insert_str(0, text);
    b
}
