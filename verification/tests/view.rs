use dyad::buffer::Buffer;
use dyad::view::View;

fn buf(text: &str) -> Buffer {
    Buffer::open("/tmp/view.txt".to_string(), Some(text))
}

fn at(v: &View) -> (usize, usize) {
    (v.cursor_line(), v.cursor_col())
}

#[test]
fn the_cursor_wraps_over_line_ends() {
    let b = buf("ab\ncd");
    let mut v = View::new();
    v.move_left(&b);
    assert_eq!(at(&v), (0, 0));
    v.move_end(&b);
    v.move_right(&b);
    assert_eq!(at(&v), (1, 0));
    v.move_left(&b);
    assert_eq!(at(&v), (0, 2));
}

#[test]
fn the_column_is_aimed_for_across_short_lines() {
    let b = buf("abcd\nx\nabcd\n");
    let mut v = View::new();
    v.move_end(&b);
    v.move_down(&b);
    assert_eq!(at(&v), (1, 1));
    v.move_down(&b);
    assert_eq!(at(&v), (2, 4));
    v.move_up(&b);
    v.move_home();
    assert_eq!(at(&v), (1, 0));
}

#[test]
fn words_are_jumped_over() {
    let b = buf("foo  bar_baz é9!");
    let mut v = View::new();
    v.move_word_right(&b);
    assert_eq!(at(&v), (0, 5));
    v.move_word_right(&b);
    assert_eq!(at(&v), (0, 13));
    v.move_word_left(&b);
    assert_eq!(at(&v), (0, 5));
}

#[test]
fn pages_move_by_the_viewport() {
    let b = buf(&"x\n".repeat(50));
    let mut v = View::new();
    v.page_down(&b, 10);
    let (line, _) = at(&v);
    assert!(line > 0 && line <= 10);
    v.scroll_into_view(5);
    assert!(v.top_line() <= line && line < v.top_line() + 5);
    v.page_up(&b, 10);
    assert_eq!(at(&v), (0, 0));
}

#[test]
fn places_outside_are_pulled_into_the_text() {
    let b = buf("ab\ncd");
    let mut v = View::new();
    v.goto(&b, 9, 9);
    assert_eq!(at(&v), (1, 2));
    assert!(v.in_bounds(&b));
    assert_eq!(v.char_idx(&b), 5);
    assert!(!v.in_bounds(&buf("a")));
}

#[test]
fn the_cursor_follows_edits() {
    let mut b = buf("ab");
    let mut v = View::new();
    b.insert_str(0, "x\ny");
    v.after_insert(&b, "x\ny");
    assert_eq!(at(&v), (1, 1));
}
