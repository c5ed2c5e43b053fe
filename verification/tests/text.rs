//! Texts are taken apart as by the standard library.

use dyad::scan::{
    find_chars, is_blank, join_chars, number, parse_usize, split_chars, split_lines, split_words,
    trim_text,
};
use dyad::search::path_before;
use dyad::text::{is_whitespace, lower_ascii_chars, to_chars};

const TEXTS: [&str; 20] = [
    "", "\n", "\r\n", "a", "a\n", "a\nb", "a\r\nb\r\n", "a\n\nb", "\r", "a\r", " a b ", "\t x\u{a0}",
    "\u{2003}é\u{2003}", "1", "007", "18446744073709551615", "18446744073709551616", "+5", "-5",
    "É é ß",
];

fn strings(parts: Vec<Vec<char>>) -> Vec<String> {
    parts.into_iter().map(|p| p.into_iter().collect()).collect()
}

#[test]
fn lines_words_and_pieces_are_those_of_std() {
    for t in TEXTS {
        let cs = to_chars(t);
        assert_eq!(strings(split_lines(&cs)), t.lines().collect::<Vec<_>>(), "{t:?}");
        assert_eq!(strings(split_words(&cs)), t.split_whitespace().collect::<Vec<_>>(), "{t:?}");
        assert_eq!(strings(split_chars(&cs, 'b')), t.split('b').collect::<Vec<_>>(), "{t:?}");
        assert_eq!(trim_text(t), t.trim(), "{t:?}");
        assert_eq!(is_blank(t), t.trim().is_empty(), "{t:?}");
        assert_eq!(parse_usize(&cs), t.parse::<usize>().ok(), "{t:?}");
        let low: String = lower_ascii_chars(&cs).into_iter().collect();
        assert_eq!(low, t.to_ascii_lowercase(), "{t:?}");
    }
}

#[test]
fn whitespace_is_that_of_std() {
    for n in 0..0x3100u32 {
        if let Some(c) = char::from_u32(n) {
            assert_eq!(is_whitespace(c), c.is_whitespace(), "{n:#x}");
        }
    }
}

#[test]
fn numbers_are_written_and_read_back() {
    for n in [0u64, 1, 9, 10, 99, 100, 12345, u64::MAX] {
        assert_eq!(number(n), n.to_string());
        assert_eq!(parse_usize(&to_chars(&number(n))), Some(n as usize));
    }
}

#[test]
fn parts_are_found_and_joined() {
    let cs = to_chars("abcabc");
    assert_eq!(find_chars(&cs, &to_chars("ca"), 0), Some(2));
    assert_eq!(find_chars(&cs, &to_chars("ab"), 1), Some(3));
    assert_eq!(find_chars(&cs, &to_chars("x"), 0), None);
    assert_eq!(join_chars(&[to_chars("a"), to_chars("b")], ", "), "a, b");
}

#[test]
fn paths_sort_by_their_components() {
    let paths = ["a", "a/b", "a.rs", "a/b/c", "b", "", "a-b", "A"];
    for a in paths {
        for b in paths {
            let std = std::path::Path::new(a) <= std::path::Path::new(b);
            assert_eq!(path_before(a, b), std, "{a:?} and {b:?}");
        }
    }
}
