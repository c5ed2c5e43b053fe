//! The rope that stores a buffer's text, and the line and byte geometry of a
//! text.
//!
//! The rope itself is `ropey::Rope`. `rope_chars` names the characters that it
//! holds, and the contract of each of its methods is stated over that sequence.

use ropey::Rope;
use vstd::prelude::*;

use crate::text;

pub mod laws;

verus! {

// ------------------------------------------------------------------- geometry

/// The characters that end a line.
pub open spec fn line_break(c: char) -> bool {
    let n = c as u32;
    0xa <= n <= 0xd || n == 0x85 || n == 0x2028 || n == 0x2029
}

/// A line other than the first starts at position `i`: the character before it
/// ends a line, and the position does not part a carriage return from the line
/// feed that belongs to it.
pub open spec fn starts_line(s: Seq<char>, i: int) -> bool {
    &&& 0 < i <= s.len()
    &&& line_break(s[i - 1])
    &&& !(s[i - 1] == '\r' && i < s.len() && s[i] == '\n')
}

/// The line that position `i` is on, counted from zero.
pub open spec fn line_of(s: Seq<char>, i: int) -> nat
    decreases i,
{
    if i <= 0 {
        0
    } else if starts_line(s, i) {
        line_of(s, i - 1) + 1
    } else {
        line_of(s, i - 1)
    }
}

/// The number of lines; a text that ends with a line break has an empty last
/// line.
pub open spec fn line_count(s: Seq<char>) -> nat {
    line_of(s, s.len() as int) + 1
}

/// The first position at or after `i` that is on line `line` or a later one.
pub open spec fn line_start_from(s: Seq<char>, line: int, i: int) -> int
    decreases s.len() - i,
{
    if i >= s.len() {
        s.len() as int
    } else if line_of(s, i) >= line {
        i
    } else {
        line_start_from(s, line, i + 1)
    }
}

/// The position where line `line` starts, or the end of the text.
pub open spec fn line_start(s: Seq<char>, line: int) -> int {
    line_start_from(s, line, 0)
}

/// The text of line `line`, with its line break.
pub open spec fn line_text(s: Seq<char>, line: int) -> Seq<char> {
    s.subrange(line_start(s, line), line_start(s, line + 1))
}

/// The number of columns of a line: one trailing line feed or carriage return
/// does not count.
pub open spec fn columns(line: Seq<char>) -> nat {
    if line.len() > 0 && (line.last() == '\n' || line.last() == '\r') {
        (line.len() - 1) as nat
    } else {
        line.len()
    }
}

/// The number of columns of line `line` of a text.
pub open spec fn line_len(s: Seq<char>, line: int) -> nat {
    columns(line_text(s, line))
}

/// Where the characters of a line end: before the line feed or the carriage return that
/// is its last character, if one is.
pub open spec fn line_end(s: Seq<char>, line: int) -> int {
    let end = line_start(s, line + 1);
    if end > line_start(s, line) && (s[end - 1] == '\n' || s[end - 1] == '\r') {
        end - 1
    } else {
        end
    }
}

/// The byte offset of position `i`.
pub open spec fn byte_of(s: Seq<char>, i: int) -> nat {
    text::utf8_len(s.take(i))
}

/// The first position at or after `i` whose character reaches past byte `b`.
pub open spec fn char_of_byte_from(s: Seq<char>, b: int, i: int) -> int
    decreases s.len() - i,
{
    if i >= s.len() {
        s.len() as int
    } else if byte_of(s, i + 1) > b {
        i
    } else {
        char_of_byte_from(s, b, i + 1)
    }
}

/// The position of the character that byte `b` belongs to, or the end of the
/// text.
pub open spec fn char_of_byte(s: Seq<char>, b: int) -> int {
    char_of_byte_from(s, b, 0)
}

pub proof fn lemma_line_of_bound(s: Seq<char>, i: int)
    requires
        0 <= i,
    ensures
        line_of(s, i) <= i,
    decreases i,
{
    if i > 0 {
        lemma_line_of_bound(s, i - 1);
    }
}

pub proof fn lemma_line_of_monotone(s: Seq<char>, i: int, j: int)
    requires
        0 <= i <= j,
    ensures
        line_of(s, i) <= line_of(s, j),
    decreases j - i,
{
    if i < j {
        lemma_line_of_monotone(s, i, j - 1);
    }
}

proof fn lemma_line_start_from(s: Seq<char>, line: int, i: int)
    requires
        0 <= i <= s.len(),
        0 <= line,
        i > 0 ==> line_of(s, i - 1) < line,
    ensures
        i <= line_start_from(s, line, i) <= s.len(),
        line < line_count(s) ==> line_of(s, line_start_from(s, line, i)) == line,
        line >= line_count(s) ==> line_start_from(s, line, i) == s.len(),
        forall|j: int|
            i <= j < line_start_from(s, line, i) ==> #[trigger] line_of(s, j) < line,
    decreases s.len() - i,
{
    lemma_line_of_monotone(s, i, s.len() as int);
    if i < s.len() && line_of(s, i) < line {
        lemma_line_start_from(s, line, i + 1);
    }
}

/// Line `line` starts at the first position that is on it.
pub proof fn lemma_line_start(s: Seq<char>, line: int)
    requires
        0 <= line,
    ensures
        0 <= line_start(s, line) <= s.len(),
        line < line_count(s) ==> line_of(s, line_start(s, line)) == line,
        line >= line_count(s) ==> line_start(s, line) == s.len(),
        forall|j: int| 0 <= j < line_start(s, line) ==> #[trigger] line_of(s, j) < line,
{
    lemma_line_start_from(s, line, 0);
}

pub proof fn lemma_line_end(s: Seq<char>, line: int)
    requires
        0 <= line,
    ensures
        line_end(s, line) == line_start(s, line) + line_len(s, line),
{
    lemma_line_start(s, line);
    lemma_line_start(s, line + 1);
    let t = line_text(s, line);
    let end = line_start(s, line + 1);
    if end > line_start(s, line) {
        assert(t.last() == s[end - 1]);
    }
}

/// A position is on line `line` exactly when it lies between the start of that
/// line and the start of the next one.
pub proof fn lemma_line_of_position(s: Seq<char>, line: int, i: int)
    requires
        0 <= line < line_count(s),
        0 <= i <= s.len(),
    ensures
        line_start(s, line) <= i ==> line <= line_of(s, i),
        i < line_start(s, line + 1) ==> line_of(s, i) <= line,
        line_start(s, line_of(s, i) as int) <= i,
        line_of(s, i) < line_count(s),
{
    lemma_line_start(s, line);
    lemma_line_start(s, line + 1);
    if line_start(s, line) <= i {
        lemma_line_of_monotone(s, line_start(s, line), i);
    }
    lemma_line_of_monotone(s, i, s.len() as int);
    let own = line_of(s, i) as int;
    lemma_line_start(s, own);
}

/// Lines start in order.
pub proof fn lemma_line_start_monotone(s: Seq<char>, a: int, b: int)
    requires
        0 <= a <= b,
    ensures
        line_start(s, a) <= line_start(s, b),
{
    lemma_line_start(s, a);
    lemma_line_start(s, b);
    if line_start(s, a) > line_start(s, b) {
        assert(line_of(s, line_start(s, b)) < a);
        if b < line_count(s) {
            assert(false);
        }
    }
}

proof fn lemma_char_of_byte_from(s: Seq<char>, b: int, i: int)
    requires
        0 <= i <= s.len(),
        byte_of(s, i) <= b <= text::utf8_len(s),
    ensures
        i <= char_of_byte_from(s, b, i) <= s.len(),
        byte_of(s, char_of_byte_from(s, b, i)) <= b,
        char_of_byte_from(s, b, i) < s.len() ==> b < byte_of(s, char_of_byte_from(s, b, i) + 1),
        char_of_byte_from(s, b, i) == s.len() ==> b == text::utf8_len(s),
    decreases s.len() - i,
{
    assert(s.take(s.len() as int) =~= s);
    if i < s.len() && byte_of(s, i + 1) <= b {
        lemma_char_of_byte_from(s, b, i + 1);
    }
}

/// The character that a byte belongs to starts at or before it and ends after
/// it.
pub proof fn lemma_char_of_byte(s: Seq<char>, b: int)
    requires
        0 <= b <= text::utf8_len(s),
    ensures
        0 <= char_of_byte(s, b) <= s.len(),
        byte_of(s, char_of_byte(s, b)) <= b,
        char_of_byte(s, b) < s.len() ==> b < byte_of(s, char_of_byte(s, b) + 1),
        char_of_byte(s, b) == s.len() ==> b == text::utf8_len(s),
{
    assert(s.take(0) =~= Seq::<char>::empty());
    lemma_char_of_byte_from(s, b, 0);
}

/// Later bytes belong to later characters.
pub proof fn lemma_char_of_byte_monotone(s: Seq<char>, a: int, b: int)
    requires
        0 <= a <= b <= text::utf8_len(s),
    ensures
        char_of_byte(s, a) <= char_of_byte(s, b),
{
    lemma_char_of_byte(s, a);
    lemma_char_of_byte(s, b);
    let i = char_of_byte(s, a);
    let j = char_of_byte(s, b);
    if j < i {
        text::lemma_utf8_len_take(s, j + 1, i);
    }
}

/// The byte offset of a position leads back to the position.
pub proof fn law_byte_of_round_trips(s: Seq<char>, i: int)
    requires
        0 <= i <= s.len(),
    ensures
        char_of_byte(s, byte_of(s, i) as int) == i,
{
    assert(s.take(s.len() as int) =~= s);
    text::lemma_utf8_len_take(s, i, s.len() as int);
    let b = byte_of(s, i) as int;
    lemma_char_of_byte(s, b);
    let k = char_of_byte(s, b);
    if k < i {
        text::lemma_utf8_len_take(s, k + 1, i);
    } else if k > i {
        text::lemma_utf8_len_take(s, i, k);
    }
}

// ----------------------------------------------------------------------- rope

#[verifier::external_type_specification]
#[verifier::external_body]
pub struct ExRope(ropey::Rope);

/// The characters that a rope holds.
pub uninterp spec fn rope_chars(r: Rope) -> Seq<char>;

/// `Rope::new` makes an empty rope.
pub assume_specification[ ropey::Rope::new ]() -> (r: Rope)
    ensures
        rope_chars(r) == Seq::<char>::empty(),
;

/// `Rope::from_str` makes a rope that holds the given text.
pub assume_specification[ ropey::Rope::from_str ](contents: &str) -> (r: Rope)
    ensures
        rope_chars(r) == contents@,
;

/// `Rope::clone` makes a rope with the same text.
pub assume_specification[ <ropey::Rope as Clone>::clone ](held: &Rope) -> (r: Rope)
    ensures
        rope_chars(r) == rope_chars(*held),
;

/// `Rope::len_bytes` is the length of the text in UTF-8.
pub assume_specification[ ropey::Rope::len_bytes ](held: &Rope) -> (n: usize)
    ensures
        n == text::utf8_len(rope_chars(*held)),
;

/// `Rope::len_chars` is the number of characters.
pub assume_specification[ ropey::Rope::len_chars ](held: &Rope) -> (n: usize)
    ensures
        n == rope_chars(*held).len(),
;

/// `Rope::len_lines` is the number of lines.
pub assume_specification[ ropey::Rope::len_lines ](held: &Rope) -> (n: usize)
    ensures
        n == line_count(rope_chars(*held)),
;

/// `Rope::insert` puts a text at a character position; it panics past the end.
pub assume_specification[ ropey::Rope::insert ](held: &mut Rope, char_idx: usize, inserted: &str)
    requires
        char_idx <= rope_chars(*old(held)).len(),
    ensures
        rope_chars(*final(held)) == rope_chars(*old(held)).take(char_idx as int) + inserted@
            + rope_chars(*old(held)).skip(char_idx as int),
;

/// `Rope::insert_char` puts one character at a character position; it panics
/// past the end.
pub assume_specification[ ropey::Rope::insert_char ](held: &mut Rope, char_idx: usize, ch: char)
    requires
        char_idx <= rope_chars(*old(held)).len(),
    ensures
        rope_chars(*final(held)) == rope_chars(*old(held)).insert(char_idx as int, ch),
;

/// `Rope::remove` takes out a range of characters; it panics unless the range
/// lies within the text.
#[verifier::external_body]
pub(crate) fn rope_remove(rope: &mut Rope, start: usize, end: usize)
    requires
        start <= end <= rope_chars(*old(rope)).len(),
    ensures
        rope_chars(*final(rope)) == rope_chars(*old(rope)).take(start as int) + rope_chars(
            *old(rope),
        ).skip(end as int),
{
    rope.remove(start..end)
}

/// `Rope::char` is the character at a position; it panics at the end.
pub assume_specification[ ropey::Rope::char ](held: &Rope, char_idx: usize) -> (c: char)
    requires
        char_idx < rope_chars(*held).len(),
    ensures
        c == rope_chars(*held)[char_idx as int],
;

/// `Rope::char_to_byte` is the byte offset of a position; it panics past the
/// end.
pub assume_specification[ ropey::Rope::char_to_byte ](held: &Rope, char_idx: usize) -> (n: usize)
    requires
        char_idx <= rope_chars(*held).len(),
    ensures
        n == byte_of(rope_chars(*held), char_idx as int),
;

/// `Rope::byte_to_char` is the position of the character that a byte belongs
/// to; it panics past the end.
pub assume_specification[ ropey::Rope::byte_to_char ](held: &Rope, byte_idx: usize) -> (n: usize)
    requires
        byte_idx <= text::utf8_len(rope_chars(*held)),
    ensures
        n == char_of_byte(rope_chars(*held), byte_idx as int),
;

/// `Rope::char_to_line` is the line that a position is on; it panics past the
/// end.
pub assume_specification[ ropey::Rope::char_to_line ](held: &Rope, char_idx: usize) -> (n: usize)
    requires
        char_idx <= rope_chars(*held).len(),
    ensures
        n == line_of(rope_chars(*held), char_idx as int),
;

/// `Rope::byte_to_line` is the line that a byte's character is on; it panics
/// past the end.
pub assume_specification[ ropey::Rope::byte_to_line ](held: &Rope, byte_idx: usize) -> (n: usize)
    requires
        byte_idx <= text::utf8_len(rope_chars(*held)),
    ensures
        n == line_of(rope_chars(*held), char_of_byte(rope_chars(*held), byte_idx as int)),
;

/// `Rope::line_to_char` is the position where a line starts, and the end of the
/// text for the line after the last; it panics past that.
pub assume_specification[ ropey::Rope::line_to_char ](held: &Rope, line_idx: usize) -> (n: usize)
    requires
        line_idx <= line_count(rope_chars(*held)),
    ensures
        n == line_start(rope_chars(*held), line_idx as int),
;

/// `Rope::line_to_byte` is the byte offset where a line starts, and the length
/// in bytes for the line after the last; it panics past that.
pub assume_specification[ ropey::Rope::line_to_byte ](held: &Rope, line_idx: usize) -> (n: usize)
    requires
        line_idx <= line_count(rope_chars(*held)),
    ensures
        n == byte_of(rope_chars(*held), line_start(rope_chars(*held), line_idx as int)),
;

/// `Rope::slice` is the part of the text between two positions, here as a
/// string; it panics unless the range lies within the text.
#[verifier::external_body]
pub(crate) fn rope_slice(rope: &Rope, start: usize, end: usize) -> (r: String)
    requires
        start <= end <= rope_chars(*rope).len(),
    ensures
        r@ == rope_chars(*rope).subrange(start as int, end as int),
{
    String::from(rope.slice(start..end))
}

/// `Rope`'s conversion into a string gives the whole text.
#[verifier::external_body]
pub(crate) fn rope_text(rope: &Rope) -> (r: String)
    ensures
        r@ == rope_chars(*rope),
{
    String::from(rope)
}

/// `Rope::line` is the text of one line with its line break, here as a string;
/// it panics past the last line.
#[verifier::external_body]
pub(crate) fn rope_line(rope: &Rope, line: usize) -> (r: String)
    requires
        line < line_count(rope_chars(*rope)),
    ensures
        r@ == line_text(rope_chars(*rope), line as int),
{
    String::from(rope.line(line))
}

} // verus!
