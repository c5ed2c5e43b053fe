//! Where the lines of a text begin and end, and how its characters and bytes are counted.

use vstd::prelude::*;

use crate::rope;
use crate::text;

verus! {

/// The text breaks before the `i`th character: behind a line break, but not between a
/// carriage return and its line feed.
pub open spec fn breaks(s: Seq<char>, i: int) -> bool {
    &&& 0 < i <= s.len()
    &&& s[i - 1] == '\n' || s[i - 1] == '\r' || s[i - 1] == '\u{b}' || s[i - 1] == '\u{c}' || s[i
        - 1] == '\u{85}' || s[i - 1] == '\u{2028}' || s[i - 1] == '\u{2029}'
    &&& !(s[i - 1] == '\r' && i < s.len() && s[i] == '\n')
}

proof fn lemma_line_break(c: char)
    ensures
        rope::line_break(c) <==> c == '\n' || c == '\r' || c == '\u{b}' || c == '\u{c}' || c
            == '\u{85}' || c == '\u{2028}' || c == '\u{2029}',
{
    assert('\n' as u32 == 0xa && '\r' as u32 == 0xd && '\u{b}' as u32 == 0xb && '\u{c}' as u32
        == 0xc && '\u{85}' as u32 == 0x85 && '\u{2028}' as u32 == 0x2028 && '\u{2029}' as u32
        == 0x2029);
}

proof fn lemma_breaks(s: Seq<char>, i: int)
    ensures
        rope::starts_line(s, i) == breaks(s, i),
{
    if 0 < i <= s.len() {
        lemma_line_break(s[i - 1]);
    }
}

/// The lines of a text lie one behind the other, from its start to its end: each begins
/// where the text breaks, the first at its start, and holds no break inside.
pub proof fn law_lines_of_a_text(s: Seq<char>, line: int)
    requires
        0 <= line < rope::line_count(s),
    ensures
        rope::line_start(s, 0) == 0,
        0 < line ==> breaks(s, rope::line_start(s, line)),
        forall|i: int|
            rope::line_start(s, line) < i < rope::line_start(s, line + 1) ==> !#[trigger] breaks(
                s,
                i,
            ),
        line + 1 < rope::line_count(s) ==> rope::line_start(s, line) < rope::line_start(
            s,
            line + 1,
        ),
        line + 1 == rope::line_count(s) ==> rope::line_start(s, line + 1) == s.len() && (
        rope::line_start(s, line) < s.len() ==> !breaks(s, s.len() as int)),
{
    let p = rope::line_start(s, line);
    let q = rope::line_start(s, line + 1);
    rope::lemma_line_start(s, 0);
    rope::lemma_line_start(s, line);
    rope::lemma_line_start(s, line + 1);
    rope::lemma_line_start_monotone(s, line, line + 1);
    if rope::line_start(s, 0) > 0 {
        assert(rope::line_of(s, 0) < 0);
    }
    if 0 < line {
        assert(rope::line_of(s, 0) == 0);
        assert(p > 0);
        assert(rope::line_of(s, p - 1) < line);
        lemma_breaks(s, p);
    }
    assert forall|i: int| p < i < q implies !#[trigger] breaks(s, i) by {
        assert(rope::line_of(s, i) < line + 1);
        rope::lemma_line_of_monotone(s, p, i - 1);
        rope::lemma_line_of_monotone(s, i - 1, i);
        lemma_breaks(s, i);
    }
    if line + 1 == rope::line_count(s) && p < s.len() {
        rope::lemma_line_of_monotone(s, p, s.len() - 1);
        lemma_breaks(s, s.len() as int);
    }
}

/// Every place of a text is on the line that begins at it or before it, and that no other
/// line follows before the place.
pub proof fn law_lines_of_places(s: Seq<char>, i: int)
    requires
        0 <= i <= s.len(),
    ensures
        ({
            let line = rope::line_of(s, i) as int;
            &&& 0 <= line < rope::line_count(s)
            &&& rope::line_start(s, line) <= i
            &&& line + 1 < rope::line_count(s) ==> i < rope::line_start(s, line + 1)
        }),
{
    let line = rope::line_of(s, i) as int;
    rope::lemma_line_of_monotone(s, i, s.len() as int);
    rope::lemma_line_of_position(s, line, i);
    if line + 1 < rope::line_count(s) && rope::line_start(s, line + 1) <= i {
        rope::lemma_line_of_position(s, line + 1, i);
    }
}

/// A line is what stands between its start and the start of the next; its length does not
/// count a line feed or a carriage return at its end.
pub proof fn law_texts_of_lines(s: Seq<char>, line: int)
    requires
        0 <= line < rope::line_count(s),
    ensures
        ({
            let t = rope::line_text(s, line);
            &&& t == s.subrange(rope::line_start(s, line), rope::line_start(s, line + 1))
            &&& t.len() > 0 && (t[t.len() - 1] == '\n' || t[t.len() - 1] == '\r')
                ==> rope::line_len(s, line) == t.len() - 1
            &&& t.len() == 0 || (t[t.len() - 1] != '\n' && t[t.len() - 1] != '\r')
                ==> rope::line_len(s, line) == t.len()
        }),
{
}

/// A character has one byte up to 7f, two up to 7ff, three up to ffff, and else four; the
/// bytes before a place are those of the characters before it.
pub proof fn law_bytes_of_characters(s: Seq<char>, i: int)
    requires
        0 <= i < s.len(),
    ensures
        rope::byte_of(s, 0) == 0,
        rope::byte_of(s, i + 1) == rope::byte_of(s, i) + (if s[i] as u32 <= 0x7f {
            1int
        } else if s[i] as u32 <= 0x7ff {
            2
        } else if s[i] as u32 <= 0xffff {
            3
        } else {
            4
        }),
{
    assert(s.take(0) =~= Seq::<char>::empty());
    assert(s.take(i + 1).drop_last() =~= s.take(i));
    assert(s.take(i + 1).last() == s[i]);
}

/// Blanks, tabs and line breaks are whitespace; what can be seen in ASCII is not. Capital
/// letters of ASCII become small ones, and nothing else changes.
pub proof fn law_characters(c: char)
    ensures
        c == ' ' || c == '\t' || c == '\n' || c == '\r' ==> text::whitespace(c),
        '!' <= c <= '~' ==> !text::whitespace(c),
        'A' <= c <= 'Z' ==> text::ascii_lower(c) as int == c as int - 'A' as int + 'a' as int,
        !('A' <= c <= 'Z') ==> text::ascii_lower(c) == c,
        text::ascii_digit(c) <==> '0' <= c <= '9',
        text::ascii_letter(c) <==> 'a' <= c <= 'z' || 'A' <= c <= 'Z',
{
    assert(' ' as u32 == 0x20 && '\t' as u32 == 9 && '\n' as u32 == 0xa && '\r' as u32 == 0xd
        && '!' as u32 == 0x21 && '~' as u32 == 0x7e);
    assert('A' as u32 == 65 && 'Z' as u32 == 90 && 'a' as u32 == 97);
}

/// Bytes are counted by the place of the character that they belong to.
pub proof fn law_characters_of_bytes(s: Seq<char>, i: int, b: int)
    requires
        0 <= i < s.len(),
        rope::byte_of(s, i) <= b < rope::byte_of(s, i + 1),
    ensures
        rope::char_of_byte(s, b) == i,
{
    assert(s.take(s.len() as int) =~= s);
    text::lemma_utf8_len_take(s, i + 1, s.len() as int);
    rope::lemma_char_of_byte(s, b);
    let k = rope::char_of_byte(s, b);
    if k < i {
        text::lemma_utf8_len_take(s, k + 1, i);
    }
    if k > i {
        text::lemma_utf8_len_take(s, i + 1, k);
    }
}

} // verus!
