//! Searching, trimming, splitting and number syntax on character sequences.

use vstd::prelude::*;

use crate::text;
use crate::text::{is_whitespace, substring, to_chars, to_text};

pub mod laws;

verus! {

// ------------------------------------------------------------------- trimming

/// `s` without its leading whitespace.
pub open spec fn trim_start(s: Seq<char>) -> Seq<char>
    decreases s.len(),
{
    if s.len() > 0 && text::whitespace(s[0]) {
        trim_start(s.skip(1))
    } else {
        s
    }
}

/// `s` without its trailing whitespace.
pub open spec fn trim_end(s: Seq<char>) -> Seq<char>
    decreases s.len(),
{
    if s.len() > 0 && text::whitespace(s.last()) {
        trim_end(s.drop_last())
    } else {
        s
    }
}

/// `s` without whitespace at either end.
pub open spec fn trim(s: Seq<char>) -> Seq<char> {
    trim_end(trim_start(s))
}

/// Whether `s` holds nothing but whitespace.
pub open spec fn blank(s: Seq<char>) -> bool {
    trim(s).len() == 0
}

pub proof fn lemma_trim_start_len(s: Seq<char>)
    ensures
        trim_start(s).len() <= s.len(),
        trim_start(s).len() > 0 ==> !text::whitespace(trim_start(s)[0]),
        trim_start(s) == s.skip(s.len() - trim_start(s).len()),
    decreases s.len(),
{
    if s.len() > 0 && text::whitespace(s[0]) {
        lemma_trim_start_len(s.skip(1));
        let t = trim_start(s);
        assert(s.skip(1).skip(s.len() - 1 - t.len()) =~= s.skip(s.len() - t.len()));
    } else {
        assert(s.skip(0) =~= s);
    }
}

pub proof fn lemma_trim_end_len(s: Seq<char>)
    ensures
        trim_end(s).len() <= s.len(),
        trim_end(s).len() > 0 ==> !text::whitespace(trim_end(s).last()),
        trim_end(s) == s.take(trim_end(s).len() as int),
    decreases s.len(),
{
    if s.len() > 0 && text::whitespace(s.last()) {
        lemma_trim_end_len(s.drop_last());
        let n = trim_end(s).len() as int;
        assert(s.drop_last().take(n) =~= s.take(n));
    } else {
        assert(s.take(s.len() as int) =~= s);
    }
}

/// How many leading characters of `cs[from..]` are whitespace, as a position.
pub fn skip_whitespace(cs: &[char], from: usize) -> (r: usize)
    requires
        from <= cs@.len(),
    ensures
        from <= r <= cs@.len(),
        cs@.skip(r as int) == trim_start(cs@.skip(from as int)),
{
    let mut i: usize = from;
    while i < cs.len() && is_whitespace(cs[i])
        invariant
            from <= i <= cs@.len(),
            trim_start(cs@.skip(i as int)) == trim_start(cs@.skip(from as int)),
        decreases cs@.len() - i,
    {
        assert(cs@.skip(i as int).skip(1) =~= cs@.skip(i + 1));
        i += 1;
    }
    i
}

/// The bounds of `cs` once whitespace is trimmed from both ends.
pub fn trim_bounds(cs: &[char]) -> (r: (usize, usize))
    ensures
        r.0 <= r.1 <= cs@.len(),
        cs@.subrange(r.0 as int, r.1 as int) == trim(cs@),
{
    assert(cs@.skip(0) =~= cs@);
    let start: usize = skip_whitespace(cs, 0);
    let mut end: usize = cs.len();
    assert(cs@.subrange(start as int, end as int) =~= cs@.skip(start as int));
    while end > start && is_whitespace(cs[end - 1])
        invariant
            start <= end <= cs@.len(),
            trim_end(cs@.subrange(start as int, end as int)) == trim(cs@),
        decreases end,
    {
        assert(cs@.subrange(start as int, end as int).drop_last() =~= cs@.subrange(
            start as int,
            end - 1,
        ));
        end -= 1;
    }
    (start, end)
}

/// A copy of `cs[from..to]`.
pub fn sub_chars(cs: &[char], from: usize, to: usize) -> (r: Vec<char>)
    requires
        from <= to <= cs@.len(),
    ensures
        r@ == cs@.subrange(from as int, to as int),
{
    let mut r: Vec<char> = Vec::new();
    let mut i: usize = from;
    while i < to
        invariant
            from <= i <= to <= cs@.len(),
            r@ == cs@.subrange(from as int, i as int),
        decreases to - i,
    {
        r.push(cs[i]);
        assert(cs@.subrange(from as int, i as int).push(cs@[i as int]) =~= cs@.subrange(
            from as int,
            i + 1,
        ));
        i += 1;
    }
    r
}

pub fn trim_chars(cs: &[char]) -> (r: Vec<char>)
    ensures
        r@ == trim(cs@),
{
    let (a, b) = trim_bounds(cs);
    sub_chars(cs, a, b)
}

pub fn trim_text(s: &str) -> (r: String)
    ensures
        r@ == trim(s@),
{
    let cs = to_chars(s);
    let (a, b) = trim_bounds(&cs);
    substring(&cs, a, b)
}

pub fn is_blank(s: &str) -> (r: bool)
    ensures
        r == blank(s@),
{
    let cs = to_chars(s);
    let (a, b) = trim_bounds(&cs);
    a == b
}

// ------------------------------------------------------------------ searching

/// `pat` stands in `s` at position `i`.
pub open spec fn occurs_at(s: Seq<char>, pat: Seq<char>, i: int) -> bool {
    0 <= i && i + pat.len() <= s.len() && s.subrange(i, i + pat.len()) == pat
}

/// The first position at or after `i` where `pat` stands in `s`.
pub open spec fn find_from(s: Seq<char>, pat: Seq<char>, i: int) -> Option<int>
    decreases s.len() + 1 - i,
{
    if i < 0 || i + pat.len() > s.len() {
        None
    } else if occurs_at(s, pat, i) {
        Some(i)
    } else {
        find_from(s, pat, i + 1)
    }
}

/// The first position where `pat` stands in `s`.
pub open spec fn find(s: Seq<char>, pat: Seq<char>) -> Option<int> {
    find_from(s, pat, 0)
}

pub open spec fn contains(s: Seq<char>, pat: Seq<char>) -> bool {
    find(s, pat) is Some
}

pub open spec fn starts_with(s: Seq<char>, pat: Seq<char>) -> bool {
    occurs_at(s, pat, 0)
}

pub open spec fn ends_with(s: Seq<char>, pat: Seq<char>) -> bool {
    occurs_at(s, pat, s.len() - pat.len())
}

/// What `find_from` returns is an occurrence, and the first one.
pub proof fn lemma_find_from(s: Seq<char>, pat: Seq<char>, i: int)
    requires
        0 <= i,
    ensures
        match find_from(s, pat, i) {
            Some(k) => i <= k && occurs_at(s, pat, k) && forall|j: int|
                i <= j < k ==> !occurs_at(s, pat, j),
            None => forall|j: int| i <= j ==> !occurs_at(s, pat, j),
        },
    decreases s.len() + 1 - i,
{
    if i + pat.len() <= s.len() && !occurs_at(s, pat, i) {
        lemma_find_from(s, pat, i + 1);
    }
}

pub fn occurs_here(cs: &[char], pat: &[char], i: usize) -> (r: bool)
    ensures
        r == occurs_at(cs@, pat@, i as int),
{
    if i > cs.len() || pat.len() > cs.len() - i {
        return false;
    }
    let mut j: usize = 0;
    while j < pat.len()
        invariant
            i + pat@.len() <= cs.len(),
            j <= pat@.len(),
            forall|k: int| 0 <= k < j ==> cs@[i + k] == pat@[k],
        decreases pat@.len() - j,
    {
        if cs[i + j] != pat[j] {
            assert(cs@.subrange(i as int, i + pat@.len())[j as int] != pat@[j as int]);
            return false;
        }
        j += 1;
    }
    assert(cs@.subrange(i as int, i + pat@.len()) =~= pat@);
    true
}

pub fn find_chars(cs: &[char], pat: &[char], from: usize) -> (r: Option<usize>)
    ensures
        match r {
            Some(i) => find_from(cs@, pat@, from as int) == Some(i as int) && i + pat@.len()
                <= cs.len() == cs@.len(),
            None => find_from(cs@, pat@, from as int) is None,
        },
{
    let mut i: usize = from;
    while i <= cs.len() && pat.len() <= cs.len() - i
        invariant
            find_from(cs@, pat@, from as int) == find_from(cs@, pat@, i as int),
            cs.len() == cs@.len(),
        decreases cs@.len() + 1 - i,
    {
        if occurs_here(cs, pat, i) {
            return Some(i);
        }
        assert(pat@.len() == 0 ==> cs@.subrange(i as int, i as int) =~= pat@);
        i += 1;
    }
    None
}

pub fn text_contains(s: &str, pat: &str) -> (r: bool)
    ensures
        r == contains(s@, pat@),
{
    let cs = to_chars(s);
    let p = to_chars(pat);
    find_chars(&cs, &p, 0).is_some()
}

pub fn text_starts_with(s: &str, pat: &str) -> (r: bool)
    ensures
        r == starts_with(s@, pat@),
{
    let cs = to_chars(s);
    let p = to_chars(pat);
    occurs_here(&cs, &p, 0)
}

/// The first position of `c` in `s`, or the length of `s`.
pub open spec fn until(s: Seq<char>, c: char) -> int
    decreases s.len(),
{
    if s.len() == 0 || s[0] == c {
        0
    } else {
        1 + until(s.skip(1), c)
    }
}

pub proof fn lemma_until(s: Seq<char>, c: char)
    ensures
        0 <= until(s, c) <= s.len(),
        until(s, c) < s.len() ==> s[until(s, c)] == c,
        forall|j: int| 0 <= j < until(s, c) ==> s[j] != c,
    decreases s.len(),
{
    if s.len() > 0 && s[0] != c {
        let t = s.skip(1);
        lemma_until(t, c);
        assert forall|j: int| 0 <= j < until(s, c) implies s[j] != c by {
            if j > 0 {
                assert(t[j - 1] == s[j]);
            }
        }
    }
}

/// The position of the first `c` in `cs[from..]`, or `cs.len()`.
pub fn index_until(cs: &[char], c: char, from: usize) -> (r: usize)
    requires
        from <= cs@.len(),
    ensures
        from <= r <= cs@.len(),
        r - from == until(cs@.skip(from as int), c),
        r < cs@.len() ==> cs@[r as int] == c,
{
    let mut i: usize = from;
    while i < cs.len() && cs[i] != c
        invariant
            from <= i <= cs@.len(),
            until(cs@.skip(from as int), c) == (i - from) + until(cs@.skip(i as int), c),
        decreases cs@.len() - i,
    {
        assert(cs@.skip(i as int).skip(1) =~= cs@.skip(i + 1));
        i += 1;
    }
    i
}

// ------------------------------------------------------------------ splitting

/// The views of a vector of character vectors.
pub open spec fn views(v: Seq<Vec<char>>) -> Seq<Seq<char>> {
    Seq::new(v.len(), |i: int| v[i]@)
}

/// The views of a vector of strings.
pub open spec fn string_views(v: Seq<String>) -> Seq<Seq<char>> {
    Seq::new(v.len(), |i: int| v[i]@)
}

/// A line without the carriage return that may precede its line feed.
pub open spec fn strip_cr(s: Seq<char>) -> Seq<char> {
    if s.len() > 0 && s.last() == '\r' {
        s.drop_last()
    } else {
        s
    }
}

/// The lines of `s`: each ends at a line feed, which with a preceding carriage
/// return is not part of it; a final line without a line feed counts when it
/// is not empty.
pub open spec fn lines(s: Seq<char>) -> Seq<Seq<char>>
    decreases s.len(),
    via lines_decreases
{
    if s.len() == 0 {
        Seq::empty()
    } else {
        let n = until(s, '\n');
        if n == s.len() {
            seq![s]
        } else {
            seq![strip_cr(s.take(n))] + lines(s.skip(n + 1))
        }
    }
}

#[via_fn]
proof fn lines_decreases(s: Seq<char>) {
    lemma_until(s, '\n');
}

/// The lines of a text that ends with a line feed stay what they are when more
/// follows.
pub proof fn lemma_lines_concat(a: Seq<char>, b: Seq<char>)
    requires
        a.len() == 0 || a.last() == '\n',
    ensures
        lines(a + b) == lines(a) + lines(b),
    decreases a.len(),
{
    if a.len() == 0 {
        assert(a + b =~= b);
        assert(lines(a) + lines(b) =~= lines(b));
    } else {
        let n = until(a, '\n');
        lemma_until(a, '\n');
        lemma_until(a + b, '\n');
        let m = until(a + b, '\n');
        assert(n < a.len()) by {
            assert(a[a.len() - 1] == '\n');
        }
        assert((a + b)[n] == '\n');
        assert(m == n) by {
            if m < n {
                assert((a + b)[m] == a[m]);
            }
        }
        let rest = a.skip(n + 1);
        assert((a + b).take(n) =~= a.take(n));
        assert((a + b).skip(n + 1) =~= rest + b);
        assert(rest.len() > 0 ==> rest.last() == a.last());
        lemma_lines_concat(rest, b);
        let first = seq![strip_cr(a.take(n))];
        assert(first + (lines(rest) + lines(b)) =~= first + lines(rest) + lines(b));
    }
}

pub fn split_lines(cs: &[char]) -> (r: Vec<Vec<char>>)
    ensures
        views(r@) == lines(cs@),
{
    let mut r: Vec<Vec<char>> = Vec::new();
    let mut i: usize = 0;
    assert(cs@.skip(0) =~= cs@);
    assert(views(r@) + lines(cs@) =~= lines(cs@));
    while i < cs.len()
        invariant
            i <= cs@.len(),
            views(r@) + lines(cs@.skip(i as int)) == lines(cs@),
        decreases cs@.len() - i,
    {
        let ghost rest = cs@.skip(i as int);
        let n: usize = index_until(cs, '\n', i);
        let ghost before = views(r@);
        if n == cs.len() {
            let line = sub_chars(cs, i, n);
            assert(line@ =~= rest);
            r.push(line);
            assert(views(r@) =~= before.push(rest));
            assert(before.push(rest) =~= before + seq![rest]);
            i = n;
            assert(lines(cs@.skip(i as int)) =~= Seq::empty());
            assert(views(r@) + lines(cs@.skip(i as int)) =~= views(r@));
        } else {
            let end: usize = if n > i && cs[n - 1] == '\r' {
                n - 1
            } else {
                n
            };
            let line = sub_chars(cs, i, end);
            assert(rest.take(n - i) =~= cs@.subrange(i as int, n as int));
            assert(line@ =~= strip_cr(rest.take(n - i)));
            r.push(line);
            assert(views(r@) =~= before.push(line@));
            assert(rest.skip(n - i + 1) =~= cs@.skip(n + 1));
            assert(before.push(line@) + lines(cs@.skip(n + 1)) =~= before + (seq![line@] + lines(
                cs@.skip(n + 1),
            )));
            i = n + 1;
        }
    }
    assert(cs@.skip(i as int) =~= Seq::empty());
    assert(views(r@) + lines(cs@.skip(i as int)) =~= views(r@));
    r
}

/// The pieces of `s` between the occurrences of `c`.
pub open spec fn split_on(s: Seq<char>, c: char) -> Seq<Seq<char>>
    decreases s.len(),
    via split_on_decreases
{
    let n = until(s, c);
    if n >= s.len() {
        seq![s]
    } else {
        seq![s.take(n)] + split_on(s.skip(n + 1), c)
    }
}

#[via_fn]
proof fn split_on_decreases(s: Seq<char>, c: char) {
    lemma_until(s, c);
}

pub fn split_chars(cs: &[char], c: char) -> (r: Vec<Vec<char>>)
    ensures
        views(r@) == split_on(cs@, c),
        r@.len() > 0,
{
    let mut r: Vec<Vec<char>> = Vec::new();
    let mut i: usize = 0;
    assert(cs@.skip(0) =~= cs@);
    assert(views(r@) + split_on(cs@, c) =~= split_on(cs@, c));
    loop
        invariant
            i <= cs@.len(),
            views(r@) + split_on(cs@.skip(i as int), c) == split_on(cs@, c),
        decreases cs@.len() - i,
    {
        let ghost rest = cs@.skip(i as int);
        let ghost before = views(r@);
        let n: usize = index_until(cs, c, i);
        let piece = sub_chars(cs, i, n);
        assert(piece@ =~= rest.take(n - i));
        r.push(piece);
        assert(views(r@) =~= before.push(piece@));
        if n == cs.len() {
            assert(piece@ =~= rest);
            assert(before.push(rest) =~= before + seq![rest]);
            return r;
        }
        assert(rest.skip(n - i + 1) =~= cs@.skip(n + 1));
        assert(before.push(piece@) + split_on(cs@.skip(n + 1), c) =~= before + (seq![piece@]
            + split_on(cs@.skip(n + 1), c)));
        i = n + 1;
    }
}

/// The length of the leading run of characters that are not whitespace.
pub open spec fn word_len(s: Seq<char>) -> int
    decreases s.len(),
{
    if s.len() == 0 || text::whitespace(s[0]) {
        0
    } else {
        1 + word_len(s.skip(1))
    }
}

pub proof fn lemma_word_len(s: Seq<char>)
    ensures
        0 <= word_len(s) <= s.len(),
    decreases s.len(),
{
    if s.len() > 0 && !text::whitespace(s[0]) {
        lemma_word_len(s.skip(1));
    }
}

/// The maximal runs of characters that are not whitespace.
pub open spec fn words(s: Seq<char>) -> Seq<Seq<char>>
    decreases s.len(),
    via words_decreases
{
    let t = trim_start(s);
    if t.len() == 0 {
        Seq::empty()
    } else {
        seq![t.take(word_len(t))] + words(t.skip(word_len(t)))
    }
}

#[via_fn]
proof fn words_decreases(s: Seq<char>) {
    lemma_trim_start_len(s);
    let t = trim_start(s);
    lemma_word_len(t);
    lemma_word_len(t.skip(1));
}

pub fn split_words(cs: &[char]) -> (r: Vec<Vec<char>>)
    ensures
        views(r@) == words(cs@),
{
    let mut r: Vec<Vec<char>> = Vec::new();
    let mut i: usize = 0;
    assert(cs@.skip(0) =~= cs@);
    assert(views(r@) + words(cs@) =~= words(cs@));
    loop
        invariant
            i <= cs@.len(),
            views(r@) + words(cs@.skip(i as int)) == words(cs@),
        decreases cs@.len() - i,
    {
        let ghost before = views(r@);
        let start: usize = skip_whitespace(cs, i);
        let ghost t = cs@.skip(start as int);
        if start == cs.len() {
            assert(t =~= Seq::empty());
            assert(before + Seq::<Seq<char>>::empty() =~= before);
            return r;
        }
        proof {
            lemma_trim_start_len(cs@.skip(i as int));
            assert(t.len() > 0);
            assert(!text::whitespace(cs@[start as int]));
        }
        let mut end: usize = start;
        while end < cs.len() && !is_whitespace(cs[end])
            invariant
                start <= end <= cs@.len(),
                start < cs@.len(),
                !text::whitespace(cs@[start as int]),
                t == cs@.skip(start as int),
                word_len(t) == (end - start) + word_len(cs@.skip(end as int)),
            ensures
                start < end <= cs@.len(),
                word_len(t) == end - start,
            decreases cs@.len() - end,
        {
            assert(cs@.skip(end as int).skip(1) =~= cs@.skip(end + 1));
            end += 1;
        }
        let word = sub_chars(cs, start, end);
        assert(word@ =~= t.take(word_len(t)));
        r.push(word);
        assert(views(r@) =~= before.push(word@));
        assert(t.skip(word_len(t)) =~= cs@.skip(end as int));
        assert(before.push(word@) + words(cs@.skip(end as int)) =~= before + (seq![word@] + words(
            cs@.skip(end as int),
        )));
        i = end;
    }
}

/// `parts` with `sep` between neighbours.
pub open spec fn join(parts: Seq<Seq<char>>, sep: Seq<char>) -> Seq<char>
    decreases parts.len(),
{
    if parts.len() == 0 {
        Seq::empty()
    } else if parts.len() == 1 {
        parts[0]
    } else {
        join(parts.drop_last(), sep) + sep + parts.last()
    }
}

pub fn join_chars(parts: &[Vec<char>], sep: &str) -> (r: String)
    ensures
        r@ == join(views(parts@), sep@),
{
    let mut r: String = String::new();
    let mut i: usize = 0;
    while i < parts.len()
        invariant
            i <= parts@.len(),
            r@ == join(views(parts@).take(i as int), sep@),
        decreases parts@.len() - i,
    {
        let part = to_text(&parts[i]);
        if i > 0 {
            r.append(sep);
        }
        r.append(&part);
        assert(views(parts@).take(i + 1).drop_last() =~= views(parts@).take(i as int));
        i += 1;
    }
    assert(views(parts@).take(i as int) =~= views(parts@));
    r
}

// -------------------------------------------------------------------- numbers

pub open spec fn digit_char(d: int) -> char {
    (('0' as int) + d) as char
}

/// The decimal notation of `n`.
pub open spec fn decimal(n: nat) -> Seq<char>
    decreases n,
{
    if n < 10 {
        seq![digit_char(n as int)]
    } else {
        decimal(n / 10).push(digit_char((n % 10) as int))
    }
}

fn to_digit_char(d: u64) -> (r: char)
    requires
        d < 10,
    ensures
        r == digit_char(d as int),
{
    if d == 0 {
        '0'
    } else if d == 1 {
        '1'
    } else if d == 2 {
        '2'
    } else if d == 3 {
        '3'
    } else if d == 4 {
        '4'
    } else if d == 5 {
        '5'
    } else if d == 6 {
        '6'
    } else if d == 7 {
        '7'
    } else if d == 8 {
        '8'
    } else {
        '9'
    }
}

/// The decimal notation of `n`.
pub fn number(n: u64) -> (r: String)
    ensures
        r@ == decimal(n as nat),
    decreases n,
{
    let mut r = if n < 10 {
        String::new()
    } else {
        number(n / 10)
    };
    r.push(to_digit_char(n % 10));
    assert(n < 10 ==> r@ =~= decimal(n as nat));
    r
}

/// The value that a sequence of decimal digits denotes.
pub open spec fn digits_value(s: Seq<char>) -> nat
    decreases s.len(),
{
    if s.len() == 0 {
        0
    } else {
        (digits_value(s.drop_last()) * 10 + (s.last() as int - '0' as int)) as nat
    }
}

pub open spec fn all_digits(s: Seq<char>) -> bool {
    forall|i: int| 0 <= i < s.len() ==> text::ascii_digit(#[trigger] s[i])
}

/// An unsigned number as text: decimal digits after an optional plus sign, of
/// a value no larger than `max`.
pub open spec fn parse_number(s: Seq<char>, max: nat) -> Option<nat> {
    let digits = if s.len() > 0 && s[0] == '+' {
        s.skip(1)
    } else {
        s
    };
    if digits.len() == 0 || !all_digits(digits) || digits_value(digits) > max {
        None
    } else {
        Some(digits_value(digits))
    }
}

proof fn lemma_digits_value_monotone(s: Seq<char>, i: int)
    requires
        0 <= i <= s.len(),
        all_digits(s),
    ensures
        digits_value(s.take(i)) <= digits_value(s),
    decreases s.len() - i,
{
    if i < s.len() {
        lemma_digits_value_monotone(s, i + 1);
        assert(s.take(i + 1).drop_last() =~= s.take(i));
        assert(text::ascii_digit(s[i]));
    } else {
        assert(s.take(i) =~= s);
    }
}

fn digit_value(c: char) -> (r: Option<usize>)
    ensures
        match r {
            Some(d) => text::ascii_digit(c) && d == c as int - '0' as int && d < 10,
            None => !text::ascii_digit(c),
        },
{
    if c >= '0' && c <= '9' {
        Some((c as u32 - '0' as u32) as usize)
    } else {
        None
    }
}

/// Reads an unsigned machine number.
pub fn parse_usize(cs: &[char]) -> (r: Option<usize>)
    ensures
        match r {
            Some(n) => parse_number(cs@, usize::MAX as nat) == Some(n as nat),
            None => parse_number(cs@, usize::MAX as nat) is None,
        },
{
    let start: usize = if cs.len() > 0 && cs[0] == '+' {
        1
    } else {
        0
    };
    let ghost digits = cs@.skip(start as int);
    assert(start == 0 ==> digits =~= cs@);
    if start == cs.len() {
        return None;
    }
    let mut value: usize = 0;
    let mut i: usize = start;
    while i < cs.len()
        invariant
            start <= i <= cs@.len(),
            digits == cs@.skip(start as int),
            all_digits(digits.take(i - start)),
            value == digits_value(digits.take(i - start)),
            parse_number(cs@, usize::MAX as nat) == (if digits.len() == 0 || !all_digits(digits)
                || digits_value(digits) > usize::MAX {
                None::<nat>
            } else {
                Some(digits_value(digits))
            }),
        decreases cs@.len() - i,
    {
        assert(digits[i - start] == cs@[i as int]);
        assert(digits.take(i - start + 1).drop_last() =~= digits.take(i - start));
        match digit_value(cs[i]) {
            None => {
                assert(!all_digits(digits));
                return None;
            },
            Some(d) => {
                assert(all_digits(digits.take(i - start + 1))) by {
                    assert forall|k: int| 0 <= k < i - start + 1 implies text::ascii_digit(
                        #[trigger] digits.take(i - start + 1)[k],
                    ) by {
                        if k < i - start {
                            assert(digits.take(i - start)[k] == digits[k]);
                        }
                    }
                }
                if value > usize::MAX / 10 || value * 10 > usize::MAX - d {
                    proof {
                        if all_digits(digits) {
                            lemma_digits_value_monotone(digits, i - start + 1);
                        }
                    }
                    return None;
                }
                value = value * 10 + d;
            },
        }
        i += 1;
    }
    assert(digits.take(i - start) =~= digits);
    Some(value)
}

/// Reading back the decimal notation of a number gives the number.
pub proof fn law_number_round_trips(n: nat, max: nat)
    requires
        n <= max,
    ensures
        parse_number(decimal(n), max) == Some(n),
{
    lemma_decimal(n);
    let s = decimal(n);
    assert(text::ascii_digit(s[0]));
}

pub proof fn lemma_decimal(n: nat)
    ensures
        all_digits(decimal(n)),
        digits_value(decimal(n)) == n,
        decimal(n).len() > 0,
    decreases n,
{
    let s = decimal(n);
    if n >= 10 {
        lemma_decimal(n / 10);
        assert(s.drop_last() =~= decimal(n / 10));
        assert(text::ascii_digit(digit_char((n % 10) as int)));
        assert forall|i: int| 0 <= i < s.len() implies text::ascii_digit(#[trigger] s[i]) by {
            if i < s.len() - 1 {
                assert(s[i] == decimal(n / 10)[i]);
            }
        }
    } else {
        assert(s.drop_last() =~= Seq::<char>::empty());
        assert(digits_value(Seq::<char>::empty()) == 0);
    }
}

} // verus!
