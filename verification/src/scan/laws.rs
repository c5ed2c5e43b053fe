//! What trimming, searching, splitting and joining do to a text.

use vstd::prelude::*;

use crate::scan;
use crate::text;

verus! {

/// Nothing but whitespace.
pub open spec fn only_whitespace(s: Seq<char>) -> bool {
    forall|i: int| 0 <= i < s.len() ==> text::whitespace(#[trigger] s[i])
}

/// Trimming takes away whitespace at either end and nothing else, and leaves none there.
pub proof fn law_trimming(before: Seq<char>, s: Seq<char>, after: Seq<char>)
    requires
        only_whitespace(before),
        only_whitespace(after),
        s.len() > 0 ==> !text::whitespace(s[0]) && !text::whitespace(s.last()),
    ensures
        scan::trim(before + s + after) == s,
{
    lemma_trim_start(before, s + after);
    assert(before + s + after =~= before + (s + after));
    if s.len() == 0 {
        lemma_trim_start(after, Seq::empty());
        assert(s + after =~= after + Seq::<char>::empty());
        assert(scan::trim_start(Seq::<char>::empty()) =~= Seq::<char>::empty());
    } else {
        assert((s + after)[0] == s[0]);
        lemma_trim_end(s, after);
    }
}

pub proof fn lemma_trim_start(before: Seq<char>, s: Seq<char>)
    requires
        only_whitespace(before),
    ensures
        scan::trim_start(before + s) == scan::trim_start(s),
    decreases before.len(),
{
    if before.len() == 0 {
        assert(before + s =~= s);
    } else {
        let rest = before.skip(1);
        assert forall|i: int| 0 <= i < rest.len() implies text::whitespace(#[trigger] rest[i]) by {
            assert(rest[i] == before[i + 1]);
        }
        lemma_trim_start(rest, s);
        assert(text::whitespace(before[0]));
        assert((before + s)[0] == before[0]);
        assert((before + s).skip(1) =~= rest + s);
    }
}

pub proof fn lemma_trim_end(s: Seq<char>, after: Seq<char>)
    requires
        only_whitespace(after),
        s.len() > 0,
        !text::whitespace(s.last()),
    ensures
        scan::trim_end(s + after) == s,
    decreases after.len(),
{
    if after.len() == 0 {
        assert(s + after =~= s);
    } else {
        let rest = after.drop_last();
        assert forall|i: int| 0 <= i < rest.len() implies text::whitespace(#[trigger] rest[i]) by {
            assert(rest[i] == after[i]);
        }
        lemma_trim_end(s, rest);
        assert(text::whitespace(after[after.len() - 1]));
        assert((s + after).last() == after.last());
        assert((s + after).drop_last() =~= s + rest);
    }
}

/// The first occurrence of a text is one, and none comes before it; a text that is
/// found nowhere occurs nowhere.
pub proof fn law_finding(s: Seq<char>, pat: Seq<char>, from: int)
    requires
        0 <= from,
    ensures
        match scan::find_from(s, pat, from) {
            Some(k) => {
                &&& from <= k <= s.len() - pat.len()
                &&& s.subrange(k, k + pat.len()) == pat
                &&& forall|j: int|
                    from <= j < k ==> #[trigger] s.subrange(j, j + pat.len()) != pat
            },
            None => forall|j: int|
                from <= j <= s.len() - pat.len() ==> #[trigger] s.subrange(j, j + pat.len()) != pat,
        },
{
    scan::lemma_find_from(s, pat, from);
    match scan::find_from(s, pat, from) {
        Some(k) => {
            assert(scan::occurs_at(s, pat, k));
            assert forall|j: int| from <= j < k implies #[trigger] s.subrange(j, j + pat.len())
                != pat by {
                assert(!scan::occurs_at(s, pat, j));
            }
        },
        None => {
            assert forall|j: int| from <= j <= s.len() - pat.len() implies #[trigger] s.subrange(
                j,
                j + pat.len(),
            ) != pat by {
                assert(!scan::occurs_at(s, pat, j));
            }
        },
    }
}

/// A text holds no `c`.
pub open spec fn lacks(s: Seq<char>, c: char) -> bool {
    forall|i: int| 0 <= i < s.len() ==> #[trigger] s[i] != c
}

pub proof fn lemma_until_at(s: Seq<char>, c: char, rest: Seq<char>)
    requires
        lacks(s, c),
    ensures
        scan::until(s + seq![c] + rest, c) == s.len(),
        scan::until(s, c) == s.len(),
{
    let all = s + seq![c] + rest;
    scan::lemma_until(all, c);
    scan::lemma_until(s, c);
    let n = scan::until(all, c);
    assert(all[s.len() as int] == c);
    if n < s.len() {
        assert(all[n] == s[n]);
    }
}

/// The lines of a text are what stands between its line feeds, each without a carriage
/// return before the line feed. A last line without a line feed counts unless it is
/// empty.
pub proof fn law_lines(line: Seq<char>, rest: Seq<char>)
    requires
        lacks(line, '\n'),
    ensures
        line.len() == 0 || line.last() != '\r' ==> scan::lines(line + seq!['\n'] + rest)
            == seq![line] + scan::lines(rest),
        scan::lines(line + seq!['\r'] + seq!['\n'] + rest) == seq![line] + scan::lines(rest),
        line.len() > 0 ==> scan::lines(line) == seq![line],
        scan::lines(Seq::empty()) == Seq::<Seq<char>>::empty(),
{
    lemma_until_at(line, '\n', rest);
    let all = line + seq!['\n'] + rest;
    assert(all.take(line.len() as int) =~= line);
    assert(all.skip(line.len() as int + 1) =~= rest);
    let ended = line + seq!['\r'];
    assert forall|i: int| 0 <= i < ended.len() implies #[trigger] ended[i] != '\n' by {
        if i < line.len() {
            assert(ended[i] == line[i]);
        }
    }
    lemma_until_at(ended, '\n', rest);
    let both = ended + seq!['\n'] + rest;
    assert(both.take(ended.len() as int) =~= ended);
    assert(both.skip(ended.len() as int + 1) =~= rest);
    assert(ended.drop_last() =~= line);
    assert(ended.last() == '\r');
}

/// Splitting undoes joining: the pieces between the separators, in their order.
pub proof fn law_splitting(piece: Seq<char>, c: char, rest: Seq<char>)
    requires
        lacks(piece, c),
    ensures
        scan::split_on(piece + seq![c] + rest, c) == seq![piece] + scan::split_on(rest, c),
        scan::split_on(piece, c) == seq![piece],
{
    lemma_until_at(piece, c, rest);
    let all = piece + seq![c] + rest;
    assert(all.take(piece.len() as int) =~= piece);
    assert(all.skip(piece.len() as int + 1) =~= rest);
}

/// The pieces of a text with the separator between them make up the text, and none of
/// them holds the separator.
pub proof fn law_joining_undoes_splitting(s: Seq<char>, c: char)
    ensures
        scan::join(scan::split_on(s, c), seq![c]) == s,
        forall|i: int|
            0 <= i < scan::split_on(s, c).len() ==> lacks(#[trigger] scan::split_on(s, c)[i], c),
    decreases s.len(),
{
    let n = scan::until(s, c);
    scan::lemma_until(s, c);
    let ps = scan::split_on(s, c);
    if n >= s.len() {
        assert(lacks(s, c));
        assert(ps =~= seq![s]);
    } else {
        let rest = s.skip(n + 1);
        law_joining_undoes_splitting(rest, c);
        let qs = scan::split_on(rest, c);
        assert(qs.len() > 0);
        law_joining(seq![s.take(n)], qs, seq![c]);
        assert(scan::join(seq![s.take(n)], seq![c]) == s.take(n));
        assert(s.take(n) + seq![c] + rest =~= s);
        assert forall|i: int| 0 <= i < ps.len() implies lacks(#[trigger] ps[i], c) by {
            if i == 0 {
                assert(ps[0] == s.take(n));
                assert forall|j: int| 0 <= j < n implies #[trigger] s.take(n)[j] != c by {
                    assert(s[j] != c);
                }
            } else {
                assert(ps[i] == qs[i - 1]);
            }
        }
    }
}

/// Parts are joined in their order, with the separator between neighbours and nowhere
/// else.
pub proof fn law_joining(a: Seq<Seq<char>>, b: Seq<Seq<char>>, sep: Seq<char>)
    ensures
        a.len() > 0 && b.len() > 0 ==> scan::join(a + b, sep) == scan::join(a, sep) + sep
            + scan::join(b, sep),
        a.len() == 1 ==> scan::join(a, sep) == a[0],
        a.len() == 0 ==> scan::join(a, sep) == Seq::<char>::empty(),
    decreases b.len(),
{
    if a.len() > 0 && b.len() > 0 {
        assert((a + b).drop_last() =~= a + b.drop_last());
        assert((a + b).last() == b.last());
        if b.len() == 1 {
            assert(a + b.drop_last() =~= a);
        } else {
            law_joining(a, b.drop_last(), sep);
            assert(scan::join(a, sep) + sep + scan::join(b.drop_last(), sep) + sep + b.last()
                =~= scan::join(a, sep) + sep + (scan::join(b.drop_last(), sep) + sep + b.last()));
        }
    }
}

/// The words of a text are its longest runs without whitespace, in their order.
pub proof fn law_words(before: Seq<char>, word: Seq<char>, rest: Seq<char>)
    requires
        only_whitespace(before),
        forall|i: int| 0 <= i < word.len() ==> !text::whitespace(#[trigger] word[i]),
        rest.len() > 0 ==> text::whitespace(rest[0]),
    ensures
        word.len() > 0 ==> scan::words(before + word + rest) == seq![word] + scan::words(rest),
        scan::words(before) == Seq::<Seq<char>>::empty(),
{
    lemma_trim_start(before, Seq::empty());
    assert(before + Seq::<char>::empty() =~= before);
    assert(scan::trim_start(Seq::<char>::empty()) =~= Seq::<char>::empty());
    if word.len() > 0 {
        lemma_trim_start(before, word + rest);
        assert(before + word + rest =~= before + (word + rest));
        let t = word + rest;
        assert(t[0] == word[0]);
        lemma_word(word, rest);
        assert(t.take(word.len() as int) =~= word);
        assert(t.skip(word.len() as int) =~= rest);
    }
}

proof fn lemma_word(word: Seq<char>, rest: Seq<char>)
    requires
        forall|i: int| 0 <= i < word.len() ==> !text::whitespace(#[trigger] word[i]),
        rest.len() > 0 ==> text::whitespace(rest[0]),
    ensures
        scan::word_len(word + rest) == word.len(),
    decreases word.len(),
{
    if word.len() == 0 {
        assert(word + rest =~= rest);
    } else {
        let tail = word.skip(1);
        assert forall|i: int| 0 <= i < tail.len() implies !text::whitespace(#[trigger] tail[i]) by {
            assert(tail[i] == word[i + 1]);
        }
        lemma_word(tail, rest);
        assert(!text::whitespace(word[0]));
        assert((word + rest)[0] == word[0]);
        assert((word + rest).skip(1) =~= tail + rest);
    }
}

/// A number is read exactly where there are digits and nothing else, after at most one
/// plus sign; each digit counts ten times what it would one place further on.
pub proof fn law_reading_numbers(s: Seq<char>, c: char, max: nat)
    ensures
        scan::parse_number(s, max) is Some ==> {
            &&& s.len() > 0
            &&& forall|i: int| 0 < i < s.len() ==> '0' <= #[trigger] s[i] <= '9'
            &&& '0' <= s[0] <= '9' || (s[0] == '+' && s.len() > 1)
            &&& scan::parse_number(s, max)->Some_0 <= max
        },
        '0' <= c <= '9' ==> scan::parse_number(seq![c], max) == (if c as int - '0' as int <= max {
            Some((c as int - '0' as int) as nat)
        } else {
            None::<nat>
        }),
        '0' <= c <= '9' && scan::parse_number(s, max) is Some ==> ({
            let n = (scan::parse_number(s, max)->Some_0 * 10 + (c as int - '0' as int)) as nat;
            scan::parse_number(s.push(c), max) == (if n <= max {
                Some(n)
            } else {
                None::<nat>
            })
        }),
{
    let digits = if s.len() > 0 && s[0] == '+' {
        s.skip(1)
    } else {
        s
    };
    if scan::parse_number(s, max) is Some {
        assert forall|i: int| 0 < i < s.len() implies '0' <= #[trigger] s[i] <= '9' by {
            if s[0] == '+' {
                assert(digits[i - 1] == s[i]);
            }
            assert(text::ascii_digit(s[i]));
        }
        assert(text::ascii_digit(digits[0]));
    }
    if '0' <= c <= '9' {
        let one = seq![c];
        assert(one.drop_last() =~= Seq::<char>::empty());
        assert(scan::digits_value(Seq::<char>::empty()) == 0);
        assert(scan::all_digits(one));
        assert(one.last() == c);
        if scan::parse_number(s, max) is Some {
            let more = s.push(c);
            let ds = if more[0] == '+' {
                more.skip(1)
            } else {
                more
            };
            assert(ds =~= digits.push(c));
            assert(ds.drop_last() =~= digits);
            assert forall|i: int| 0 <= i < ds.len() implies text::ascii_digit(#[trigger] ds[i]) by {
                if i < digits.len() {
                    assert(ds[i] == digits[i]);
                }
            }
        }
    }
}

} // verus!
