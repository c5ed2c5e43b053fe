//! Text edits that a language server lists are applied where it saw them.

use vstd::prelude::*;

use crate::buffer;
use crate::error::EditorError;
use crate::lsp::TextEdit;
use crate::order;
use crate::order::Ranked as _;
use crate::protocol;
use crate::rope;
use crate::runtime::rename;

verus! {

/// Where an edit starts and ends in a text that it fits.
pub open spec fn spot(s: Seq<char>, e: TextEdit) -> (int, int) {
    (
        protocol::lsp_position(s, e.range.start.line as int, e.range.start.character as int)->Ok_0,
        protocol::lsp_position(s, e.range.end.line as int, e.range.end.character as int)->Ok_0,
    )
}

/// The range of an edit lies in a text. It starts on the line that it names, for the
/// end of a line and the start of the next can be one place, and not right behind a
/// carriage return, where a line feed that is put in would change the lines before.
pub open spec fn fits(s: Seq<char>, e: TextEdit) -> bool {
    let a = protocol::lsp_position(s, e.range.start.line as int, e.range.start.character as int);
    let z = protocol::lsp_position(s, e.range.end.line as int, e.range.end.character as int);
    &&& a is Ok && z is Ok
    &&& a->Ok_0 <= z->Ok_0
    &&& rope::line_of(s, a->Ok_0) == e.range.start.line
    &&& a->Ok_0 > 0 ==> s[a->Ok_0 - 1] != '\r'
}

/// Two edits touch different parts of a text.
pub open spec fn apart(s: Seq<char>, a: TextEdit, b: TextEdit) -> bool {
    spot(s, a).1 <= spot(s, b).0 || spot(s, b).1 <= spot(s, a).0
}

/// Each edit lies before the ones listed before it.
pub open spec fn end_to_start(s: Seq<char>, es: Seq<TextEdit>) -> bool {
    forall|i: int, j: int|
        0 <= i < j < es.len() ==> spot(s, #[trigger] es[j]).1 <= spot(s, #[trigger] es[i]).0
}

/// What stands from the start of the `n`th edit on, once the first `n` are made: their
/// texts, and between them what no edit touches.
pub open spec fn behind(s: Seq<char>, es: Seq<TextEdit>, n: int) -> Seq<char>
    decreases n,
{
    if n <= 0 {
        Seq::empty()
    } else {
        es[n - 1].new_text@ + s.subrange(
            spot(s, es[n - 1]).1,
            if n == 1 {
                s.len() as int
            } else {
                spot(s, es[n - 2]).0
            },
        ) + behind(s, es, n - 1)
    }
}

/// The text with the ranges of the first `n` edits, as they lie in `s`, replaced all
/// at once.
pub open spec fn all_at_once(s: Seq<char>, es: Seq<TextEdit>, n: int) -> Seq<char> {
    if n <= 0 {
        s
    } else {
        s.take(spot(s, es[n - 1]).0) + behind(s, es, n)
    }
}

/// Two texts that agree up to `p`, and have no carriage return there, have the same
/// lines up to `p`.
pub proof fn lemma_lines_before(s: Seq<char>, t: Seq<char>, p: int, i: int)
    requires
        0 <= i <= p <= s.len(),
        p <= t.len(),
        forall|j: int| 0 <= j < p ==> s[j] == t[j],
        p > 0 ==> s[p - 1] != '\r',
    ensures
        rope::line_of(s, i) == rope::line_of(t, i),
    decreases i,
{
    if i > 0 {
        lemma_lines_before(s, t, p, i - 1);
        assert(rope::starts_line(s, i) == rope::starts_line(t, i));
    }
}

/// A line that starts by `p` starts at the same position in both texts.
proof fn lemma_line_start_before(s: Seq<char>, t: Seq<char>, p: int, line: int)
    requires
        p <= s.len(),
        p <= t.len(),
        forall|j: int| 0 <= j < p ==> s[j] == t[j],
        p > 0 ==> s[p - 1] != '\r',
        0 <= line < rope::line_count(s),
        rope::line_start(s, line) <= p,
    ensures
        line < rope::line_count(t),
        rope::line_start(t, line) == rope::line_start(s, line),
{
    rope::lemma_line_start(s, line);
    rope::lemma_line_start(t, line);
    let q = rope::line_start(s, line);
    lemma_lines_before(s, t, p, q);
    rope::lemma_line_of_monotone(t, q, t.len() as int);
    let r = rope::line_start(t, line);
    if r < q {
        lemma_lines_before(s, t, p, r);
    }
}

/// A position up to `p` is the same in both texts.
proof fn lemma_position_before(
    s: Seq<char>,
    t: Seq<char>,
    p: int,
    line: int,
    character: int,
)
    requires
        p <= s.len(),
        p <= t.len(),
        forall|j: int| 0 <= j < p ==> s[j] == t[j],
        p > 0 ==> s[p - 1] != '\r',
        0 <= line,
        0 <= character,
        protocol::lsp_position(s, line, character) is Ok,
        protocol::lsp_position(s, line, character)->Ok_0 <= p,
    ensures
        protocol::lsp_position(t, line, character) == protocol::lsp_position(s, line, character),
{
    let q = rope::line_start(s, line);
    rope::lemma_line_start(s, line);
    rope::lemma_line_start(s, line + 1);
    rope::lemma_line_start(t, line + 1);
    lemma_line_start_before(s, t, p, line);
    let next = rope::line_start(t, line + 1);
    rope::lemma_line_start_monotone(t, line, line + 1);
    rope::lemma_line_start_monotone(s, line, line + 1);
    if next <= p {
        if line + 1 < rope::line_count(t) {
            assert(forall|j: int| 0 <= j < p ==> t[j] == s[j]);
            lemma_line_start_before(t, s, p, line + 1);
            assert(rope::line_text(s, line) =~= rope::line_text(t, line));
        } else {
            assert(next == t.len() && p == t.len());
            lemma_lines_before(s, t, p, p);
            if q < p && t[p - 1] == '\n' {
                assert(rope::starts_line(t, p));
                lemma_lines_before(s, t, p, q);
                rope::lemma_line_of_monotone(t, q, p - 1);
            }
        }
    }
}

/// A later place in a text, by line and character, is not before an earlier one.
proof fn lemma_positions_follow(s: Seq<char>, l: int, c: int, m: int, d: int)
    requires
        0 <= l,
        0 <= m,
        0 <= c,
        0 <= d,
        protocol::lsp_position(s, l, c) is Ok,
        protocol::lsp_position(s, m, d) is Ok,
        l < m || (l == m && c <= d),
    ensures
        0 <= protocol::lsp_position(s, l, c)->Ok_0 <= protocol::lsp_position(s, m, d)->Ok_0
            <= s.len(),
{
    rope::lemma_line_start(s, l);
    rope::lemma_line_start(s, m);
    rope::lemma_line_start(s, l + 1);
    rope::lemma_line_start(s, m + 1);
    rope::lemma_line_start_monotone(s, l, l + 1);
    rope::lemma_line_start_monotone(s, m, m + 1);
    if l < m {
        rope::lemma_line_start_monotone(s, l + 1, m);
    }
}

pub proof fn lemma_spot_within(s: Seq<char>, e: TextEdit)
    requires
        fits(s, e),
    ensures
        0 <= spot(s, e).0 <= spot(s, e).1 <= s.len(),
{
    let (a, z) = (e.range.start, e.range.end);
    lemma_positions_follow(
        s,
        a.line as int,
        a.character as int,
        a.line as int,
        a.character as int,
    );
    lemma_positions_follow(
        s,
        z.line as int,
        z.character as int,
        z.line as int,
        z.character as int,
    );
}

proof fn lemma_one_edit(b: buffer::BufferModel, e: TextEdit, a: int, z: int)
    requires
        protocol::lsp_position(b.text, e.range.start.line as int, e.range.start.character as int)
            == Ok::<int, EditorError>(a),
        protocol::lsp_position(b.text, e.range.end.line as int, e.range.end.character as int)
            == Ok::<int, EditorError>(z),
        0 <= a <= z <= b.text.len(),
    ensures
        protocol::after_text_edit(b, e) is Ok,
        protocol::after_text_edit(b, e)->Ok_0.text == b.text.take(a) + e.new_text@ + b.text.skip(z),
{
    let cut = buffer::after_delete(b, a, z);
    assert(cut.text =~= b.text.take(a) + b.text.skip(z));
    assert(cut.text.take(a) =~= b.text.take(a));
    assert(cut.text.skip(a) =~= b.text.skip(z));
    if e.new_text@.len() == 0 {
        assert(b.text.take(a) + e.new_text@ + b.text.skip(z) =~= cut.text);
    }
}

/// How much of a text the first `n` edits leave alone.
spec fn untouched(s: Seq<char>, es: Seq<TextEdit>, n: int) -> int {
    if n <= 0 {
        s.len() as int
    } else {
        spot(s, es[n - 1]).0
    }
}

/// The places of the next edit are the same before and after the edits behind it.
proof fn lemma_spots_kept(s: Seq<char>, es: Seq<TextEdit>, n: int)
    requires
        0 < n <= es.len(),
        forall|i: int| 0 <= i < es.len() ==> fits(s, #[trigger] es[i]),
        end_to_start(s, es),
    ensures
        ({
            let t = all_at_once(s, es, n - 1);
            let e = es[n - 1];
            let (a, z) = spot(s, e);
            &&& 0 <= a <= z <= untouched(s, es, n - 1) <= s.len()
            &&& t == s.take(untouched(s, es, n - 1)) + behind(s, es, n - 1)
            &&& protocol::lsp_position(
                t,
                e.range.start.line as int,
                e.range.start.character as int,
            ) == Ok::<int, EditorError>(a)
            &&& protocol::lsp_position(t, e.range.end.line as int, e.range.end.character as int)
                == Ok::<int, EditorError>(z)
        }),
{
    let t = all_at_once(s, es, n - 1);
    let e = es[n - 1];
    let p = untouched(s, es, n - 1);
    assert(fits(s, e));
    lemma_spot_within(s, e);
    if n == 1 {
        assert(t =~= s.take(p) + behind(s, es, n - 1));
    } else {
        assert(fits(s, es[n - 2]));
        lemma_spot_within(s, es[n - 2]);
        assert(forall|j: int| 0 <= j < p ==> s[j] == t[j]);
        let (x, y) = (e.range.start, e.range.end);
        lemma_position_before(s, t, p, x.line as int, x.character as int);
        lemma_position_before(s, t, p, y.line as int, y.character as int);
    }
}

/// The text after one more edit.
proof fn lemma_text_step(s: Seq<char>, es: Seq<TextEdit>, n: int)
    requires
        0 < n,
        ({
            let (a, z) = spot(s, es[n - 1]);
            0 <= a <= z <= untouched(s, es, n - 1) <= s.len()
        }),
        all_at_once(s, es, n - 1) == s.take(untouched(s, es, n - 1)) + behind(s, es, n - 1),
    ensures
        ({
            let t = all_at_once(s, es, n - 1);
            let (a, z) = spot(s, es[n - 1]);
            t.take(a) + es[n - 1].new_text@ + t.skip(z) == all_at_once(s, es, n)
        }),
{
    let t = all_at_once(s, es, n - 1);
    let (a, z) = spot(s, es[n - 1]);
    let p = untouched(s, es, n - 1);
    let rest = behind(s, es, n - 1);
    let put = es[n - 1].new_text@;
    assert(t.take(a) =~= s.take(a));
    assert(t.skip(z) =~= s.subrange(z, p) + rest);
    assert(behind(s, es, n) == put + s.subrange(z, p) + rest);
    assert(s.take(a) + put + (s.subrange(z, p) + rest) =~= s.take(a) + (put + s.subrange(z, p)
        + rest));
}

/// Edits that are listed from the end of a text to its start replace the ranges that
/// they name in that text: each leaves the places of those after it valid.
pub proof fn law_edits_land_where_they_were_seen(
    b: buffer::BufferModel,
    es: Seq<TextEdit>,
    n: int,
)
    requires
        0 <= n <= es.len(),
        forall|i: int| 0 <= i < es.len() ==> fits(b.text, #[trigger] es[i]),
        end_to_start(b.text, es),
    ensures
        protocol::after_text_edits(b, es, n).1 is None,
        protocol::after_text_edits(b, es, n).0.text == all_at_once(b.text, es, n),
    decreases n,
{
    if n > 0 {
        law_edits_land_where_they_were_seen(b, es, n - 1);
        let s = b.text;
        let before = protocol::after_text_edits(b, es, n - 1).0;
        let (a, z) = spot(s, es[n - 1]);
        lemma_spots_kept(s, es, n);
        lemma_one_edit(before, es[n - 1], a, z);
        lemma_text_step(s, es, n);
    }
}

pub proof fn lemma_edits_ordered(s: Seq<char>, x: TextEdit, y: TextEdit)
    requires
        fits(s, x),
        fits(s, y),
        apart(s, x, y),
        rename::not_before(x, y),
    ensures
        spot(s, y).1 <= spot(s, x).0,
{
    let (p, q) = (x.range.start, y.range.start);
    lemma_positions_follow(
        s,
        q.line as int,
        q.character as int,
        p.line as int,
        p.character as int,
    );
    if spot(s, x).0 == spot(s, y).0 {
        let (v, w) = (x.range.end, y.range.end);
        lemma_positions_follow(
            s,
            w.line as int,
            w.character as int,
            v.line as int,
            v.character as int,
        );
    }
}

/// Edits that touch different parts of a text, in whatever order a server lists them,
/// replace the ranges that they name in that text once they are sorted.
pub proof fn law_sorted_edits_replace_what_was_seen(b: buffer::BufferModel, es: Seq<TextEdit>)
    requires
        forall|i: int| 0 <= i < es.len() ==> fits(b.text, #[trigger] es[i]),
        forall|i: int, j: int|
            0 <= i < es.len() && 0 <= j < es.len() && i != j ==> apart(
                b.text,
                #[trigger] es[i],
                #[trigger] es[j],
            ),
    ensures
        ({
            let sorted = order::stable_sorted(es);
            &&& sorted.to_multiset() == es.to_multiset()
            &&& protocol::after_text_edits(b, sorted, es.len() as int).1 is None
            &&& protocol::after_text_edits(b, sorted, es.len() as int).0.text == all_at_once(
                b.text,
                sorted,
                es.len() as int,
            )
        }),
{
    let s = b.text;
    let sorted = order::stable_sorted(es);
    order::law_sorting(es);
    let p = |e: TextEdit| fits(s, e);
    let r = |x: TextEdit, y: TextEdit| apart(s, x, y);
    order::lemma_sorted_keeps(es, p, r);
    assert forall|i: int| 0 <= i < sorted.len() implies fits(s, #[trigger] sorted[i]) by {
        assert(p(sorted[i]));
    }
    assert forall|i: int, j: int| 0 <= i < j < sorted.len() implies spot(
        s,
        #[trigger] sorted[j],
    ).1 <= spot(s, #[trigger] sorted[i]).0 by {
        assert(p(sorted[i]) && p(sorted[j]) && r(sorted[i], sorted[j]));
        assert(sorted[i].rank_le(sorted[j]));
        lemma_edits_ordered(s, sorted[i], sorted[j]);
    }
    law_edits_land_where_they_were_seen(b, sorted, sorted.len() as int);
}

} // verus!
