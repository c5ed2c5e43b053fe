//! What a hover text is taken to say.

use vstd::prelude::*;

use crate::hover;
use crate::scan;
use crate::scan::laws::{lacks, only_whitespace};
use crate::text;

verus! {

/// A line that opens or closes a block: three backticks, after whitespace at most.
pub open spec fn fenced(line: Seq<char>) -> bool {
    let s = scan::trim_start(line);
    s.len() >= 3 && s[0] == '`' && s[1] == '`' && s[2] == '`'
}

proof fn lemma_fenced(line: Seq<char>)
    ensures
        hover::fence(line) == fenced(line),
{
    reveal_strlit("```");
    let s = scan::trim_start(line);
    let p = "```"@;
    if s.len() >= 3 {
        let t = s.subrange(0, 3);
        assert(t[0] == s[0] && t[1] == s[1] && t[2] == s[2]);
        if fenced(line) {
            assert(t =~= p);
        }
    }
}

/// The lines from `a` up to `b`, each without the whitespace around it.
pub open spec fn trimmed(ls: Seq<Seq<char>>, a: int, b: int) -> Seq<Seq<char>> {
    Seq::new((b - a) as nat, |i: int| scan::trim(ls[a + i]))
}

proof fn lemma_outside(ls: Seq<Seq<char>>, a: int, n: int, before: Seq<Seq<char>>)
    requires
        0 <= a <= n <= ls.len(),
        hover::blocks_upto(ls, a) == (before, None::<Seq<char>>),
        forall|i: int| a <= i < n ==> !fenced(#[trigger] ls[i]),
    ensures
        hover::blocks_upto(ls, n) == (before, None::<Seq<char>>),
    decreases n - a,
{
    if n > a {
        lemma_outside(ls, a, n - 1, before);
        lemma_fenced(ls[n - 1]);
        assert(!fenced(ls[n - 1]));
    }
}

proof fn lemma_inside(ls: Seq<Seq<char>>, a: int, n: int, before: Seq<Seq<char>>)
    requires
        0 <= a < n <= ls.len(),
        hover::blocks_upto(ls, a) == (before, None::<Seq<char>>),
        fenced(ls[a]),
        forall|i: int| a < i < n ==> !fenced(#[trigger] ls[i]) && scan::trim(ls[i]).len() > 0,
    ensures
        hover::blocks_upto(ls, n) == (before, Some(scan::join(trimmed(ls, a + 1, n), " "@))),
        n > a + 1 ==> scan::join(trimmed(ls, a + 1, n), " "@).len() > 0,
    decreases n - a,
{
    lemma_fenced(ls[n - 1]);
    let now = trimmed(ls, a + 1, n);
    if n == a + 1 {
        assert(now =~= Seq::<Seq<char>>::empty());
    } else {
        lemma_inside(ls, a, n - 1, before);
        assert(!fenced(ls[n - 1]));
        let then = trimmed(ls, a + 1, n - 1);
        assert(now.drop_last() =~= then);
        assert(now.last() == scan::trim(ls[n - 1]));
        reveal_strlit(" ");
        assert(" "@ =~= seq![' ']);
    }
}

/// A hover text with one block says what stands in the block: its lines, without the
/// whitespace around them, with one blank between neighbours. A block that is not closed
/// goes on to the end.
pub proof fn law_signature_of_a_block(s: Seq<char>, a: int, b: int)
    requires
        ({
            let ls = scan::lines(s);
            &&& 0 <= a && a + 1 < b <= ls.len()
            &&& forall|i: int|
                0 <= i < ls.len() ==> (fenced(#[trigger] ls[i]) <==> i == a || i == b)
            &&& forall|i: int| a < i < b ==> scan::trim(#[trigger] ls[i]).len() > 0
        }),
    ensures
        ({
            let said = scan::join(trimmed(scan::lines(s), a + 1, b), " "@);
            hover::signature_of(s) == Some(scan::trim(said)) && scan::trim(said) == said
        }),
{
    let ls = scan::lines(s);
    let none = Seq::<Seq<char>>::empty();
    let said = scan::join(trimmed(ls, a + 1, b), " "@);
    lemma_outside(ls, 0, a, none);
    assert(fenced(ls[a]));
    lemma_inside(ls, a, b, none);
    lemma_edges(ls, a + 1, b);
    if b < ls.len() {
        lemma_fenced(ls[b]);
        assert(fenced(ls[b]));
        assert(hover::blocks_upto(ls, b + 1) == (none.push(said), None::<Seq<char>>));
        lemma_outside(ls, b + 1, ls.len() as int, none.push(said));
    }
    let blocks = hover::blocks_of(ls);
    assert(blocks =~= seq![said]);
    assert(blocks[0] == said);
    scan::laws::law_trimming(Seq::empty(), said, Seq::empty());
    assert(Seq::<char>::empty() + said + Seq::<char>::empty() =~= said);
}

proof fn lemma_trimmed_edges(s: Seq<char>)
    ensures
        scan::trim(s).len() > 0 ==> !text::whitespace(scan::trim(s)[0]) && !text::whitespace(
            scan::trim(s).last(),
        ),
{
    scan::lemma_trim_start_len(s);
    lemma_end_kept(scan::trim_start(s));
}

proof fn lemma_end_kept(s: Seq<char>)
    ensures
        scan::trim_end(s).len() <= s.len(),
        scan::trim_end(s).len() > 0 ==> scan::trim_end(s)[0] == s[0] && !text::whitespace(
            scan::trim_end(s).last(),
        ),
    decreases s.len(),
{
    if s.len() > 0 && text::whitespace(s.last()) {
        lemma_end_kept(s.drop_last());
    }
}

proof fn lemma_edges(ls: Seq<Seq<char>>, a: int, b: int)
    requires
        0 <= a < b <= ls.len(),
        forall|i: int| a <= i < b ==> scan::trim(#[trigger] ls[i]).len() > 0,
    ensures
        ({
            let said = scan::join(trimmed(ls, a, b), " "@);
            said.len() > 0 && !text::whitespace(said[0]) && !text::whitespace(said.last())
        }),
    decreases b - a,
{
    let now = trimmed(ls, a, b);
    assert(scan::trim(ls[b - 1]).len() > 0);
    lemma_trimmed_edges(ls[b - 1]);
    assert(now.last() == scan::trim(ls[b - 1]));
    if b > a + 1 {
        lemma_edges(ls, a, b - 1);
        assert(now.drop_last() =~= trimmed(ls, a, b - 1));
    } else {
        assert(now[0] == scan::trim(ls[a]));
    }
}

/// Of two blocks the last one counts, unless it is blank.
pub proof fn law_last_block_counts(s: Seq<char>, a: int, b: int)
    requires
        ({
            let ls = scan::lines(s);
            &&& 0 <= a && a + 2 < b && b + 2 < ls.len()
            &&& forall|i: int|
                0 <= i < ls.len() ==> (fenced(#[trigger] ls[i]) <==> i == a || i == a + 2 || i == b
                    || i == b + 2)
            &&& scan::trim(ls[a + 1]).len() > 0
        }),
    ensures
        ({
            let ls = scan::lines(s);
            hover::signature_of(s) == Some(
                if scan::trim(ls[b + 1]).len() > 0 {
                    scan::trim(ls[b + 1])
                } else {
                    scan::trim(ls[a + 1])
                },
            )
        }),
{
    let ls = scan::lines(s);
    let none = Seq::<Seq<char>>::empty();
    let x = scan::trim(ls[a + 1]);
    let y = scan::trim(ls[b + 1]);
    lemma_outside(ls, 0, a, none);
    lemma_fenced(ls[a]);
    lemma_fenced(ls[a + 1]);
    lemma_fenced(ls[a + 2]);
    assert(hover::blocks_upto(ls, a + 1) == (none, Some(Seq::<char>::empty())));
    assert(hover::blocks_upto(ls, a + 2) == (none, Some(x)));
    assert(hover::blocks_upto(ls, a + 3) == (none.push(x), None::<Seq<char>>));
    lemma_outside(ls, a + 3, b, none.push(x));
    lemma_fenced(ls[b]);
    lemma_fenced(ls[b + 1]);
    lemma_fenced(ls[b + 2]);
    assert(hover::blocks_upto(ls, b + 1) == (none.push(x), Some(Seq::<char>::empty())));
    assert(hover::blocks_upto(ls, b + 2) == (none.push(x), Some(y)));
    assert(hover::blocks_upto(ls, b + 3) == (none.push(x).push(y), None::<Seq<char>>));
    lemma_outside(ls, b + 3, ls.len() as int, none.push(x).push(y));
    let blocks = hover::blocks_of(ls);
    assert(blocks.len() == 2 && blocks[0] == x && blocks[1] == y);
    lemma_trimmed_edges(ls[a + 1]);
    lemma_trimmed_edges(ls[b + 1]);
    scan::laws::law_trimming(Seq::empty(), x, Seq::empty());
    assert(Seq::<char>::empty() + x + Seq::<char>::empty() =~= x);
    scan::laws::law_trimming(Seq::empty(), y, Seq::empty());
    assert(Seq::<char>::empty() + y + Seq::<char>::empty() =~= y);
    reveal_with_fuel(hover::last_filled, 3);
}

proof fn lemma_first_filled(ls: Seq<Seq<char>>, i: int, k: int)
    requires
        0 <= i <= k <= ls.len(),
        forall|j: int| i <= j < k ==> scan::trim(#[trigger] ls[j]).len() == 0,
        k < ls.len() ==> scan::trim(ls[k]).len() > 0,
    ensures
        hover::first_filled(ls, i) == (if k < ls.len() {
            Some(scan::trim(ls[k]))
        } else {
            None
        }),
    decreases k - i,
{
    if i < k {
        assert(scan::trim(ls[i]).len() == 0);
        lemma_first_filled(ls, i + 1, k);
    }
}

/// A hover text without a block says what its first line says that is not blank; one of
/// blank lines alone says nothing.
pub proof fn law_signature_without_a_block(s: Seq<char>, k: int)
    requires
        ({
            let ls = scan::lines(s);
            &&& 0 <= k <= ls.len()
            &&& forall|i: int| 0 <= i < ls.len() ==> !fenced(#[trigger] ls[i])
            &&& forall|i: int| 0 <= i < k ==> scan::trim(#[trigger] ls[i]).len() == 0
            &&& k < ls.len() ==> scan::trim(ls[k]).len() > 0
        }),
    ensures
        hover::signature_of(s) == (if k < scan::lines(s).len() {
            Some(scan::trim(scan::lines(s)[k]))
        } else {
            None
        }),
{
    let ls = scan::lines(s);
    lemma_outside(ls, 0, ls.len() as int, Seq::empty());
    lemma_first_filled(ls, 0, k);
}

// ------------------------------------------------------------------- annotations

proof fn lemma_past_colons(s: Seq<char>, i: int, n: int)
    requires
        0 <= i <= n <= s.len(),
        forall|j: int| i <= j < n ==> #[trigger] s[j] == ':',
        n < s.len() ==> s[n] != ':',
    ensures
        hover::past_colons(s, i) == n,
    decreases n - i,
{
    if i < n {
        assert(s[i] == ':');
        lemma_past_colons(s, i + 1, n);
    }
}

proof fn lemma_type_end(s: Seq<char>, i: int, n: int)
    requires
        0 <= i <= n <= s.len(),
        forall|j: int| i <= j < n ==> #[trigger] s[j] != ',' && s[j] != '=' && s[j] != '{',
        n < s.len() ==> s[n] == ',' || s[n] == '=' || s[n] == '{',
    ensures
        hover::type_end(s, i) == n,
    decreases n - i,
{
    if i < n {
        assert(s[i] != ',');
        lemma_type_end(s, i + 1, n);
    }
}

/// The type that a line gives a name stands behind the first colon, up to a comma, an
/// equals sign or an opening brace, without the whitespace around it.
pub proof fn law_annotated_types(
    name: Seq<char>,
    gap: Seq<char>,
    ty: Seq<char>,
    space: Seq<char>,
    tail: Seq<char>,
)
    requires
        lacks(name, ':'),
        only_whitespace(gap),
        lacks(gap, ':'),
        only_whitespace(space),
        lacks(space, ','),
        lacks(space, '='),
        lacks(space, '{'),
        ty.len() > 0,
        ty[0] != ':',
        !text::whitespace(ty[0]),
        !text::whitespace(ty.last()),
        lacks(ty, ','),
        lacks(ty, '='),
        lacks(ty, '{'),
        tail.len() > 0 ==> tail[0] == ',' || tail[0] == '=' || tail[0] == '{',
        ({
            let line = name + seq![':'] + gap + ty + space + tail;
            line.last() != '\n' && line.last() != '\r'
        }),
    ensures
        hover::annotated_type(name + seq![':'] + gap + ty + space + tail) == Some(ty),
{
    let line = name + seq![':'] + gap + ty + space + tail;
    let n = name.len() as int;
    let behind = ty + space + tail;
    assert(line =~= name + seq![':'] + (gap + behind));
    scan::laws::lemma_until_at(name, ':', gap + behind);
    assert(line[n] == ':');
    assert((gap + behind)[0] != ':') by {
        if gap.len() > 0 {
            assert((gap + behind)[0] == gap[0]);
        } else {
            assert((gap + behind)[0] == ty[0]);
        }
    }
    assert(line[n + 1] == (gap + behind)[0]);
    lemma_past_colons(line, n, n + 1);
    assert(line.skip(n + 1) =~= gap + behind);
    scan::laws::lemma_trim_start(gap, behind);
    assert(behind[0] == ty[0]);
    assert(scan::trim_start(behind) == behind);
    let m = (ty.len() + space.len()) as int;
    assert forall|j: int| 0 <= j < m implies #[trigger] behind[j] != ',' && behind[j] != '='
        && behind[j] != '{' by {
        if j < ty.len() {
            assert(behind[j] == ty[j]);
        } else {
            assert(behind[j] == space[j - ty.len()]);
        }
    }
    if m < behind.len() {
        assert(behind[m] == tail[0]);
    }
    lemma_type_end(behind, 0, m);
    assert(behind.take(m) =~= ty + space);
    scan::laws::lemma_trim_end(ty, space);
}

/// A line without a colon gives no type.
pub proof fn law_lines_without_a_type(line: Seq<char>)
    requires
        lacks(line, ':'),
        line.len() > 0 ==> line.last() != '\n' && line.last() != '\r',
    ensures
        hover::annotated_type(line) is None,
{
    scan::laws::lemma_until_at(line, ':', Seq::empty());
}

/// What is only a path has two colons next to each other, and neither a blank nor a bracket
/// that opens.
pub proof fn law_paths_alone(s: Seq<char>)
    ensures
        hover::path_only(s) ==> lacks(s, ' ') && lacks(s, '<') && lacks(s, '(') && lacks(s, '{'),
        lacks(s, ':') ==> !hover::path_only(s),
        forall|i: int|
            0 <= i < s.len() - 1 && s[i] == ':' && #[trigger] s[i + 1] == ':' && lacks(s, ' ')
                && lacks(s, '<') && lacks(s, '(') && lacks(s, '{') ==> hover::path_only(s),
{
    reveal_strlit("::");
    reveal_strlit(" ");
    reveal_strlit("<");
    reveal_strlit("(");
    reveal_strlit("{");
    lemma_one_char(s, " "@, ' ');
    lemma_one_char(s, "<"@, '<');
    lemma_one_char(s, "("@, '(');
    lemma_one_char(s, "{"@, '{');
    scan::laws::law_finding(s, "::"@, 0);
    if let Some(k) = scan::find_from(s, "::"@, 0) {
        assert(s.subrange(k, k + 2)[0] == s[k]);
    }
    assert forall|i: int|
        0 <= i < s.len() - 1 && s[i] == ':' && #[trigger] s[i + 1] == ':' && lacks(s, ' ') && lacks(
            s,
            '<',
        ) && lacks(s, '(') && lacks(s, '{') implies hover::path_only(s) by {
        assert(s.subrange(i, i + "::"@.len()) =~= "::"@);
    }
}

proof fn lemma_one_char(s: Seq<char>, p: Seq<char>, c: char)
    requires
        p =~= seq![c],
    ensures
        scan::contains(s, p) == !lacks(s, c),
{
    scan::laws::law_finding(s, p, 0);
    if let Some(k) = scan::find_from(s, p, 0) {
        assert(s.subrange(k, k + 1)[0] == s[k]);
        assert(s[k] == c);
    } else {
        assert forall|i: int| 0 <= i < s.len() implies #[trigger] s[i] != c by {
            if s[i] == c {
                assert(s.subrange(i, i + p.len()) =~= p);
            }
        }
    }
}

} // verus!
