//! What a rename does to the texts that it touches, and to those that it does not.

use vstd::prelude::*;

use crate::buffer;
use crate::lsp::{Position, TextEdit};
use crate::order;
use crate::protocol;
use crate::protocol::laws;
use crate::rope;
use crate::runtime;
use crate::runtime::rename;

verus! {

/// The place in a text of a line and a character on it.
pub open spec fn at(s: Seq<char>, p: Position) -> int {
    rope::line_start(s, p.line as int) + p.character
}

/// A line and a character that are there in a text.
pub open spec fn there(s: Seq<char>, p: Position) -> bool {
    &&& (p.line as int) < rope::line_count(s)
    &&& at(s, p) <= rope::line_end(s, p.line as int)
}

/// An edit names a part of a text. It starts on the line that it names, and not between
/// a carriage return and what follows it.
pub open spec fn names_part_of(s: Seq<char>, e: TextEdit) -> bool {
    &&& there(s, e.range.start)
    &&& there(s, e.range.end)
    &&& at(s, e.range.start) <= at(s, e.range.end)
    &&& rope::line_of(s, at(s, e.range.start)) == e.range.start.line
    &&& at(s, e.range.start) > 0 ==> s[at(s, e.range.start) - 1] != '\r'
}

/// The edits name parts of a text, and no two of them overlap.
pub open spec fn name_parts_of(s: Seq<char>, es: Seq<TextEdit>) -> bool {
    &&& forall|i: int| 0 <= i < es.len() ==> names_part_of(s, #[trigger] es[i])
    &&& forall|i: int, j: int|
        0 <= i < es.len() && 0 <= j < es.len() && i != j ==> at(
            s,
            (#[trigger] es[i]).range.end,
        ) <= at(s, (#[trigger] es[j]).range.start) || at(s, es[j].range.end) <= at(
            s,
            es[i].range.start,
        )
}

/// The text from place `from` on, with the parts that the edits name, listed from the
/// start of the text to its end, replaced by their new texts.
pub open spec fn replaced_from(s: Seq<char>, from: int, es: Seq<TextEdit>) -> Seq<char>
    decreases es.len(),
{
    if es.len() == 0 {
        s.skip(from)
    } else {
        s.subrange(from, at(s, es[0].range.start)) + es[0].new_text@ + replaced_from(
            s,
            at(s, es[0].range.end),
            es.skip(1),
        )
    }
}

/// Edits from the start of a text to its end.
pub open spec fn start_to_end(s: Seq<char>, es: Seq<TextEdit>) -> bool {
    forall|i: int, j: int|
        0 <= i < j < es.len() ==> at(s, (#[trigger] es[i]).range.end) <= at(
            s,
            (#[trigger] es[j]).range.start,
        )
}

/// Nothing else that is listed has the address.
pub open spec fn named_once(changes: Seq<(String, Vec<TextEdit>)>, d: int) -> bool {
    forall|j: int|
        0 <= j < changes.len() && j != d ==> (#[trigger] changes[j]).0@ != changes[d].0@
}

/// No other open buffer has the address of entry `k`.
pub open spec fn open_once(m: runtime::CoreModel, k: int) -> bool {
    forall|j: int|
        0 <= j < m.entries.len() && j != k ==> (#[trigger] m.entries[j]).uri != m.entries[k].uri
}

/// The runtime once a rename is over.
pub open spec fn after_rename(
    m: runtime::CoreModel,
    changes: Seq<(String, Vec<TextEdit>)>,
    name: Seq<char>,
) -> runtime::CoreModel {
    let st = rename::renamed(m, changes, name);
    rename::all_settled(st.core, st.places, st.places.len() as int)
}

proof fn lemma_positions(s: Seq<char>, e: TextEdit)
    requires
        names_part_of(s, e),
    ensures
        laws::spot(s, e) == (at(s, e.range.start), at(s, e.range.end)),
        laws::fits(s, e),
{
    rope::lemma_line_end(s, e.range.start.line as int);
    rope::lemma_line_end(s, e.range.end.line as int);
}

/// Edits that name parts of a text replace them all at once, in whatever order they are
/// listed.
pub proof fn lemma_document(b: buffer::BufferModel, es: Seq<TextEdit>)
    requires
        name_parts_of(b.text, es),
    ensures
        ({
            let sorted = order::stable_sorted(es);
            let n = es.len() as int;
            &&& sorted.to_multiset() == es.to_multiset()
            &&& sorted.len() == n
            &&& protocol::after_text_edits(b, sorted, n).1 is None
            &&& protocol::after_text_edits(b, sorted, n).0.text == replaced_from(
                b.text,
                0,
                sorted.reverse(),
            )
            &&& start_to_end(b.text, sorted.reverse())
        }),
{
    let s = b.text;
    let sorted = order::stable_sorted(es);
    let n = es.len() as int;
    assert forall|i: int| 0 <= i < es.len() implies laws::fits(s, #[trigger] es[i]) by {
        lemma_positions(s, es[i]);
    }
    assert forall|i: int, j: int|
        0 <= i < es.len() && 0 <= j < es.len() && i != j implies laws::apart(
        s,
        #[trigger] es[i],
        #[trigger] es[j],
    ) by {
        lemma_positions(s, es[i]);
        lemma_positions(s, es[j]);
    }
    laws::law_sorted_edits_replace_what_was_seen(b, es);
    order::law_sorting(es);
    let p = |e: TextEdit| names_part_of(s, e);
    let r = |x: TextEdit, y: TextEdit| laws::apart(s, x, y);
    order::lemma_sorted_keeps(es, p, r);
    assert forall|i: int| 0 <= i < n implies names_part_of(s, #[trigger] sorted[i]) by {
        assert(p(sorted[i]));
    }
    assert forall|i: int, j: int| 0 <= i < j < n implies at(
        s,
        (#[trigger] sorted[j]).range.end,
    ) <= at(s, (#[trigger] sorted[i]).range.start) by {
        assert(r(sorted[i], sorted[j]));
        lemma_positions(s, sorted[i]);
        lemma_positions(s, sorted[j]);
        laws::lemma_edits_ordered(s, sorted[i], sorted[j]);
    }
    let up = sorted.reverse();
    assert forall|i: int, j: int| 0 <= i < j < n implies at(s, (#[trigger] up[i]).range.end) <= at(
        s,
        (#[trigger] up[j]).range.start,
    ) by {
        assert(up[i] == sorted[n - 1 - i]);
        assert(up[j] == sorted[n - 1 - j]);
    }
    if n > 0 {
        lemma_behind(s, sorted, n);
        let a = at(s, sorted[n - 1].range.start);
        assert(names_part_of(s, sorted[n - 1]));
        lemma_positions(s, sorted[n - 1]);
        laws::lemma_spot_within(s, sorted[n - 1]);
        assert(sorted.take(n) =~= sorted);
        assert(s.take(a) =~= s.subrange(0, a));
        assert(up[0] == sorted[n - 1]);
        lemma_from_start(s, up, a);
    } else {
        assert(s.skip(0) =~= s);
    }
}

proof fn lemma_from_start(s: Seq<char>, up: Seq<TextEdit>, a: int)
    requires
        up.len() > 0,
        a == at(s, up[0].range.start),
        0 <= a <= s.len(),
    ensures
        replaced_from(s, 0, up) == s.take(a) + replaced_from(s, a, up),
{
    assert(s.subrange(a, a) =~= Seq::<char>::empty());
    let rest = replaced_from(s, at(s, up[0].range.end), up.skip(1));
    assert(s.subrange(a, a) + up[0].new_text@ =~= up[0].new_text@);
    assert(s.take(a) =~= s.subrange(0, a));
    assert(s.take(a) + (up[0].new_text@ + rest) =~= s.subrange(0, a) + up[0].new_text@ + rest);
}

/// What stands behind the start of the last of the first `n` edits.
proof fn lemma_behind(s: Seq<char>, sorted: Seq<TextEdit>, n: int)
    requires
        0 < n <= sorted.len(),
        forall|i: int| 0 <= i < sorted.len() ==> names_part_of(s, #[trigger] sorted[i]),
        forall|i: int, j: int|
            0 <= i < j < sorted.len() ==> at(s, (#[trigger] sorted[j]).range.end) <= at(
                s,
                (#[trigger] sorted[i]).range.start,
            ),
    ensures
        laws::behind(s, sorted, n) == replaced_from(
            s,
            at(s, sorted[n - 1].range.start),
            sorted.take(n).reverse(),
        ),
    decreases n,
{
    let up = sorted.take(n).reverse();
    let a = at(s, sorted[n - 1].range.start);
    let z = at(s, sorted[n - 1].range.end);
    assert(names_part_of(s, sorted[n - 1]));
    lemma_positions(s, sorted[n - 1]);
    laws::lemma_spot_within(s, sorted[n - 1]);
    assert(up[0] == sorted[n - 1]);
    assert(s.subrange(a, a) =~= Seq::<char>::empty());
    let put = sorted[n - 1].new_text@;
    assert(s.subrange(a, a) + put =~= put);
    if n == 1 {
        assert(up.skip(1) =~= Seq::<TextEdit>::empty());
        assert(s.subrange(z, s.len() as int) =~= s.skip(z));
        assert(replaced_from(s, z, up.skip(1)) == s.skip(z));
        assert(laws::behind(s, sorted, 0) =~= Seq::<char>::empty());
        assert(put + s.skip(z) + Seq::<char>::empty() =~= put + s.skip(z));
        assert(replaced_from(s, a, up) == put + s.skip(z));
    } else {
        lemma_behind(s, sorted, n - 1);
        assert(names_part_of(s, sorted[n - 2]));
        lemma_positions(s, sorted[n - 2]);
        laws::lemma_spot_within(s, sorted[n - 2]);
        assert(up.skip(1) =~= sorted.take(n - 1).reverse());
        let b = at(s, sorted[n - 2].range.start);
        let before = sorted.take(n - 1).reverse();
        assert(before[0] == sorted[n - 2]);
        let rest = replaced_from(s, at(s, before[0].range.end), before.skip(1));
        assert(replaced_from(s, b, before) == s.subrange(b, b) + before[0].new_text@ + rest);
        assert(s.subrange(b, b) =~= Seq::<char>::empty());
        assert(replaced_from(s, b, before) =~= before[0].new_text@ + rest);
        assert(replaced_from(s, z, before) == s.subrange(z, b) + before[0].new_text@ + rest);
        assert(put + s.subrange(z, b) + replaced_from(s, b, before) =~= put + (s.subrange(z, b)
            + before[0].new_text@ + rest));
        assert(replaced_from(s, a, up) == put + replaced_from(s, z, before));
        assert(laws::behind(s, sorted, n) == put + s.subrange(z, b) + laws::behind(
            s,
            sorted,
            n - 1,
        ));
    }
}

/// What the first `n` documents of a rename leave alone.
proof fn lemma_frame(
    m: runtime::CoreModel,
    changes: Seq<(String, Vec<TextEdit>)>,
    name: Seq<char>,
    n: int,
    k: int,
)
    requires
        0 <= n <= changes.len(),
        0 <= k < m.entries.len(),
    ensures
        ({
            let st = rename::renamed_upto(m, changes, name, n);
            &&& st.core.entries.len() == m.entries.len()
            &&& st.core.entries[k].uri == m.entries[k].uri
            &&& st.core.entries[k].id == m.entries[k].id
            &&& (forall|j: int|
                0 <= j < n ==> Some((#[trigger] changes[j]).0@) != m.entries[k].uri)
                ==> st.core.entries[k] == m.entries[k]
            &&& forall|j: int|
                0 <= j < m.entries.len() ==> (#[trigger] st.core.entries[j]).uri
                    == m.entries[j].uri
            &&& forall|j: int|
                0 <= j < st.places.len() ==> 0 <= #[trigger] st.places[j] < m.entries.len()
        }),
    decreases n,
{
    if n > 0 {
        lemma_frame(m, changes, name, n - 1, k);
        let before = rename::renamed_upto(m, changes, name, n - 1);
        if before.failed is None {
            let uri = changes[n - 1].0@;
            rename::lemma_addressed(before.core.entries, uri);
            assert(before.core.entries[k].uri == m.entries[k].uri);
        }
    }
}

/// Settling leaves the texts alone.
proof fn lemma_settled_texts(m: runtime::CoreModel, places: Seq<int>, n: int, k: int)
    requires
        0 <= n <= places.len(),
        0 <= k < m.entries.len(),
        forall|j: int| 0 <= j < places.len() ==> 0 <= #[trigger] places[j] < m.entries.len(),
    ensures
        ({
            let r = rename::all_settled(m, places, n);
            &&& r.entries.len() == m.entries.len()
            &&& r.entries[k].buffer.text == m.entries[k].buffer.text
            &&& r.entries[k].buffer.version == m.entries[k].buffer.version
            &&& r.entries[k].buffer.dirty == m.entries[k].buffer.dirty
            &&& r.entries[k].id == m.entries[k].id
            &&& (forall|j: int| 0 <= j < n ==> #[trigger] places[j] != k) ==> r.entries[k]
                == m.entries[k]
        }),
    decreases n,
{
    if n > 0 {
        lemma_settled_texts(m, places, n - 1, k);
        assert(0 <= places[n - 1] < m.entries.len());
    }
}

/// The edits of document `d` are made on entry `k`, and by the later ones it is left
/// alone.
proof fn lemma_document_done(
    m: runtime::CoreModel,
    changes: Seq<(String, Vec<TextEdit>)>,
    name: Seq<char>,
    d: int,
    k: int,
    n: int,
)
    requires
        0 <= d < n <= changes.len(),
        0 <= k < m.entries.len(),
        m.entries[k].uri == Some(changes[d].0@),
        named_once(changes, d),
        open_once(m, k),
        name_parts_of(m.entries[k].buffer.text, changes[d].1@),
        rename::renamed_upto(m, changes, name, n).failed is None,
    ensures
        ({
            let st = rename::renamed_upto(m, changes, name, n);
            let es = changes[d].1@;
            let b = st.core.entries[k].buffer;
            &&& b.text == replaced_from(
                m.entries[k].buffer.text,
                0,
                order::stable_sorted(es).reverse(),
            )
            &&& st.applied.contains(
                rename::AppliedModel {
                    buffer_id: m.entries[k].id,
                    uri: changes[d].0@,
                    edits: es.len(),
                    new_version: b.version,
                },
            )
        }),
    decreases n,
{
    let st = rename::renamed_upto(m, changes, name, n);
    let before = rename::renamed_upto(m, changes, name, n - 1);
    let uri = changes[n - 1].0@;
    lemma_frame(m, changes, name, n - 1, k);
    rename::lemma_addressed(before.core.entries, uri);
    let es = changes[d].1@;
    if n == d + 1 {
        assert forall|j: int| 0 <= j < d implies Some((#[trigger] changes[j]).0@)
            != m.entries[k].uri by {}
        assert(before.core.entries[k] == m.entries[k]);
        assert(rename::addressed(before.core.entries, uri) == Some(k)) by {
            match rename::addressed(before.core.entries, uri) {
                Some(a) => {
                    assert(before.core.entries[a].uri == m.entries[a].uri);
                    assert(a == k);
                },
                None => {
                    assert(before.core.entries[k].uri != Some(uri));
                },
            }
        }
        lemma_document(m.entries[k].buffer, es);
        assert(st.applied.last() == st.applied[st.applied.len() - 1]);
    } else {
        lemma_document_done(m, changes, name, d, k, n - 1);
        let want = rename::AppliedModel {
            buffer_id: m.entries[k].id,
            uri: changes[d].0@,
            edits: es.len(),
            new_version: before.core.entries[k].buffer.version,
        };
        let i = choose|i: int| 0 <= i < before.applied.len() && before.applied[i] == want;
        match rename::addressed(before.core.entries, uri) {
            Some(a) => {
                assert(before.core.entries[a].uri == m.entries[a].uri);
                assert(changes[n - 1].0@ != changes[d].0@);
                assert(a != k);
                assert(st.core.entries[k] == before.core.entries[k]);
            },
            None => {},
        }
        assert(st.applied[i] == want);
    }
}

/// After a rename that succeeds, a buffer that the server lists once holds its old text
/// with every part that the edits name in that old text replaced by the edit's new text,
/// in whatever order the edits are listed; and the report says so, with the buffer's new
/// version.
pub proof fn law_renames_replace_what_the_server_saw(
    m: runtime::CoreModel,
    changes: Seq<(String, Vec<TextEdit>)>,
    name: Seq<char>,
    d: int,
    k: int,
)
    requires
        rename::renamed(m, changes, name).failed is None,
        0 <= d < changes.len(),
        0 <= k < m.entries.len(),
        m.entries[k].uri == Some(changes[d].0@),
        named_once(changes, d),
        open_once(m, k),
        name_parts_of(m.entries[k].buffer.text, changes[d].1@),
    ensures
        ({
            let s = m.entries[k].buffer.text;
            let es = changes[d].1@;
            let b = after_rename(m, changes, name).entries[k].buffer;
            exists|up: Seq<TextEdit>|
                {
                    &&& up.to_multiset() == es.to_multiset()
                    &&& start_to_end(s, up)
                    &&& b.text == #[trigger] replaced_from(s, 0, up)
                    &&& rename::renamed(m, changes, name).applied.contains(
                        rename::AppliedModel {
                            buffer_id: m.entries[k].id,
                            uri: changes[d].0@,
                            edits: es.len(),
                            new_version: b.version,
                        },
                    )
                }
        }),
{
    let n = changes.len() as int;
    let es = changes[d].1@;
    let st = rename::renamed(m, changes, name);
    let up = order::stable_sorted(es).reverse();
    lemma_document_done(m, changes, name, d, k, n);
    lemma_document(m.entries[k].buffer, es);
    lemma_frame(m, changes, name, n, k);
    lemma_settled_texts(st.core, st.places, st.places.len() as int, k);
    lemma_reverse_multiset(order::stable_sorted(es));
    let s = m.entries[k].buffer.text;
    assert(start_to_end(s, up));
    assert(after_rename(m, changes, name).entries[k].buffer.text == replaced_from(s, 0, up));
}

pub proof fn lemma_reverse_multiset<T>(s: Seq<T>)
    ensures
        s.reverse().to_multiset() == s.to_multiset(),
    decreases s.len(),
{
    broadcast use vstd::seq_lib::group_to_multiset_ensures;

    if s.len() == 0 {
        assert(s.reverse() =~= s);
    } else {
        let rest = s.drop_last();
        lemma_reverse_multiset(rest);
        assert(s =~= rest.push(s.last()));
        assert(s.reverse() =~= seq![s.last()] + rest.reverse());
        vstd::seq_lib::lemma_multiset_commutative(seq![s.last()], rest.reverse());
        vstd::seq_lib::lemma_multiset_commutative(rest, seq![s.last()]);
        assert(rest + seq![s.last()] =~= s);
        assert(s.reverse().to_multiset() =~= s.to_multiset());
    }
}

/// A rename leaves every buffer alone that the server does not list, and skips what it
/// lists and is not open.
pub proof fn law_renames_leave_the_rest_alone(
    m: runtime::CoreModel,
    changes: Seq<(String, Vec<TextEdit>)>,
    name: Seq<char>,
    d: int,
    k: int,
)
    requires
        rename::renamed(m, changes, name).failed is None,
        0 <= d < changes.len(),
        0 <= k < m.entries.len(),
    ensures
        (forall|j: int|
            0 <= j < changes.len() ==> Some((#[trigger] changes[j]).0@) != m.entries[k].uri)
            ==> after_rename(m, changes, name).entries[k].buffer.text
            == m.entries[k].buffer.text && after_rename(m, changes, name).entries[k].buffer.version
            == m.entries[k].buffer.version,
        (forall|j: int|
            0 <= j < m.entries.len() ==> (#[trigger] m.entries[j]).uri != Some(changes[d].0@))
            ==> rename::renamed(m, changes, name).skipped.contains(changes[d].0@),
        rename::renamed(m, changes, name).skipped.len() + rename::renamed(
            m,
            changes,
            name,
        ).applied.len() == changes.len(),
{
    let n = changes.len() as int;
    let st = rename::renamed(m, changes, name);
    lemma_frame(m, changes, name, n, k);
    lemma_settled_texts(st.core, st.places, st.places.len() as int, k);
    lemma_counted(m, changes, name, n);
    if forall|j: int| 0 <= j < m.entries.len() ==> (#[trigger] m.entries[j]).uri != Some(
        changes[d].0@,
    ) {
        lemma_skipped(m, changes, name, d, n);
    }
}

proof fn lemma_counted(
    m: runtime::CoreModel,
    changes: Seq<(String, Vec<TextEdit>)>,
    name: Seq<char>,
    n: int,
)
    requires
        0 <= n,
        rename::renamed_upto(m, changes, name, n).failed is None,
    ensures
        rename::renamed_upto(m, changes, name, n).skipped.len() + rename::renamed_upto(
            m,
            changes,
            name,
            n,
        ).applied.len() == n,
    decreases n,
{
    if n > 0 {
        lemma_counted(m, changes, name, n - 1);
    }
}

proof fn lemma_skipped(
    m: runtime::CoreModel,
    changes: Seq<(String, Vec<TextEdit>)>,
    name: Seq<char>,
    d: int,
    n: int,
)
    requires
        0 <= d < n <= changes.len(),
        m.entries.len() > 0,
        rename::renamed_upto(m, changes, name, n).failed is None,
        forall|j: int|
            0 <= j < m.entries.len() ==> (#[trigger] m.entries[j]).uri != Some(changes[d].0@),
    ensures
        rename::renamed_upto(m, changes, name, n).skipped.contains(changes[d].0@),
    decreases n,
{
    let st = rename::renamed_upto(m, changes, name, n);
    let before = rename::renamed_upto(m, changes, name, n - 1);
    lemma_frame(m, changes, name, n - 1, 0);
    rename::lemma_addressed(before.core.entries, changes[n - 1].0@);
    if n == d + 1 {
        if let Some(a) = rename::addressed(before.core.entries, changes[d].0@) {
            assert(before.core.entries[a].uri == m.entries[a].uri);
        }
        assert(st.skipped[st.skipped.len() - 1] == changes[d].0@);
    } else {
        lemma_skipped(m, changes, name, d, n - 1);
        let i = choose|i: int|
            0 <= i < before.skipped.len() && before.skipped[i] == changes[d].0@;
        assert(st.skipped[i] == changes[d].0@);
    }
}

/// A rename goes through where the edits of each open document name parts of its text.
pub proof fn law_renames_that_fit_go_through(
    m: runtime::CoreModel,
    changes: Seq<(String, Vec<TextEdit>)>,
    name: Seq<char>,
)
    requires
        forall|d: int, k: int|
            0 <= d < changes.len() && 0 <= k < m.entries.len() && (#[trigger] m.entries[k]).uri
                == Some((#[trigger] changes[d]).0@) ==> named_once(changes, d) && open_once(m, k)
                && name_parts_of(m.entries[k].buffer.text, changes[d].1@),
    ensures
        rename::renamed(m, changes, name).failed is None,
{
    lemma_goes_through(m, changes, name, changes.len() as int);
}

proof fn lemma_goes_through(
    m: runtime::CoreModel,
    changes: Seq<(String, Vec<TextEdit>)>,
    name: Seq<char>,
    n: int,
)
    requires
        0 <= n <= changes.len(),
        forall|d: int, k: int|
            0 <= d < changes.len() && 0 <= k < m.entries.len() && (#[trigger] m.entries[k]).uri
                == Some((#[trigger] changes[d]).0@) ==> named_once(changes, d) && open_once(m, k)
                && name_parts_of(m.entries[k].buffer.text, changes[d].1@),
    ensures
        rename::renamed_upto(m, changes, name, n).failed is None,
    decreases n,
{
    if n > 0 {
        lemma_goes_through(m, changes, name, n - 1);
        let before = rename::renamed_upto(m, changes, name, n - 1);
        let uri = changes[n - 1].0@;
        rename::lemma_addressed(before.core.entries, uri);
        if let Some(k) = rename::addressed(before.core.entries, uri) {
            if m.entries.len() > 0 {
                lemma_frame(m, changes, name, n - 1, 0);
            } else {
                lemma_no_entries(m, changes, name, n - 1);
            }
            lemma_frame(m, changes, name, n - 1, k);
            assert(m.entries[k].uri == Some(changes[n - 1].0@));
            assert(named_once(changes, n - 1));
            assert forall|j: int| 0 <= j < n - 1 implies Some((#[trigger] changes[j]).0@)
                != m.entries[k].uri by {}
            lemma_document(m.entries[k].buffer, changes[n - 1].1@);
        }
    }
}

proof fn lemma_no_entries(
    m: runtime::CoreModel,
    changes: Seq<(String, Vec<TextEdit>)>,
    name: Seq<char>,
    n: int,
)
    requires
        m.entries.len() == 0,
    ensures
        rename::renamed_upto(m, changes, name, n).core.entries.len() == 0,
    decreases n,
{
    if n > 0 {
        lemma_no_entries(m, changes, name, n - 1);
        let before = rename::renamed_upto(m, changes, name, n - 1);
        rename::lemma_addressed(before.core.entries, changes[n - 1].0@);
    }
}

} // verus!
