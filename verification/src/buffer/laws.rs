//! What the edits of a buffer do to its text, and what they report.

use vstd::prelude::*;

use crate::buffer;
use crate::buffer::{BufferModel, Edit};
use crate::rope;
use crate::text;

verus! {

/// How often `c` stands in a text.
pub open spec fn count(s: Seq<char>, c: char) -> nat
    decreases s.len(),
{
    if s.len() == 0 {
        0
    } else {
        count(s.skip(1), c) + (if s[0] == c {
            1nat
        } else {
            0nat
        })
    }
}

/// A row and a column in bytes are those of a place in a text.
pub open spec fn points_at(s: Seq<char>, row: usize, col: usize, i: int) -> bool {
    &&& row as int == rope::line_of(s, i)
    &&& col as int == text::utf8_len(s.take(i)) - text::utf8_len(
        s.take(rope::line_start(s, rope::line_of(s, i) as int)),
    )
}

/// A row and a column are where a text that starts at another row and column ends.
pub open spec fn points_past(e: Edit, t: Seq<char>) -> bool {
    &&& e.new_end_row as int == e.start_row + count(t, '\n')
    &&& count(t, '\n') == 0 ==> e.new_end_col as int == e.start_col + text::utf8_len(t)
    &&& forall|k: int|
        0 <= k < t.len() && t[k] == '\n' && count(t.skip(k + 1), '\n') == 0
            ==> e.new_end_col as int == text::utf8_len(#[trigger] t.skip(k + 1))
}

/// One edit was made: the text is `t`, which is not saved, at the next version.
pub open spec fn edited_once(b: BufferModel, r: BufferModel, t: Seq<char>) -> bool {
    &&& r.text == t
    &&& r.dirty
    &&& r.path == b.path
    &&& r.version != b.version
    &&& b.version < u64::MAX ==> r.version == b.version + 1
    &&& r.edits.len() == b.edits.len() + 1
    &&& r.edits.drop_last() == b.edits
}

proof fn lemma_count(s: Seq<char>)
    ensures
        buffer::newlines(s) == count(s, '\n'),
    decreases s.len(),
{
    if s.len() > 0 {
        lemma_count(s.drop_last());
        lemma_count_push(s.drop_last(), s.last());
        assert(s.drop_last().push(s.last()) =~= s);
    }
}

proof fn lemma_count_push(s: Seq<char>, c: char)
    ensures
        count(s.push(c), '\n') == count(s, '\n') + (if c == '\n' {
            1nat
        } else {
            0nat
        }),
    decreases s.len(),
{
    if s.len() == 0 {
        assert(s.push(c).skip(1) =~= Seq::<char>::empty());
        assert(count(Seq::<char>::empty(), '\n') == 0);
    } else {
        assert(s.push(c).skip(1) =~= s.skip(1).push(c));
        assert(s.push(c)[0] == s[0]);
        lemma_count_push(s.skip(1), c);
    }
}

proof fn lemma_last_row(t: Seq<char>, k: int)
    requires
        0 <= k < t.len(),
        t[k] == '\n',
        count(t.skip(k + 1), '\n') == 0,
    ensures
        buffer::last_row(t) == t.skip(k + 1),
    decreases t.len(),
{
    let rest = t.skip(k + 1);
    if k == t.len() - 1 {
        assert(t.last() == '\n');
        assert(rest =~= Seq::<char>::empty());
    } else {
        lemma_count_push(rest.drop_last(), rest.last());
        assert(rest.drop_last().push(rest.last()) =~= rest);
        assert(t.drop_last().skip(k + 1) =~= rest.drop_last());
        lemma_last_row(t.drop_last(), k);
        assert(rest.drop_last().push(t.last()) =~= rest);
    }
}

proof fn lemma_some(t: Seq<char>, k: int)
    requires
        0 <= k < t.len(),
        t[k] == '\n',
    ensures
        count(t, '\n') > 0,
    decreases k,
{
    if k > 0 {
        assert(t.skip(1)[k - 1] == t[k]);
        lemma_some(t.skip(1), k - 1);
    }
}

/// What is put in stands at its place, and the report says where it starts and ends.
pub proof fn law_insertions(b: BufferModel, i: int, t: Seq<char>)
    requires
        0 <= i <= b.text.len(),
        text::utf8_len(b.text) + text::utf8_len(t) <= usize::MAX,
    ensures
        ({
            let s = b.text;
            let r = buffer::after_insert_str(b, i, t);
            let e = r.edits.last();
            &&& edited_once(b, r, s.take(i) + t + s.skip(i))
            &&& e.start_byte as int == text::utf8_len(s.take(i))
            &&& e.old_end_byte == e.start_byte
            &&& e.new_end_byte as int == text::utf8_len(r.text.take(i + t.len()))
            &&& points_at(s, e.start_row, e.start_col, i)
            &&& points_at(s, e.old_end_row, e.old_end_col, i)
            &&& points_past(e, t)
        }),
{
    let s = b.text;
    let r = buffer::after_insert_str(b, i, t);
    lemma_sizes(s, i);
    lemma_count(t);
    lemma_newlines_fit(t);
    assert(r.text.take(i + t.len()) =~= s.take(i) + t);
    text::lemma_utf8_len_concat(s.take(i), t);
    assert(r.edits.drop_last() =~= b.edits);
    assert forall|k: int|
        0 <= k < t.len() && t[k] == '\n' && count(t.skip(k + 1), '\n') == 0 implies r.edits.last().new_end_col as int
        == text::utf8_len(#[trigger] t.skip(k + 1)) by {
        lemma_last_row(t, k);
        lemma_some(t, k);
        text::lemma_utf8_len_concat(t.take(k + 1), t.skip(k + 1));
        assert(t.take(k + 1) + t.skip(k + 1) =~= t);
    }
}

proof fn lemma_newlines_fit(t: Seq<char>)
    ensures
        count(t, '\n') <= t.len() <= text::utf8_len(t),
    decreases t.len(),
{
    if t.len() > 0 {
        lemma_newlines_fit(t.drop_last());
        lemma_count_push(t.drop_last(), t.last());
        assert(t.drop_last().push(t.last()) =~= t);
    }
}

proof fn lemma_sizes(s: Seq<char>, i: int)
    requires
        0 <= i <= s.len(),
    ensures
        rope::line_of(s, i) <= text::utf8_len(s.take(i)) <= text::utf8_len(s),
        0 <= rope::line_start(s, rope::line_of(s, i) as int) <= i,
        text::utf8_len(s.take(rope::line_start(s, rope::line_of(s, i) as int))) <= text::utf8_len(
            s.take(i),
        ),
{
    rope::lemma_line_of_bound(s, i);
    rope::lemma_line_of_monotone(s, i, s.len() as int);
    rope::lemma_line_of_position(s, rope::line_of(s, i) as int, i);
    rope::lemma_line_start(s, rope::line_of(s, i) as int);
    text::lemma_utf8_len_take(s, 0, i);
    text::lemma_utf8_len_take(s, i, s.len() as int);
    text::lemma_utf8_len_take(s, rope::line_start(s, rope::line_of(s, i) as int), i);
    assert(s.take(s.len() as int) =~= s);
    assert(s.take(0) =~= Seq::<char>::empty());
}

/// What is deleted is gone, and the report says where it was; to delete nothing is no
/// edit.
pub proof fn law_deletions(b: BufferModel, start: int, end: int)
    requires
        0 <= start,
        start < end ==> end <= b.text.len(),
        text::utf8_len(b.text) <= usize::MAX,
    ensures
        ({
            let s = b.text;
            let r = buffer::after_delete(b, start, end);
            let e = r.edits.last();
            &&& start >= end ==> r == b
            &&& start < end ==> {
                &&& edited_once(b, r, s.take(start) + s.skip(end))
                &&& e.start_byte as int == text::utf8_len(s.take(start))
                &&& e.old_end_byte as int == text::utf8_len(s.take(end))
                &&& e.new_end_byte == e.start_byte
                &&& points_at(s, e.start_row, e.start_col, start)
                &&& points_at(s, e.old_end_row, e.old_end_col, end)
                &&& e.new_end_row == e.start_row && e.new_end_col == e.start_col
            }
        }),
{
    if start < end {
        lemma_sizes(b.text, start);
        lemma_sizes(b.text, end);
        assert(buffer::after_delete(b, start, end).edits.drop_last() =~= b.edits);
    }
}

/// What the bytes from `start` to `end` hold makes room for another text, and the report
/// says which bytes those are.
pub proof fn law_node_replacements(b: BufferModel, a: int, z: int, t: Seq<char>)
    requires
        0 <= a <= z <= b.text.len(),
        text::utf8_len(b.text) + text::utf8_len(t) <= usize::MAX,
    ensures
        ({
            let s = b.text;
            let (start, end) = (text::utf8_len(s.take(a)) as int, text::utf8_len(s.take(z)) as int);
            let r = buffer::after_replace_node(b, start, end, t);
            let e = r.edits.last();
            &&& edited_once(b, r, s.take(a) + t + s.skip(z))
            &&& e.start_byte as int == start
            &&& e.old_end_byte as int == end
            &&& e.new_end_byte as int == text::utf8_len(r.text.take(a + t.len()))
            &&& points_at(s, e.start_row, e.start_col, a)
            &&& points_at(s, e.old_end_row, e.old_end_col, z)
            &&& points_past(e, t)
        }),
{
    let s = b.text;
    let (start, end) = (text::utf8_len(s.take(a)) as int, text::utf8_len(s.take(z)) as int);
    let r = buffer::after_replace_node(b, start, end, t);
    rope::law_byte_of_round_trips(s, a);
    rope::law_byte_of_round_trips(s, z);
    lemma_sizes(s, a);
    lemma_sizes(s, z);
    lemma_count(t);
    lemma_newlines_fit(t);
    assert(r.text.take(a + t.len()) =~= s.take(a) + t);
    text::lemma_utf8_len_concat(s.take(a), t);
    assert(r.edits.drop_last() =~= b.edits);
    assert forall|k: int|
        0 <= k < t.len() && t[k] == '\n' && count(t.skip(k + 1), '\n') == 0 implies r.edits.last().new_end_col as int
        == text::utf8_len(#[trigger] t.skip(k + 1)) by {
        lemma_last_row(t, k);
        lemma_some(t, k);
        text::lemma_utf8_len_concat(t.take(k + 1), t.skip(k + 1));
        assert(t.take(k + 1) + t.skip(k + 1) =~= t);
    }
}

/// A buffer that is put back to a snapshot has the text that it had, and is as saved as it
/// was; but its version goes on.
pub proof fn law_snapshots(b: BufferModel, later: BufferModel)
    ensures
        ({
            let r = buffer::after_restore(later, buffer::snapshot_of(b));
            &&& r.text == b.text
            &&& r.dirty == b.dirty
            &&& r.edits == b.edits
            &&& r.path == later.path
            &&& r.version != later.version
            &&& later.version < u64::MAX ==> r.version == later.version + 1
        }),
{
}

} // verus!
