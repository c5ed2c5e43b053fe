//! What holds of the runtime across its operations.

use vstd::prelude::*;

use super::approval;
use super::insight;
use crate::buffer;
use crate::error::EditorError;
use crate::proposals;
use crate::protocol::{ByteRange, CharRange};
use crate::rope;
use crate::runtime;
use crate::syntax;
use crate::tx;

verus! {

/// The ids of the open buffers.
pub open spec fn open_ids(m: runtime::CoreModel) -> Seq<u64> {
    Seq::new(m.entries.len(), |i: int| m.entries[i].id)
}

proof fn lemma_same_place(a: Seq<runtime::EntryModel>, b: Seq<runtime::EntryModel>, id: u64)
    requires
        a.len() == b.len(),
        forall|i: int| 0 <= i < a.len() ==> (#[trigger] a[i]).id == b[i].id,
    ensures
        runtime::place_of(a, id) == runtime::place_of(b, id),
    decreases a.len(),
{
    if a.len() > 0 && a[0].id != id {
        assert forall|i: int| 0 <= i < a.len() - 1 implies (#[trigger] a.skip(1)[i]).id == b.skip(
            1,
        )[i].id by {
            assert(a.skip(1)[i] == a[i + 1]);
        }
        lemma_same_place(a.skip(1), b.skip(1), id);
    }
}

/// An edit leaves every entry but one, and every id, as it was.
proof fn lemma_edited_frame(
    m: runtime::CoreModel,
    k: int,
    intent: Seq<char>,
    body: runtime::BodyModel,
)
    requires
        0 <= k < m.entries.len(),
    ensures
        ({
            let n = runtime::edited(m, k, intent, body);
            &&& n.entries.len() == m.entries.len()
            &&& forall|i: int|
                0 <= i < m.entries.len() ==> (#[trigger] n.entries[i]).id == m.entries[i].id
            &&& forall|i: int|
                0 <= i < m.entries.len() && i != k ==> #[trigger] n.entries[i] == m.entries[i]
            &&& n.entries[k].buffer.text == runtime::edit_outcome(
                m,
                k,
                intent,
                body,
            ).0.entries[k].buffer.text
            &&& n.entries[k].buffer.version == runtime::edit_outcome(
                m,
                k,
                intent,
                body,
            ).0.entries[k].buffer.version
            &&& n.tx == runtime::edit_outcome(m, k, intent, body).0.tx
            &&& n.explicit == m.explicit
            &&& n.proposals == m.proposals
            &&& n.focus == m.focus
        }),
{
}

/// An edit of one buffer is invisible in every other, whether it succeeds or not.
pub proof fn law_edits_are_isolated(
    m: runtime::CoreModel,
    id: u64,
    version: u64,
    range: CharRange,
    bytes: ByteRange,
    t: Seq<char>,
    other: u64,
    part: Option<CharRange>,
)
    requires
        other != id,
    ensures
        runtime::read_result(
            runtime::replace_range_result(m, id, version, range, t).0,
            other,
            part,
        ) == runtime::read_result(m, other, part),
        runtime::read_result(
            runtime::replace_node_result(m, id, version, bytes, t).0,
            other,
            part,
        ) == runtime::read_result(m, other, part),
{
    runtime::lemma_place_of(m.entries, id);
    runtime::lemma_place_of(m.entries, other);
    let n = runtime::replace_range_result(m, id, version, range, t).0;
    let o = runtime::replace_node_result(m, id, version, bytes, t).0;
    if let Some(k) = runtime::place_of(m.entries, id) {
        lemma_edited_frame(
            m,
            k,
            runtime::range_intent(
                "edit.replace_range "@,
                range.start as int,
                range.end as int,
            ),
            runtime::BodyModel::Range {
                start: range.start as int,
                end: range.end as int,
                text: t,
            },
        );
        lemma_edited_frame(
            m,
            k,
            runtime::range_intent("edit.replace_node "@, bytes.start as int, bytes.end as int),
            runtime::BodyModel::Node {
                start: bytes.start as int,
                end: bytes.end as int,
                text: t,
            },
        );
    }
    lemma_same_place(n.entries, m.entries, other);
    lemma_same_place(o.entries, m.entries, other);
}

/// An edit that is refused changes nothing.
pub proof fn law_refused_edits_change_nothing(
    m: runtime::CoreModel,
    id: u64,
    version: u64,
    range: CharRange,
    bytes: ByteRange,
    t: Seq<char>,
)
    ensures
        runtime::replace_range_result(m, id, version, range, t).1 is Err
            ==> runtime::replace_range_result(m, id, version, range, t).0 == m,
        runtime::replace_node_result(m, id, version, bytes, t).1 is Err
            ==> runtime::replace_node_result(m, id, version, bytes, t).0 == m,
{
}

/// An edit that was made for another version of the buffer is refused.
pub proof fn law_stale_edits_are_refused(
    m: runtime::CoreModel,
    id: u64,
    version: u64,
    range: CharRange,
    bytes: ByteRange,
    t: Seq<char>,
)
    requires
        runtime::read_result(m, id, None) is Ok,
        runtime::read_result(m, id, None)->Ok_0.1 != version,
    ensures
        ({
            let refusal = EditorError::VersionMismatch {
                id,
                at: runtime::read_result(m, id, None)->Ok_0.1,
                sent: version,
            };
            &&& runtime::replace_range_result(m, id, version, range, t) == (
                m,
                Err::<u64, _>(refusal),
            )
            &&& runtime::replace_node_result(m, id, version, bytes, t) == (
                m,
                Err::<u64, _>(refusal),
            )
        }),
{
    runtime::lemma_place_of(m.entries, id);
}

/// What was put into a buffer is what is read from it, under the version that the
/// edit gave.
pub proof fn law_reads_give_back_edits(
    m: runtime::CoreModel,
    id: u64,
    version: u64,
    range: CharRange,
    t: Seq<char>,
)
    requires
        runtime::replace_range_result(m, id, version, range, t).1 is Ok,
    ensures
        ({
            let (n, r) = runtime::replace_range_result(m, id, version, range, t);
            let before = runtime::read_result(m, id, None)->Ok_0.0;
            runtime::read_result(n, id, None) == Ok::<(Seq<char>, u64), EditorError>(
                (
                    buffer::replaced(before, range.start as int, range.end as int, t),
                    r->Ok_0,
                ),
            )
        }),
{
    runtime::lemma_place_of(m.entries, id);
    let k = runtime::place_of(m.entries, id)->Some_0;
    let (s, e) = (range.start as int, range.end as int);
    let body = runtime::BodyModel::Range { start: s, end: e, text: t };
    let intent = runtime::range_intent("edit.replace_range "@, s, e);
    lemma_edited_frame(m, k, intent, body);
    let n = runtime::replace_range_result(m, id, version, range, t).0;
    lemma_same_place(n.entries, m.entries, id);
    let b = m.entries[k].buffer;
    let after = runtime::after_replace_range(b, s, e, t);
    let cut = buffer::after_delete(b, s, e);
    if s == e {
        assert(b.text.take(s) + b.text.skip(s) =~= b.text);
        assert(after.text =~= buffer::replaced(b.text, s, e, t));
    } else {
        assert(cut.text.take(s) =~= b.text.take(s));
        assert(cut.text.skip(s) =~= b.text.skip(e));
        assert(after.text =~= buffer::replaced(b.text, s, e, t));
    }
}

/// What was put in the place of a syntax node is what is read from the buffer, under
/// the version that the edit gave: the characters that the bytes belong to are
/// replaced.
pub proof fn law_reads_give_back_node_edits(
    m: runtime::CoreModel,
    id: u64,
    version: u64,
    bytes: ByteRange,
    t: Seq<char>,
)
    requires
        runtime::replace_node_result(m, id, version, bytes, t).1 is Ok,
    ensures
        ({
            let (n, r) = runtime::replace_node_result(m, id, version, bytes, t);
            let before = runtime::read_result(m, id, None)->Ok_0.0;
            runtime::read_result(n, id, None) == Ok::<(Seq<char>, u64), EditorError>(
                (
                    buffer::replaced(
                        before,
                        rope::char_of_byte(before, bytes.start as int),
                        rope::char_of_byte(before, bytes.end as int),
                        t,
                    ),
                    r->Ok_0,
                ),
            )
        }),
{
    runtime::lemma_place_of(m.entries, id);
    let k = runtime::place_of(m.entries, id)->Some_0;
    let (s, e) = (bytes.start as int, bytes.end as int);
    let body = runtime::BodyModel::Node { start: s, end: e, text: t };
    rope::lemma_char_of_byte_monotone(m.entries[k].buffer.text, s, e);
    let intent = runtime::range_intent("edit.replace_node "@, s, e);
    lemma_edited_frame(m, k, intent, body);
    let n = runtime::replace_node_result(m, id, version, bytes, t).0;
    lemma_same_place(n.entries, m.entries, id);
}

/// An edit that changes a buffer gives it a version that it did not have, and marks
/// it as unsaved; one that puts nothing in place of nothing leaves it alone.
pub proof fn law_edits_count_up(
    m: runtime::CoreModel,
    id: u64,
    version: u64,
    range: CharRange,
    t: Seq<char>,
)
    requires
        runtime::replace_range_result(m, id, version, range, t).1 is Ok,
    ensures
        ({
            let (n, r) = runtime::replace_range_result(m, id, version, range, t);
            let k = runtime::place_of(m.entries, id)->Some_0;
            if range.start == range.end && t.len() == 0 {
                r->Ok_0 == version && n.entries[k].buffer.dirty == m.entries[k].buffer.dirty
            } else {
                r->Ok_0 != version && n.entries[k].buffer.dirty
            }
        }),
{
    runtime::lemma_place_of(m.entries, id);
    let k = runtime::place_of(m.entries, id)->Some_0;
    let b = m.entries[k].buffer;
    let after = runtime::after_replace_range(b, range.start as int, range.end as int, t);
    assert(buffer::next_version(buffer::next_version(b.version)) != b.version);
}

/// Every edit is in the history under its intent: one that is made outside a
/// transaction is a transaction of its own.
pub proof fn law_edits_are_logged(
    m: runtime::CoreModel,
    k: int,
    intent: Seq<char>,
    body: runtime::BodyModel,
)
    requires
        0 <= k < m.entries.len(),
        !runtime::joined(m, k),
    ensures
        ({
            let (n, failed) = runtime::edit_outcome(m, k, intent, body);
            n.tx.history == (match failed {
                None => m.tx.history.push(
                    tx::ChangeModel {
                        change: m.tx.next_change,
                        tx: m.tx.next_tx,
                        intent,
                        conversation: None,
                        at: m.tx.now,
                        files: tx::files_of(n.entries[k].buffer),
                    },
                ),
                Some(_) => m.tx.history,
            })
        }),
        runtime::edit_outcome(m, k, intent, body).1 is Some ==> runtime::edit_outcome(
            m,
            k,
            intent,
            body,
        ).0.entries[k].buffer.text == m.entries[k].buffer.text,
{
}

/// A structural query that follows an edit is answered from the text that the edit
/// left.
pub proof fn law_queries_see_edits(
    m: runtime::CoreModel,
    id: u64,
    version: u64,
    range: CharRange,
    t: Seq<char>,
    query: Seq<char>,
)
    requires
        runtime::replace_range_result(m, id, version, range, t).1 is Ok,
        m.entries[runtime::place_of(m.entries, id)->Some_0].syntax is Some,
    ensures
        ({
            let n = runtime::replace_range_result(m, id, version, range, t).0;
            insight::ast_result(n, id, query) == syntax::matches_of(
                runtime::read_result(n, id, None)->Ok_0.0,
                query,
            )
        }),
{
    runtime::lemma_place_of(m.entries, id);
    let k = runtime::place_of(m.entries, id)->Some_0;
    let intent = runtime::range_intent(
        "edit.replace_range "@,
        range.start as int,
        range.end as int,
    );
    let body = runtime::BodyModel::Range {
        start: range.start as int,
        end: range.end as int,
        text: t,
    };
    lemma_edited_frame(m, k, intent, body);
    let n = runtime::edited(m, k, intent, body);
    lemma_same_place(n.entries, m.entries, id);
}

/// An edit that is made at a moment.
pub struct TimedEdit {
    pub at: tx::Moment,
    pub intent: Seq<char>,
    pub body: runtime::BodyModel,
}

/// The runtime after the first `n` of a sequence of edits of entry `k`.
pub open spec fn edited_all(
    m: runtime::CoreModel,
    k: int,
    edits: Seq<TimedEdit>,
    n: int,
) -> runtime::CoreModel
    decreases n,
{
    if n <= 0 {
        m
    } else {
        let e = edits[n - 1];
        runtime::edited(
            runtime::clocked(edited_all(m, k, edits, n - 1), e.at),
            k,
            e.intent,
            e.body,
        )
    }
}

/// Edits that join a transaction leave the transactions, every id, and every other
/// entry as they were.
proof fn lemma_joined_edits(m: runtime::CoreModel, k: int, edits: Seq<TimedEdit>, n: int)
    requires
        0 <= k < m.entries.len(),
        runtime::joined(m, k),
        0 <= n <= edits.len(),
    ensures
        ({
            let e = edited_all(m, k, edits, n);
            &&& e.tx == tx::at_moment(m.tx, e.tx.now)
            &&& e.explicit == m.explicit
            &&& e.entries.len() == m.entries.len()
            &&& e.entries[k].id == m.entries[k].id
            &&& e.entries[k].buffer.path == m.entries[k].buffer.path
            &&& forall|i: int|
                0 <= i < m.entries.len() && i != k ==> #[trigger] e.entries[i] == m.entries[i]
        }),
    decreases n,
{
    if n > 0 {
        lemma_joined_edits(m, k, edits, n - 1);
        let x = edits[n - 1];
        let before = runtime::clocked(edited_all(m, k, edits, n - 1), x.at);
        lemma_edited_frame(before, k, x.intent, x.body);
        runtime::lemma_body_keeps_path(before.entries[k].buffer, x.body);
        let e = edited_all(m, k, edits, n);
        assert forall|i: int| 0 <= i < m.entries.len() && i != k implies #[trigger] e.entries[i]
            == m.entries[i] by {
            assert(before.entries[i] == m.entries[i]);
        }
    }
}

/// The edits inside a transaction, however many, are one entry of the history: they
/// add none themselves, and the commit adds one, with the intent and the
/// conversation that the transaction was opened with. The commit goes through, it
/// leaves the text as it is, and afterwards the transaction cannot be ended again.
pub proof fn law_transactions_are_one_entry(
    m: runtime::CoreModel,
    k: int,
    intent: Seq<char>,
    conversation: Option<Seq<char>>,
    edits: Seq<TimedEdit>,
    at: tx::Moment,
)
    requires
        runtime::well_formed(m),
        m.explicit is None,
        0 <= k < m.entries.len(),
    ensures
        ({
            let t = m.tx.next_tx;
            let open = approval::begun(m, k, intent, conversation);
            let n = runtime::clocked(edited_all(open, k, edits, edits.len() as int), at);
            let done = approval::committed(n, k);
            &&& approval::begin_refusal(m, m.entries[k].id) is None
            &&& n.tx == tx::at_moment(open.tx, at)
            &&& approval::end_refusal(n, t) is None
            &&& approval::open_place(n) == k
            &&& done.tx.history == m.tx.history.push(
                tx::ChangeModel {
                    change: m.tx.next_change,
                    tx: t,
                    intent,
                    conversation,
                    at,
                    files: tx::files_of(m.entries[k].buffer),
                },
            )
            &&& done.entries == n.entries
            &&& approval::end_refusal(done, t) is Some
            &&& approval::begin_refusal(done, m.entries[k].id) is None
        }),
{
    let id = m.entries[k].id;
    let open = approval::begun(m, k, intent, conversation);
    lemma_joined_edits(open, k, edits, edits.len() as int);
    let n = runtime::clocked(edited_all(open, k, edits, edits.len() as int), at);
    lemma_place_kept(m, n, k);
}

/// Rolling a transaction back gives the buffer the text that it had when the
/// transaction was opened, however it was edited in between, and leaves the
/// history and every other buffer as they were. The version goes up by one. The
/// rollback goes through; afterwards the transaction cannot be ended again, and
/// another can be opened.
pub proof fn law_rollback_undoes_transactions(
    m: runtime::CoreModel,
    k: int,
    intent: Seq<char>,
    conversation: Option<Seq<char>>,
    edits: Seq<TimedEdit>,
    i: int,
)
    requires
        runtime::well_formed(m),
        m.explicit is None,
        0 <= k < m.entries.len(),
        0 <= i < m.entries.len(),
    ensures
        ({
            let t = m.tx.next_tx;
            let open = approval::begun(m, k, intent, conversation);
            let n = edited_all(open, k, edits, edits.len() as int);
            let back = approval::rolled_back(n, k);
            &&& approval::begin_refusal(m, m.entries[k].id) is None
            &&& approval::end_refusal(n, t) is None
            &&& approval::open_place(n) == k
            &&& back.entries[i].buffer.text == m.entries[i].buffer.text
            &&& back.entries[i].buffer.dirty == m.entries[i].buffer.dirty
            &&& back.entries[k].buffer.version == buffer::next_version(
                n.entries[k].buffer.version,
            )
            &&& back.tx.history == m.tx.history
            &&& back.tx.active == m.tx.active
            &&& approval::end_refusal(back, t) is Some
            &&& approval::begin_refusal(back, m.entries[k].id) is None
        }),
{
    let open = approval::begun(m, k, intent, conversation);
    lemma_joined_edits(open, k, edits, edits.len() as int);
    let n = edited_all(open, k, edits, edits.len() as int);
    assert(n.tx.active.remove(0) =~= m.tx.active);
    lemma_place_kept(m, n, k);
    let back = approval::rolled_back(n, k);
    lemma_place_kept(m, back, k);
    if i != k {
        assert(n.entries[i] == open.entries[i]);
    }
}

/// An entry is found where it was, as long as no id changes.
proof fn lemma_place_kept(m: runtime::CoreModel, n: runtime::CoreModel, k: int)
    requires
        runtime::well_formed(m),
        0 <= k < m.entries.len() == n.entries.len(),
        forall|i: int| 0 <= i < m.entries.len() ==> (#[trigger] n.entries[i]).id == m.entries[i].id,
    ensures
        runtime::place_of(m.entries, m.entries[k].id) == Some(k),
        runtime::place_of(n.entries, m.entries[k].id) == Some(k),
{
    runtime::lemma_place_of(m.entries, m.entries[k].id);
    runtime::lemma_place_of(n.entries, m.entries[k].id);
    let p = runtime::place_of(m.entries, m.entries[k].id)->Some_0;
    assert(m.entries[p].id == m.entries[k].id);
    assert(n.entries[k].id == m.entries[k].id);
    let q = runtime::place_of(n.entries, m.entries[k].id)->Some_0;
    assert(n.entries[q].id == m.entries[q].id);
}

/// A buffer that is opened gets an id that no buffer had before, and the focus;
/// what is open stays as it is.
pub proof fn law_ids_ascend(m: runtime::CoreModel, e: runtime::EntryModel, i: int)
    requires
        runtime::well_formed(m),
        m.next_id < u64::MAX,
        e.id == m.next_id,
        0 <= i < m.entries.len(),
    ensures
        m.entries[i].id < e.id,
        runtime::after_open(m, e).entries[i] == m.entries[i],
        runtime::after_open(m, e).focus == Some(e.id),
        runtime::after_open(m, e).next_id > m.next_id,
        runtime::after_close(m, i).next_id == m.next_id,
{
}

/// The focus of a buffer that is closed goes to the open buffer with the lowest
/// id; that of another stays.
pub proof fn law_focus_goes_to_lowest_id(m: runtime::CoreModel, k: int, j: int)
    requires
        runtime::well_formed(m),
        0 <= k < m.entries.len(),
        0 <= j < m.entries.len(),
        j != k,
    ensures
        m.focus == Some(m.entries[k].id) ==> {
            &&& runtime::after_close(m, k).focus matches Some(f) && f <= m.entries[j].id
            &&& open_ids(runtime::after_close(m, k)).contains(
                runtime::after_close(m, k).focus->Some_0,
            )
        },
        m.focus != Some(m.entries[k].id) ==> runtime::after_close(m, k).focus == m.focus,
{
    let n = runtime::after_close(m, k);
    if m.focus == Some(m.entries[k].id) {
        assert(n.entries.len() > 0);
        assert(open_ids(n)[0] == n.entries[0].id);
        if k == 0 {
            assert(n.entries[0] == m.entries[1]);
        } else {
            assert(n.entries[0] == m.entries[0]);
        }
    }
}

/// Queueing a proposal, and turning one down, touch no buffer.
pub proof fn law_proposals_wait(
    m: runtime::CoreModel,
    buffer_id: u64,
    intent: Seq<char>,
    kind: proposals::ReplaceModel,
    id: u64,
)
    ensures
        approval::proposed(m, buffer_id, intent, kind).entries == m.entries,
        approval::proposed(m, buffer_id, intent, kind).tx == m.tx,
        approval::withdrawn(m, id).entries == m.entries,
        approval::withdrawn(m, id).tx == m.tx,
{
}

/// A proposal that was made for another version of its buffer is refused: the
/// texts and the history stay as they were, and the proposal is queued again
/// behind the others, under a fresh id.
pub proof fn law_stale_proposals_are_queued_again(m: runtime::CoreModel, id: u64, i: int)
    requires
        runtime::well_formed(m),
        m.explicit is None,
        proposals::place_of(m.proposals.queue, id) is Some,
        ({
            let p = m.proposals.queue[proposals::place_of(m.proposals.queue, id)->Some_0];
            &&& runtime::read_result(m, p.buffer_id, None) is Ok
            &&& runtime::read_result(m, p.buffer_id, None)->Ok_0.1 != p.kind.version
        }),
        0 <= i < m.entries.len(),
    ensures
        ({
            let q = proposals::place_of(m.proposals.queue, id)->Some_0;
            let p = m.proposals.queue[q];
            let (n, r) = approval::accept_result(m, id);
            &&& r == Err::<u64, _>(
                EditorError::VersionMismatch {
                    id: p.buffer_id,
                    at: runtime::read_result(m, p.buffer_id, None)->Ok_0.1,
                    sent: p.kind.version,
                },
            )
            &&& n.entries[i].buffer.text == m.entries[i].buffer.text
            &&& n.tx.history == m.tx.history
            &&& n.proposals.queue == m.proposals.queue.remove(q).push(
                proposals::ProposalModel { id: m.proposals.next_id, ..p },
            )
        }),
{
    let q = proposals::place_of(m.proposals.queue, id)->Some_0;
    proposals::lemma_place_of(m.proposals.queue, id);
    let p = m.proposals.queue[q];
    runtime::lemma_place_of(m.entries, p.buffer_id);
    let k = runtime::place_of(m.entries, p.buffer_id)->Some_0;
    let open = approval::begun(approval::withdrawn(m, id), k, p.intent, None);
    assert(open.tx.active.remove(0) =~= m.tx.active);
}

/// A proposal that is accepted leaves the queue, and is one entry of the history
/// with its own intent; its text is read from the buffer.
pub proof fn law_accepted_proposals_are_edits(m: runtime::CoreModel, id: u64)
    requires
        runtime::well_formed(m),
        approval::accept_result(m, id).1 is Ok,
        forall|i: int|
            #![trigger m.proposals.queue[i]]
            0 <= i < m.proposals.queue.len() ==> 0 <= m.proposals.queue[i].kind.start <= usize::MAX
                && 0 <= m.proposals.queue[i].kind.end <= usize::MAX,
    ensures
        ({
            let q = proposals::place_of(m.proposals.queue, id)->Some_0;
            let p = m.proposals.queue[q];
            let n = approval::accept_result(m, id).0;
            let k = runtime::place_of(m.entries, p.buffer_id)->Some_0;
            &&& n.proposals.queue == m.proposals.queue.remove(q)
            &&& n.tx.history == m.tx.history.push(
                tx::ChangeModel {
                    change: m.tx.next_change,
                    tx: m.tx.next_tx,
                    intent: p.intent,
                    conversation: None,
                    at: m.tx.now,
                    files: tx::files_of(n.entries[k].buffer),
                },
            )
            &&& n.entries[k].buffer.text == buffer::replaced(
                m.entries[k].buffer.text,
                p.kind.start,
                p.kind.end,
                p.kind.text,
            )
        }),
{
    let q = proposals::place_of(m.proposals.queue, id)->Some_0;
    proposals::lemma_place_of(m.proposals.queue, id);
    let p = m.proposals.queue[q];
    runtime::lemma_place_of(m.entries, p.buffer_id);
    let k = runtime::place_of(m.entries, p.buffer_id)->Some_0;
    let open = approval::begun(approval::withdrawn(m, id), k, p.intent, None);
    let range = CharRange { start: p.kind.start as usize, end: p.kind.end as usize };
    law_reads_give_back_edits(open, p.buffer_id, p.kind.version, range, p.kind.text);
    lemma_edited_frame(
        open,
        k,
        runtime::range_intent("edit.replace_range "@, range.start as int, range.end as int),
        runtime::BodyModel::Range {
            start: range.start as int,
            end: range.end as int,
            text: p.kind.text,
        },
    );
    let (after, _) = runtime::replace_range_result(
        open,
        p.buffer_id,
        p.kind.version,
        range,
        p.kind.text,
    );
    lemma_same_place(after.entries, open.entries, p.buffer_id);
}

/// Of the proposals that are accepted in bulk each is either made or reported.
pub proof fn law_bulk_counts_add_up(m: runtime::CoreModel, ids: Seq<u64>, n: int)
    requires
        0 <= n <= ids.len(),
    ensures
        approval::accepted_upto(m, ids, n).1 + approval::accepted_upto(m, ids, n).2.len() == n,
    decreases n,
{
    if n > 0 {
        law_bulk_counts_add_up(m, ids, n - 1);
    }
}

} // verus!
