//! Explicit transactions, the history, and the approval of proposed edits.

use vstd::prelude::*;

use super::EditorCore;
use crate::buffer;
use crate::error;
use crate::error::EditorError;
use crate::proposals;
use crate::proposals::{PendingProposal, Proposal, ProposalId, ProposalKind};
use crate::protocol::{BulkAcceptError, BulkAcceptResult, CharRange};
use crate::runtime;
use crate::tx;
use crate::tx::{Change, ChangeId, TxId};

verus! {

// ---------------------------------------------------------------- transactions

/// Why a transaction cannot be opened on a buffer.
pub open spec fn begin_refusal(m: runtime::CoreModel, id: u64) -> Option<EditorError> {
    if m.explicit is Some {
        Some(EditorError::TransactionOpen)
    } else if runtime::place_of(m.entries, id) is None {
        Some(EditorError::UnknownBuffer { id })
    } else {
        None
    }
}

/// The runtime after a transaction was opened on entry `k`.
pub open spec fn begun(
    m: runtime::CoreModel,
    k: int,
    intent: Seq<char>,
    conversation: Option<Seq<char>>,
) -> runtime::CoreModel {
    runtime::CoreModel {
        tx: tx::after_begin(m.tx, intent, conversation, m.entries[k].buffer),
        explicit: Some((m.tx.next_tx, m.entries[k].id)),
        ..m
    }
}

/// Why transaction `t` cannot be ended.
pub open spec fn end_refusal(m: runtime::CoreModel, t: u64) -> Option<EditorError> {
    match m.explicit {
        Some((open, id)) => if open != t {
            Some(EditorError::NotTheOpenTransaction { tx: t })
        } else if runtime::place_of(m.entries, id) is None {
            Some(EditorError::UnknownBuffer { id })
        } else {
            None
        },
        None => Some(EditorError::NotTheOpenTransaction { tx: t }),
    }
}

/// The entry that the open transaction is on.
pub open spec fn open_place(m: runtime::CoreModel) -> int {
    runtime::place_of(m.entries, m.explicit->Some_0.1)->Some_0
}

/// The runtime after the open transaction, on entry `k`, was committed.
pub open spec fn committed(m: runtime::CoreModel, k: int) -> runtime::CoreModel {
    runtime::CoreModel {
        tx: tx::after_commit(m.tx, 0, m.entries[k].buffer),
        explicit: None,
        ..m
    }
}

/// The runtime after the open transaction, on entry `k`, was rolled back.
pub open spec fn rolled_back(m: runtime::CoreModel, k: int) -> runtime::CoreModel {
    let e = m.entries[k];
    let back = runtime::EntryModel {
        buffer: buffer::after_restore(e.buffer, m.tx.active[0].snapshot),
        ..e
    };
    runtime::settled(
        runtime::CoreModel {
            tx: tx::without(m.tx, 0),
            explicit: None,
            ..runtime::with_entry(m, k, back)
        },
        k,
    )
}

proof fn lemma_begun(
    m: runtime::CoreModel,
    k: int,
    intent: Seq<char>,
    conversation: Option<Seq<char>>,
    n: int,
)
    requires
        runtime::well_formed(m),
        m.explicit is None,
        0 <= k < m.entries.len(),
        n >= 1,
        runtime::room(m, n),
    ensures
        runtime::well_formed(begun(m, k, intent, conversation)),
        runtime::room(begun(m, k, intent, conversation), n - 1),
{
    tx::law_ids_stay_orderly(m.tx, intent, conversation, m.entries[k].buffer, 0);
}

proof fn lemma_open_transaction(m: runtime::CoreModel)
    requires
        runtime::well_formed(m),
        m.explicit is Some,
    ensures
        tx::place_of(m.tx.active, m.explicit->Some_0.0) == Some(0int),
{
    tx::lemma_place_of(m.tx.active, m.explicit->Some_0.0);
}

proof fn lemma_committed(m: runtime::CoreModel, k: int, n: int)
    requires
        runtime::well_formed(m),
        m.explicit is Some,
        0 <= k < m.entries.len(),
        n >= 1,
        runtime::room(m, n),
    ensures
        runtime::well_formed(committed(m, k)),
        runtime::room(committed(m, k), n - 1),
{
    tx::law_ids_stay_orderly(m.tx, Seq::empty(), None, m.entries[k].buffer, 0);
}

proof fn lemma_rolled_back(m: runtime::CoreModel, k: int, n: int)
    requires
        runtime::well_formed(m),
        m.explicit is Some,
        0 <= k < m.entries.len(),
        n >= 1,
        runtime::room(m, n),
    ensures
        runtime::well_formed(rolled_back(m, k)),
        runtime::room(rolled_back(m, k), n - 1),
        runtime::room(
            runtime::CoreModel {
                tx: tx::without(m.tx, 0),
                explicit: None,
                ..runtime::with_entry(
                    m,
                    k,
                    runtime::EntryModel {
                        buffer: buffer::after_restore(
                            m.entries[k].buffer,
                            m.tx.active[0].snapshot,
                        ),
                        ..m.entries[k]
                    },
                )
            },
            n,
        ),
{
    let e = m.entries[k];
    let back = runtime::EntryModel {
        buffer: buffer::after_restore(e.buffer, m.tx.active[0].snapshot),
        ..e
    };
    let a = runtime::CoreModel {
        tx: tx::without(m.tx, 0),
        explicit: None,
        ..runtime::with_entry(m, k, back)
    };
    assert(tx::orderly(a.tx));
    runtime::lemma_focus_kept(m, a);
    assert(runtime::well_formed(a));
    runtime::lemma_settled(a, k, n);
}

impl EditorCore {
    /// Opens a transaction on a buffer. Only one can be open at a time.
    pub fn tx_begin(
        &mut self,
        buffer_id: u64,
        intent: String,
        conversation_id: Option<String>,
    ) -> (r: Result<TxId, EditorError>)
        requires
            runtime::well_formed(old(self)@),
            runtime::room(old(self)@, 1),
        ensures
            runtime::well_formed(final(self)@),
            match begin_refusal(old(self)@, buffer_id) {
                Some(e) => r == Err::<TxId, _>(e) && final(self)@ == old(self)@,
                None => {
                    &&& r == Ok::<TxId, EditorError>(TxId(old(self)@.tx.next_tx))
                    &&& final(self)@ == begun(
                        old(self)@,
                        runtime::place_of(old(self)@.entries, buffer_id)->Some_0,
                        intent@,
                        buffer::option_view(conversation_id),
                    )
                },
            },
    {
        let ghost m = self@;
        if self.explicit_tx.is_some() {
            return Err(EditorError::TransactionOpen);
        }
        match self.find(buffer_id) {
            Some(k) => {
                proof {
                    runtime::lemma_place_of(m.entries, buffer_id);
                    lemma_begun(
                        m,
                        k as int,
                        intent@,
                        buffer::option_view(conversation_id),
                        1,
                    );
                    assert(m.entries[k as int] == self.buffers@[k as int]@);
                }
                let tx_id = self.tx_manager.begin(
                    intent,
                    conversation_id,
                    &self.buffers[k].buffer,
                );
                self.explicit_tx = Some((tx_id, buffer_id));
                assert(self@.entries =~= m.entries);
                Ok(tx_id)
            },
            None => Err(EditorError::UnknownBuffer { id: buffer_id }),
        }
    }

    fn tx_place(&self, tx_id: TxId) -> (r: Result<usize, EditorError>)
        ensures
            match end_refusal(self@, tx_id.0) {
                Some(e) => r == Err::<usize, _>(e),
                None => r is Ok && r->Ok_0 == open_place(self@) && r->Ok_0 < self@.entries.len(),
            },
    {
        match self.explicit_tx {
            Some((open, id)) => {
                if open.0 != tx_id.0 {
                    return Err(EditorError::NotTheOpenTransaction { tx: tx_id.0 });
                }
                match self.find(id) {
                    Some(k) => Ok(k),
                    None => Err(EditorError::UnknownBuffer { id }),
                }
            },
            None => Err(EditorError::NotTheOpenTransaction { tx: tx_id.0 }),
        }
    }

    /// Commits the open transaction.
    pub fn tx_commit(&mut self, tx_id: TxId) -> (r: Result<ChangeId, EditorError>)
        requires
            runtime::well_formed(old(self)@),
            runtime::room(old(self)@, 1),
        ensures
            runtime::well_formed(final(self)@),
            tx::proper(final(self)@.tx.now),
            ({
                let m = runtime::clocked(old(self)@, final(self)@.tx.now);
                match end_refusal(m, tx_id.0) {
                    Some(e) => r == Err::<ChangeId, _>(e) && final(self)@ == m,
                    None => {
                        &&& r == Ok::<ChangeId, EditorError>(ChangeId(m.tx.next_change))
                        &&& final(self)@ == committed(m, open_place(m))
                    },
                }
            }),
    {
        self.tick();
        self.end_committed(tx_id)
    }

    /// The same, with the moment that the clock was last read at.
    pub(crate) fn end_committed(&mut self, tx_id: TxId) -> (r: Result<ChangeId, EditorError>)
        requires
            runtime::well_formed(old(self)@),
            runtime::room(old(self)@, 1),
        ensures
            runtime::well_formed(final(self)@),
            match end_refusal(old(self)@, tx_id.0) {
                Some(e) => r == Err::<ChangeId, _>(e) && final(self)@ == old(self)@,
                None => {
                    &&& r == Ok::<ChangeId, EditorError>(ChangeId(old(self)@.tx.next_change))
                    &&& final(self)@ == committed(old(self)@, open_place(old(self)@))
                },
            },
    {
        let ghost m = self@;
        match self.tx_place(tx_id) {
            Ok(k) => {
                proof {
                    lemma_open_transaction(m);
                    lemma_committed(m, k as int, 1);
                    assert(m.entries[k as int] == self.buffers@[k as int]@);
                }
                let r = self.tx_manager.record(tx_id, &self.buffers[k].buffer);
                self.explicit_tx = None;
                assert(self@.entries =~= m.entries);
                r
            },
            Err(e) => Err(e),
        }
    }

    /// Rolls the open transaction back: its buffer gets the text it had when the
    /// transaction was opened.
    pub fn tx_rollback(&mut self, tx_id: TxId) -> (r: Result<(), EditorError>)
        requires
            runtime::well_formed(old(self)@),
            runtime::room(old(self)@, 1),
        ensures
            runtime::well_formed(final(self)@),
            match end_refusal(old(self)@, tx_id.0) {
                Some(e) => r == Err::<(), _>(e) && final(self)@ == old(self)@,
                None => r is Ok && final(self)@ == rolled_back(
                    old(self)@,
                    open_place(old(self)@),
                ),
            },
    {
        let ghost m = self@;
        match self.tx_place(tx_id) {
            Ok(k) => {
                proof {
                    lemma_open_transaction(m);
                    lemma_rolled_back(m, k as int, 1);
                    assert(m.entries[k as int] == self.buffers@[k as int]@);
                }
                let _ = self.tx_manager.rollback(tx_id, &mut self.buffers[k].buffer);
                self.explicit_tx = None;
                let ghost back = runtime::EntryModel {
                    buffer: buffer::after_restore(
                        m.entries[k as int].buffer,
                        m.tx.active[0].snapshot,
                    ),
                    ..m.entries[k as int]
                };
                assert(self@.entries =~= m.entries.update(k as int, back));
                self.settle(k);
                Ok(())
            },
            Err(e) => Err(e),
        }
    }

    /// The most recent `limit` history entries, oldest first.
    pub fn history_recent(&self, limit: usize) -> (r: &[Change])
        ensures
            tx::change_views(r@) == tx::recent_of(self@.tx.history, limit as int),
    {
        self.tx_manager.recent(limit)
    }
}

// ------------------------------------------------------------------- proposals

/// The runtime after a proposal was queued.
pub open spec fn proposed(
    m: runtime::CoreModel,
    buffer_id: u64,
    intent: Seq<char>,
    kind: proposals::ReplaceModel,
) -> runtime::CoreModel {
    runtime::CoreModel {
        proposals: proposals::after_enqueue(m.proposals, buffer_id, intent, kind),
        ..m
    }
}

/// The runtime without proposal `id`.
pub open spec fn withdrawn(m: runtime::CoreModel, id: u64) -> runtime::CoreModel {
    runtime::CoreModel { proposals: proposals::after_take(m.proposals, id), ..m }
}

/// The runtime after proposal `id` was accepted, and the buffer's new version, or
/// why it could not be. A proposal that does not fit goes back into the queue
/// under a new id.
pub open spec fn accept_result(m: runtime::CoreModel, id: u64) -> (
    runtime::CoreModel,
    Result<u64, EditorError>,
) {
    match proposals::place_of(m.proposals.queue, id) {
        None => (m, Err(EditorError::UnknownProposal { id })),
        Some(q) => {
            let p = m.proposals.queue[q];
            let taken = withdrawn(m, id);
            match begin_refusal(taken, p.buffer_id) {
                Some(e) => (proposed(taken, p.buffer_id, p.intent, p.kind), Err(e)),
                None => {
                    let k = runtime::place_of(taken.entries, p.buffer_id)->Some_0;
                    let open = begun(taken, k, p.intent, None);
                    let (after, outcome) = runtime::replace_range_result(
                        open,
                        p.buffer_id,
                        p.kind.version,
                        CharRange { start: p.kind.start as usize, end: p.kind.end as usize },
                        p.kind.text,
                    );
                    match outcome {
                        Ok(v) => (committed(after, k), Ok(v)),
                        Err(e) => (
                            proposed(rolled_back(after, k), p.buffer_id, p.intent, p.kind),
                            Err(e),
                        ),
                    }
                },
            }
        },
    }
}

/// The runtime after the first `n` of `ids` were accepted in turn, how many of
/// them were, and the others with the reason.
pub open spec fn accepted_upto(m: runtime::CoreModel, ids: Seq<u64>, n: int) -> (
    runtime::CoreModel,
    nat,
    Seq<(u64, Seq<char>)>,
)
    decreases n,
{
    if n <= 0 {
        (m, 0, Seq::empty())
    } else {
        let (before, count, errors) = accepted_upto(m, ids, n - 1);
        let (after, outcome) = accept_result(before, ids[n - 1]);
        match outcome {
            Ok(_) => (after, count + 1, errors),
            Err(e) => (after, count, errors.push((ids[n - 1], error::error_text(e)))),
        }
    }
}

/// The ids of the queued proposals.
pub open spec fn queued_ids(m: runtime::CoreModel) -> Seq<u64> {
    Seq::new(m.proposals.queue.len(), |i: int| m.proposals.queue[i].id)
}

pub open spec fn bulk_errors(v: Seq<BulkAcceptError>) -> Seq<(u64, Seq<char>)> {
    Seq::new(v.len(), |i: int| (v[i].proposal_id.0, v[i].message@))
}

proof fn lemma_replace_range_keeps(
    m: runtime::CoreModel,
    k: int,
    version: u64,
    range: CharRange,
    t: Seq<char>,
    n: int,
)
    requires
        runtime::well_formed(m),
        0 <= k < m.entries.len(),
        n >= 2,
        runtime::room(m, n),
    ensures
        ({
            let (after, outcome) = runtime::replace_range_result(
                m,
                m.entries[k].id,
                version,
                range,
                t,
            );
            &&& runtime::well_formed(after)
            &&& runtime::room(after, n - 2)
            &&& outcome is Err ==> after == m
            &&& after.explicit == m.explicit
            &&& after.entries.len() == m.entries.len()
            &&& forall|i: int|
                0 <= i < m.entries.len() ==> (#[trigger] after.entries[i]).id == m.entries[i].id
            &&& after.proposals == m.proposals
        }),
{
    runtime::lemma_place_of(m.entries, m.entries[k].id);
    let p = runtime::place_of(m.entries, m.entries[k].id)->Some_0;
    assert(p == k);
    let intent = runtime::range_intent(
        "edit.replace_range "@,
        range.start as int,
        range.end as int,
    );
    let body = runtime::BodyModel::Range {
        start: range.start as int,
        end: range.end as int,
        text: t,
    };
    runtime::lemma_edit_outcome(m, k, intent, body, n);
    runtime::lemma_settled(runtime::edit_outcome(m, k, intent, body).0, k, n - 1);
}

proof fn lemma_accept(m: runtime::CoreModel, id: u64, n: int)
    requires
        runtime::well_formed(m),
        n >= 5,
        runtime::room(m, n),
    ensures
        runtime::well_formed(accept_result(m, id).0),
        runtime::room(accept_result(m, id).0, n - 5),
{
    proposals::lemma_place_of(m.proposals.queue, id);
    match proposals::place_of(m.proposals.queue, id) {
        None => {},
        Some(q) => {
            let p = m.proposals.queue[q];
            let taken = withdrawn(m, id);
            assert(proposals::ascending(taken.proposals));
            assert(runtime::well_formed(taken));
            if begin_refusal(taken, p.buffer_id) is None {
                runtime::lemma_place_of(taken.entries, p.buffer_id);
                let k = runtime::place_of(taken.entries, p.buffer_id)->Some_0;
                let open = begun(taken, k, p.intent, None);
                lemma_begun(taken, k, p.intent, None, n);
                let range = CharRange {
                    start: p.kind.start as usize,
                    end: p.kind.end as usize,
                };
                lemma_replace_range_keeps(
                    open,
                    k,
                    p.kind.version,
                    range,
                    p.kind.text,
                    n - 1,
                );
                let (after, outcome) = runtime::replace_range_result(
                    open,
                    p.buffer_id,
                    p.kind.version,
                    range,
                    p.kind.text,
                );
                if outcome is Ok {
                    lemma_committed(after, k, n - 3);
                } else {
                    lemma_rolled_back(after, k, n - 3);
                }
            }
        },
    }
}

impl EditorCore {
    /// Queues a replacement. The version is recorded, not checked: a proposal
    /// that has gone stale is found out when it is accepted.
    pub fn propose_replace_range(
        &mut self,
        buffer_id: u64,
        version: u64,
        range: CharRange,
        text: String,
        intent: String,
    ) -> (r: Result<ProposalId, EditorError>)
        requires
            runtime::well_formed(old(self)@),
            runtime::room(old(self)@, 1),
        ensures
            runtime::well_formed(final(self)@),
            match runtime::place_of(old(self)@.entries, buffer_id) {
                Some(_) => {
                    &&& r == Ok::<ProposalId, EditorError>(
                        ProposalId(old(self)@.proposals.next_id),
                    )
                    &&& final(self)@ == proposed(
                        old(self)@,
                        buffer_id,
                        intent@,
                        (proposals::ReplaceModel {
                            version,
                            start: range.start as int,
                            end: range.end as int,
                            text: text@,
                        }),
                    )
                },
                None => {
                    &&& r == Err::<ProposalId, _>(EditorError::UnknownBuffer { id: buffer_id })
                    &&& final(self)@ == old(self)@
                },
            },
    {
        if self.find(buffer_id).is_none() {
            return Err(EditorError::UnknownBuffer { id: buffer_id });
        }
        Ok(
            self.proposals.enqueue(
                PendingProposal {
                    buffer_id,
                    intent,
                    kind: ProposalKind::ReplaceRange {
                        version,
                        start: range.start,
                        end: range.end,
                        text,
                    },
                },
            ),
        )
    }

    /// The queued proposals, in the order of their ids.
    pub fn proposals_list(&self) -> (r: Vec<Proposal>)
        ensures
            proposals::proposal_views(r@) == self@.proposals.queue,
    {
        self.proposals.list()
    }

    /// Runs a proposal as a transaction with the proposal's intent.
    pub fn proposal_accept(&mut self, id: ProposalId) -> (r: Result<u64, EditorError>)
        requires
            runtime::well_formed(old(self)@),
            runtime::room(old(self)@, 5),
        ensures
            runtime::well_formed(final(self)@),
            exists|at: tx::Moment|
                tx::proper(at) && (final(self)@, r) == accept_result(
                    #[trigger] runtime::clocked(old(self)@, at),
                    id.0,
                ),
    {
        self.tick();
        self.accept(id)
    }

    /// The same, with the moment that the clock was last read at.
    pub(crate) fn accept(&mut self, id: ProposalId) -> (r: Result<u64, EditorError>)
        requires
            runtime::well_formed(old(self)@),
            runtime::room(old(self)@, 5),
        ensures
            runtime::well_formed(final(self)@),
            final(self)@ == accept_result(old(self)@, id.0).0,
            r == accept_result(old(self)@, id.0).1,
    {
        let ghost m = self@;
        proof {
            lemma_accept(m, id.0, 5);
            proposals::lemma_place_of(m.proposals.queue, id.0);
        }
        let p = match self.proposals.take(id) {
            Some(p) => p,
            None => {
                return Err(EditorError::UnknownProposal { id: id.0 });
            },
        };
        let ghost taken = withdrawn(m, id.0);
        assert(self@ == taken);
        let ProposalKind::ReplaceRange { version, start, end, text } = p.kind.duplicate();
        let range = CharRange { start, end };
        let tx_id = match self.tx_begin(p.buffer_id, p.intent.clone(), None) {
            Ok(t) => t,
            Err(e) => {
                let _ = self.proposals.enqueue(
                    PendingProposal { buffer_id: p.buffer_id, intent: p.intent, kind: p.kind },
                );
                return Err(e);
            },
        };
        let ghost open = self@;
        let ghost k = runtime::place_of(taken.entries, p.buffer_id)->Some_0;
        proof {
            runtime::lemma_place_of(taken.entries, p.buffer_id);
            lemma_begun(taken, k, p.intent@, None, 5);
            lemma_replace_range_keeps(open, k, version, range, text@, 4);
        }
        match self.replace_range(p.buffer_id, version, range, &text) {
            Ok(new_version) => {
                proof {
                    runtime::lemma_place_of(self@.entries, p.buffer_id);
                    assert(self@.entries[k].id == p.buffer_id);
                }
                let _ = self.end_committed(tx_id);
                Ok(new_version)
            },
            Err(e) => {
                proof {
                    lemma_rolled_back(open, k, 2);
                }
                let _ = self.tx_rollback(tx_id);
                let _ = self.proposals.enqueue(
                    PendingProposal { buffer_id: p.buffer_id, intent: p.intent, kind: p.kind },
                );
                Err(e)
            },
        }
    }

    /// Drops a proposal.
    pub fn proposal_reject(&mut self, id: ProposalId) -> (r: Result<(), EditorError>)
        requires
            runtime::well_formed(old(self)@),
        ensures
            runtime::well_formed(final(self)@),
            match proposals::place_of(old(self)@.proposals.queue, id.0) {
                Some(_) => r is Ok && final(self)@ == withdrawn(old(self)@, id.0),
                None => {
                    &&& r == Err::<(), _>(EditorError::UnknownProposal { id: id.0 })
                    &&& final(self)@ == old(self)@
                },
            },
    {
        match self.proposals.take(id) {
            Some(_) => Ok(()),
            None => Err(EditorError::UnknownProposal { id: id.0 }),
        }
    }

    /// Accepts every queued proposal in the order of the ids, and goes on past
    /// those that do not fit.
    pub fn proposals_accept_all(&mut self) -> (r: BulkAcceptResult)
        requires
            runtime::well_formed(old(self)@),
            runtime::room(old(self)@, 5 * old(self)@.proposals.queue.len() as int),
        ensures
            runtime::well_formed(final(self)@),
            exists|at: tx::Moment|
                tx::proper(at) && ({
                    let m = #[trigger] runtime::clocked(old(self)@, at);
                    let ids = queued_ids(m);
                    (final(self)@, r.accepted as nat, bulk_errors(r.errors@)) == accepted_upto(
                        m,
                        ids,
                        ids.len() as int,
                    )
                }),
    {
        self.tick();
        self.accept_all()
    }

    /// The same, with the moment that the clock was last read at.
    pub(crate) fn accept_all(&mut self) -> (r: BulkAcceptResult)
        requires
            runtime::well_formed(old(self)@),
            runtime::room(old(self)@, 5 * old(self)@.proposals.queue.len() as int),
        ensures
            runtime::well_formed(final(self)@),
            ({
                let ids = queued_ids(old(self)@);
                let (after, count, errors) = accepted_upto(old(self)@, ids, ids.len() as int);
                &&& final(self)@ == after
                &&& r.accepted == count
                &&& bulk_errors(r.errors@) == errors
            }),
    {
        let ghost m = self@;
        let ghost ids = queued_ids(m);
        let queued = self.proposals.list();
        let mut accepted: usize = 0;
        let mut errors: Vec<BulkAcceptError> = Vec::new();
        let mut i: usize = 0;
        assert(bulk_errors(errors@) =~= Seq::<(u64, Seq<char>)>::empty());
        while i < queued.len()
            invariant
                m == old(self)@,
                ids == queued_ids(m),
                proposals::proposal_views(queued@) == m.proposals.queue,
                i <= queued@.len() == ids.len(),
                accepted <= i,
                runtime::well_formed(self@),
                runtime::room(self@, 5 * (ids.len() - i)),
                accepted_upto(m, ids, i as int) == (
                    self@,
                    accepted as nat,
                    bulk_errors(errors@),
                ),
            decreases queued@.len() - i,
        {
            let id = queued[i].id;
            proof {
                assert(proposals::proposal_views(queued@)[i as int] == queued@[i as int]@);
                assert(ids[i as int] == id.0);
                lemma_accept(self@, id.0, 5 * (ids.len() - i));
            }
            let ghost before = bulk_errors(errors@);
            match self.accept(id) {
                Ok(_) => {
                    accepted += 1;
                },
                Err(e) => {
                    let message = e.message();
                    errors.push(BulkAcceptError { proposal_id: id, message });
                    assert(bulk_errors(errors@) =~= before.push((id.0, message@)));
                },
            }
            i += 1;
        }
        BulkAcceptResult { accepted, errors }
    }

    /// Drops every queued proposal and returns how many there were.
    pub fn proposals_reject_all(&mut self) -> (r: usize)
        requires
            runtime::well_formed(old(self)@),
        ensures
            runtime::well_formed(final(self)@),
            r == old(self)@.proposals.queue.len(),
            final(self)@ == (runtime::CoreModel {
                proposals: proposals::QueueModel {
                    queue: Seq::<proposals::ProposalModel>::empty(),
                    ..old(self)@.proposals
                },
                ..old(self)@
            }),
    {
        let ghost m = self@;
        let queued = self.proposals.list();
        let mut rejected: usize = 0;
        let mut i: usize = 0;
        assert(m.proposals.queue.skip(0) =~= m.proposals.queue);
        while i < queued.len()
            invariant
                m == old(self)@,
                runtime::well_formed(m),
                proposals::proposal_views(queued@) == m.proposals.queue,
                i <= queued@.len() == m.proposals.queue.len(),
                rejected == i,
                runtime::well_formed(self@),
                self@ == (runtime::CoreModel {
                    proposals: proposals::QueueModel {
                        queue: m.proposals.queue.skip(i as int),
                        ..m.proposals
                    },
                    ..m
                }),
            decreases queued@.len() - i,
        {
            let id = queued[i].id;
            proof {
                let rest = m.proposals.queue.skip(i as int);
                assert(proposals::proposal_views(queued@)[i as int] == queued@[i as int]@);
                assert(rest[0].id == id.0);
                proposals::lemma_place_of(rest, id.0);
                assert(rest.remove(0) =~= m.proposals.queue.skip(i + 1));
            }
            if self.proposal_reject(id).is_ok() {
                rejected += 1;
            }
            i += 1;
        }
        assert(m.proposals.queue.skip(i as int) =~= Seq::<proposals::ProposalModel>::empty());
        rejected
    }

    /// How many proposals are queued.
    pub fn proposals_count(&self) -> (r: usize)
        ensures
            r == self@.proposals.queue.len(),
    {
        self.proposals.count()
    }
}

} // verus!
