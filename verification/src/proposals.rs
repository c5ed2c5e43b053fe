//! Edits that were proposed and wait for a decision.

use vstd::prelude::*;

verus! {

#[derive(Clone, Copy, Debug, PartialEq, Eq, Hash, Structural)]
pub struct ProposalId(pub u64);

/// A queued proposal.
#[derive(Debug)]
pub struct Proposal {
    pub id: ProposalId,
    pub buffer_id: u64,
    pub intent: String,
    pub kind: ProposalKind,
}

/// What a proposal would do.
#[derive(Debug)]
pub enum ProposalKind {
    ReplaceRange {
        /// Buffer version the proposal was authored against. Accepting fails if
        /// the buffer has moved on.
        version: u64,
        start: usize,
        end: usize,
        text: String,
    },
}

/// A proposal that has no id yet.
pub struct PendingProposal {
    pub buffer_id: u64,
    pub intent: String,
    pub kind: ProposalKind,
}

/// What a proposal would replace.
pub struct ReplaceModel {
    pub version: u64,
    pub start: int,
    pub end: int,
    pub text: Seq<char>,
}

/// What a proposal is.
pub struct ProposalModel {
    pub id: u64,
    pub buffer_id: u64,
    pub intent: Seq<char>,
    pub kind: ReplaceModel,
}

impl View for ProposalKind {
    type V = ReplaceModel;

    open spec fn view(&self) -> ReplaceModel {
        match *self {
            ProposalKind::ReplaceRange { version, start, end, text } => ReplaceModel {
                version,
                start: start as int,
                end: end as int,
                text: text@,
            },
        }
    }
}

impl View for Proposal {
    type V = ProposalModel;

    open spec fn view(&self) -> ProposalModel {
        ProposalModel {
            id: self.id.0,
            buffer_id: self.buffer_id,
            intent: self.intent@,
            kind: self.kind@,
        }
    }
}

impl ProposalKind {
    /// A copy.
    pub fn duplicate(&self) -> (r: ProposalKind)
        ensures
            r@ == self@,
    {
        match self {
            ProposalKind::ReplaceRange { version, start, end, text } => ProposalKind::ReplaceRange {
                version: *version,
                start: *start,
                end: *end,
                text: text.clone(),
            },
        }
    }
}

impl Proposal {
    /// A copy.
    pub fn duplicate(&self) -> (r: Proposal)
        ensures
            r@ == self@,
    {
        Proposal {
            id: self.id,
            buffer_id: self.buffer_id,
            intent: self.intent.clone(),
            kind: self.kind.duplicate(),
        }
    }
}

pub open spec fn proposal_views(v: Seq<Proposal>) -> Seq<ProposalModel> {
    Seq::new(v.len(), |i: int| v[i]@)
}

/// The queue, in the order of the ids.
pub struct ProposalQueue {
    next_id: u64,
    proposals: Vec<Proposal>,
}

/// What the queue is.
#[verifier::ext_equal]
pub struct QueueModel {
    pub next_id: u64,
    pub queue: Seq<ProposalModel>,
}

impl View for ProposalQueue {
    type V = QueueModel;

    closed spec fn view(&self) -> QueueModel {
        QueueModel { next_id: self.next_id, queue: proposal_views(self.proposals@) }
    }
}

/// The ids ascend and lie below the next one.
pub open spec fn ascending(m: QueueModel) -> bool {
    &&& forall|i: int| 0 <= i < m.queue.len() ==> (#[trigger] m.queue[i]).id < m.next_id
    &&& forall|i: int, j: int|
        0 <= i < j < m.queue.len() ==> (#[trigger] m.queue[i]).id < (#[trigger] m.queue[j]).id
}

/// The place of proposal `id` in the queue.
pub open spec fn place_of(queue: Seq<ProposalModel>, id: u64) -> Option<int>
    decreases queue.len(),
{
    if queue.len() == 0 {
        None
    } else if queue[0].id == id {
        Some(0int)
    } else {
        match place_of(queue.skip(1), id) {
            Some(i) => Some(i + 1),
            None => None,
        }
    }
}

pub open spec fn after_enqueue(
    m: QueueModel,
    buffer_id: u64,
    intent: Seq<char>,
    kind: ReplaceModel,
) -> QueueModel {
    QueueModel {
        next_id: (m.next_id + 1) as u64,
        queue: m.queue.push(ProposalModel { id: m.next_id, buffer_id, intent, kind }),
    }
}

pub open spec fn after_take(m: QueueModel, id: u64) -> QueueModel {
    match place_of(m.queue, id) {
        Some(k) => QueueModel { queue: m.queue.remove(k), ..m },
        None => m,
    }
}

pub proof fn lemma_place_of(queue: Seq<ProposalModel>, id: u64)
    ensures
        match place_of(queue, id) {
            Some(k) => 0 <= k < queue.len() && queue[k].id == id && forall|j: int|
                0 <= j < k ==> (#[trigger] queue[j]).id != id,
            None => forall|j: int| 0 <= j < queue.len() ==> (#[trigger] queue[j]).id != id,
        },
    decreases queue.len(),
{
    if queue.len() > 0 && queue[0].id != id {
        let rest = queue.skip(1);
        lemma_place_of(rest, id);
        match place_of(rest, id) {
            Some(k) => {
                assert forall|j: int| 0 <= j < k + 1 implies (#[trigger] queue[j]).id != id by {
                    if j > 0 {
                        assert(rest[j - 1].id != id);
                    }
                }
            },
            None => {
                assert forall|j: int| 0 <= j < queue.len() implies (#[trigger] queue[j]).id
                    != id by {
                    if j > 0 {
                        assert(rest[j - 1].id != id);
                    }
                }
            },
        }
    }
}

impl ProposalQueue {
    /// Whether `n` more proposals can be numbered.
    pub fn has_room(&self, n: u64) -> (r: bool)
        ensures
            r == (self@.next_id + n <= u64::MAX),
    {
        self.next_id <= u64::MAX - n
    }

    pub fn new() -> (r: ProposalQueue)
        ensures
            r@ == (QueueModel { next_id: 1, queue: Seq::<ProposalModel>::empty() }),
            ascending(r@),
    {
        ProposalQueue { next_id: 1, proposals: Vec::new() }
    }

    /// Adds a proposal under the next id.
    pub fn enqueue(&mut self, pending: PendingProposal) -> (r: ProposalId)
        requires
            old(self)@.next_id < u64::MAX,
        ensures
            r.0 == old(self)@.next_id,
            final(self)@ == after_enqueue(
                old(self)@,
                pending.buffer_id,
                pending.intent@,
                pending.kind@,
            ),
            ascending(old(self)@) ==> ascending(final(self)@),
    {
        let ghost before = self@;
        let id = ProposalId(self.next_id);
        self.next_id += 1;
        self.proposals.push(
            Proposal {
                id,
                buffer_id: pending.buffer_id,
                intent: pending.intent,
                kind: pending.kind,
            },
        );
        assert(self@ =~= after_enqueue(
            before,
            pending.buffer_id,
            pending.intent@,
            pending.kind@,
        ));
        id
    }

    /// Copies of the queued proposals, in the order of their ids.
    pub fn list(&self) -> (r: Vec<Proposal>)
        ensures
            proposal_views(r@) == self@.queue,
    {
        let mut r: Vec<Proposal> = Vec::new();
        let mut i: usize = 0;
        while i < self.proposals.len()
            invariant
                i <= self.proposals@.len(),
                proposal_views(r@) == self@.queue.take(i as int),
            decreases self.proposals@.len() - i,
        {
            let ghost before = proposal_views(r@);
            r.push(self.proposals[i].duplicate());
            assert(proposal_views(r@) =~= before.push(self@.queue[i as int]));
            i += 1;
            assert(self@.queue.take(i as int) =~= before.push(self@.queue[i - 1]));
        }
        assert(self@.queue.take(i as int) =~= self@.queue);
        r
    }

    /// Removes and returns the proposal, or `None` if no such id.
    pub fn take(&mut self, id: ProposalId) -> (r: Option<Proposal>)
        ensures
            final(self)@ == after_take(old(self)@, id.0),
            ascending(old(self)@) ==> ascending(final(self)@),
            match place_of(old(self)@.queue, id.0) {
                Some(k) => r is Some && r->Some_0@ == old(self)@.queue[k],
                None => r is None,
            },
    {
        let ghost before = self@;
        proof {
            lemma_place_of(before.queue, id.0);
        }
        let mut i: usize = 0;
        while i < self.proposals.len()
            invariant
                *self == *old(self),
                before == self@,
                i <= self.proposals@.len(),
                forall|j: int| 0 <= j < i ==> (#[trigger] before.queue[j]).id != id.0,
            decreases self.proposals@.len() - i,
        {
            if self.proposals[i].id.0 == id.0 {
                proof {
                    lemma_place_of(before.queue, id.0);
                    assert(before.queue[i as int].id == id.0);
                }
                let p = self.proposals.remove(i);
                assert(self@ =~= after_take(before, id.0));
                return Some(p);
            }
            assert(before.queue[i as int].id != id.0);
            i += 1;
        }
        None
    }

    pub fn count(&self) -> (r: usize)
        ensures
            r == self@.queue.len(),
    {
        self.proposals.len()
    }
}

/// A proposal that was just queued can be taken out, which leaves the rest of
/// the queue as it was.
pub proof fn law_take_undoes_enqueue(
    m: QueueModel,
    buffer_id: u64,
    intent: Seq<char>,
    kind: ReplaceModel,
)
    requires
        ascending(m),
        m.next_id < u64::MAX,
    ensures
        after_take(after_enqueue(m, buffer_id, intent, kind), m.next_id).queue == m.queue,
{
    let queued = after_enqueue(m, buffer_id, intent, kind);
    lemma_place_of(queued.queue, m.next_id);
    let n = m.queue.len() as int;
    assert(queued.queue[n].id == m.next_id);
    assert(queued.queue.remove(n) =~= m.queue);
}

/// Taking the same id twice finds nothing the second time.
pub proof fn law_take_is_once(m: QueueModel, id: u64)
    requires
        ascending(m),
    ensures
        place_of(after_take(m, id).queue, id) is None,
{
    lemma_place_of(m.queue, id);
    lemma_place_of(after_take(m, id).queue, id);
}

} // verus!
