//! Transactions over buffers, and the flat history of those that were
//! committed.
//!
//! A transaction has a stated intent. `commit` records it in the history;
//! `rollback` brings the buffer back to what it was at `begin`.

use std::time::{Duration, SystemTime};

use vstd::prelude::*;

use crate::buffer;
use crate::buffer::{Buffer, BufferSnapshot};
use crate::error::EditorError;
use crate::scan;

verus! {

#[derive(Clone, Copy, Debug, PartialEq, Eq, Hash, Structural)]
pub struct TxId(pub u64);

#[derive(Clone, Copy, Debug, PartialEq, Eq, Hash, Structural)]
pub struct ChangeId(pub u64);

#[verifier::external_type_specification]
#[verifier::external_body]
pub struct ExSystemTime(std::time::SystemTime);

/// `SystemTime::now`. Nothing is claimed of the moment it returns.
#[verifier::external_body]
fn now() -> (r: SystemTime) {
    SystemTime::now()
}

/// `SystemTime::duration_since` the Unix epoch; there is none for a moment before it.
/// Which span belongs to which moment is not stated: a moment is whatever the clock
/// showed, and nothing is known of it here.
#[verifier::external_body]
fn since_epoch(t: &SystemTime) -> (r: Option<Duration>) {
    t.duration_since(std::time::UNIX_EPOCH).ok()
}

/// `Duration::as_secs`: the whole seconds of a span. Which they are is not stated, for
/// nothing is known of the span.
pub assume_specification[ std::time::Duration::as_secs ](d: &Duration) -> (r: u64);

/// `Duration::subsec_nanos`: the nanoseconds of a span past its whole seconds, less
/// than a second's.
pub assume_specification[ std::time::Duration::subsec_nanos ](d: &Duration) -> (r: u32)
    ensures
        r < 1_000_000_000,
;

/// A moment: the seconds since the epoch, and the nanoseconds of the rest.
#[derive(Clone, Copy, Debug, PartialEq, Eq, Structural)]
pub struct Moment {
    pub secs: u64,
    pub nanos: u32,
}

/// Less than a second's nanoseconds go with the seconds.
pub open spec fn proper(at: Moment) -> bool {
    at.nanos < 1_000_000_000
}

/// What the clock shows; a clock that is set before the epoch shows the epoch.
fn read_clock() -> (r: Moment)
    ensures
        proper(r),
{
    match since_epoch(&now()) {
        Some(d) => Moment { secs: d.as_secs(), nanos: d.subsec_nanos() },
        None => Moment { secs: 0, nanos: 0 },
    }
}

struct ActiveTx {
    tx_id: TxId,
    intent: String,
    conversation_id: Option<String>,
    pre_version: u64,
    snapshot: BufferSnapshot,
}

/// What an open transaction is.
pub struct ActiveModel {
    pub tx: u64,
    pub intent: Seq<char>,
    pub conversation: Option<Seq<char>>,
    pub pre_version: u64,
    pub snapshot: buffer::SnapshotModel,
}

/// One committed transaction.
pub struct Change {
    pub change_id: ChangeId,
    pub tx_id: TxId,
    pub intent: String,
    pub conversation_id: Option<String>,
    pub timestamp: Moment,
    pub files: Vec<String>,
}

/// What a history entry says.
pub struct ChangeModel {
    pub change: u64,
    pub tx: u64,
    pub intent: Seq<char>,
    pub conversation: Option<Seq<char>>,
    pub at: Moment,
    pub files: Seq<Seq<char>>,
}

/// The transactions, the history, and the moment that is recorded with what is
/// committed next.
pub struct TxManager {
    now: Moment,
    next_tx: u64,
    next_change: u64,
    active: Vec<ActiveTx>,
    history: Vec<Change>,
}

/// What the transactions and the history are.
#[verifier::ext_equal]
pub struct TxModel {
    pub now: Moment,
    pub next_tx: u64,
    pub next_change: u64,
    pub active: Seq<ActiveModel>,
    pub history: Seq<ChangeModel>,
}

impl View for ActiveTx {
    type V = ActiveModel;

    closed spec fn view(&self) -> ActiveModel {
        ActiveModel {
            tx: self.tx_id.0,
            intent: self.intent@,
            conversation: buffer::option_view(self.conversation_id),
            pre_version: self.pre_version,
            snapshot: self.snapshot@,
        }
    }
}

impl View for Change {
    type V = ChangeModel;

    open spec fn view(&self) -> ChangeModel {
        ChangeModel {
            change: self.change_id.0,
            tx: self.tx_id.0,
            intent: self.intent@,
            conversation: buffer::option_view(self.conversation_id),
            at: self.timestamp,
            files: scan::string_views(self.files@),
        }
    }
}

pub open spec fn change_views(v: Seq<Change>) -> Seq<ChangeModel> {
    Seq::new(v.len(), |i: int| v[i]@)
}

impl View for TxManager {
    type V = TxModel;

    closed spec fn view(&self) -> TxModel {
        TxModel {
            now: self.now,
            next_tx: self.next_tx,
            next_change: self.next_change,
            active: Seq::new(self.active@.len(), |i: int| self.active@[i]@),
            history: change_views(self.history@),
        }
    }
}

/// The place of the open transaction `tx` among the open ones.
pub open spec fn place_of(active: Seq<ActiveModel>, tx: u64) -> Option<int>
    decreases active.len(),
{
    if active.len() == 0 {
        None
    } else if active[0].tx == tx {
        Some(0int)
    } else {
        match place_of(active.skip(1), tx) {
            Some(i) => Some(i + 1),
            None => None,
        }
    }
}

pub open spec fn after_begin(
    m: TxModel,
    intent: Seq<char>,
    conversation: Option<Seq<char>>,
    b: buffer::BufferModel,
) -> TxModel {
    TxModel {
        next_tx: (m.next_tx + 1) as u64,
        active: m.active.push(
            ActiveModel {
                tx: m.next_tx,
                intent,
                conversation,
                pre_version: b.version,
                snapshot: buffer::snapshot_of(b),
            },
        ),
        ..m
    }
}

/// The files that a change to buffer `b` touches.
pub open spec fn files_of(b: buffer::BufferModel) -> Seq<Seq<char>> {
    match b.path {
        Some(p) => seq![p],
        None => Seq::empty(),
    }
}

/// The same at another moment.
pub open spec fn at_moment(m: TxModel, at: Moment) -> TxModel {
    TxModel { now: at, ..m }
}

/// The history entry that committing the open transaction at place `k` makes.
pub open spec fn change_of(m: TxModel, k: int, b: buffer::BufferModel) -> ChangeModel {
    ChangeModel {
        change: m.next_change,
        tx: m.active[k].tx,
        intent: m.active[k].intent,
        conversation: m.active[k].conversation,
        at: m.now,
        files: files_of(b),
    }
}

pub open spec fn without(m: TxModel, k: int) -> TxModel {
    TxModel { active: m.active.remove(k), ..m }
}

pub open spec fn after_commit(m: TxModel, k: int, b: buffer::BufferModel) -> TxModel {
    TxModel {
        next_change: (m.next_change + 1) as u64,
        active: m.active.remove(k),
        history: m.history.push(change_of(m, k, b)),
        ..m
    }
}

/// The last `limit` entries of the history.
pub open spec fn recent_of(history: Seq<ChangeModel>, limit: int) -> Seq<ChangeModel> {
    if limit >= history.len() {
        history
    } else {
        history.skip(history.len() - limit)
    }
}

pub proof fn lemma_place_of(active: Seq<ActiveModel>, tx: u64)
    ensures
        match place_of(active, tx) {
            Some(k) => 0 <= k < active.len() && active[k].tx == tx && forall|j: int|
                0 <= j < k ==> #[trigger] active[j].tx != tx,
            None => forall|j: int| 0 <= j < active.len() ==> #[trigger] active[j].tx != tx,
        },
    decreases active.len(),
{
    if active.len() > 0 && active[0].tx != tx {
        let rest = active.skip(1);
        lemma_place_of(rest, tx);
        match place_of(rest, tx) {
            Some(k) => {
                assert forall|j: int| 0 <= j < k + 1 implies #[trigger] active[j].tx != tx by {
                    if j > 0 {
                        assert(rest[j - 1].tx != tx);
                    }
                }
            },
            None => {
                assert forall|j: int| 0 <= j < active.len() implies #[trigger] active[j].tx
                    != tx by {
                    if j > 0 {
                        assert(rest[j - 1].tx != tx);
                    }
                }
            },
        }
    }
}

/// The place of a transaction, from any element that has its id with none
/// before it.
proof fn lemma_place_is(active: Seq<ActiveModel>, tx: u64, k: int)
    requires
        0 <= k < active.len(),
        active[k].tx == tx,
        forall|j: int| 0 <= j < k ==> #[trigger] active[j].tx != tx,
    ensures
        place_of(active, tx) == Some(k),
{
    lemma_place_of(active, tx);
}

/// No transaction was opened yet.
pub open spec fn empty_tx() -> TxModel {
    TxModel {
        now: Moment { secs: 0, nanos: 0 },
        next_tx: 1,
        next_change: 1,
        active: Seq::<ActiveModel>::empty(),
        history: Seq::<ChangeModel>::empty(),
    }
}

impl TxManager {
    /// Whether the two counters can go up `n` times.
    pub fn has_room(&self, n: u64) -> (r: bool)
        ensures
            r == (self@.next_tx + n <= u64::MAX && self@.next_change + n <= u64::MAX),
    {
        self.next_tx <= u64::MAX - n && self.next_change <= u64::MAX - n
    }

    pub fn new() -> (r: TxManager)
        ensures
            r@ == empty_tx(),
    {
        TxManager {
            now: Moment { secs: 0, nanos: 0 },
            next_tx: 1,
            next_change: 1,
            active: Vec::new(),
            history: Vec::new(),
        }
    }

    /// Reads the clock. Which moment it shows is not stated.
    pub fn tick(&mut self)
        ensures
            proper(final(self)@.now),
            final(self)@ == at_moment(old(self)@, final(self)@.now),
    {
        let ghost before = self@;
        self.now = read_clock();
        assert(self@ =~= at_moment(before, self@.now));
    }

    /// Opens a transaction on `buffer`.
    pub fn begin(
        &mut self,
        intent: String,
        conversation_id: Option<String>,
        buffer: &Buffer,
    ) -> (r: TxId)
        requires
            old(self)@.next_tx < u64::MAX,
        ensures
            r.0 == old(self)@.next_tx,
            final(self)@ == after_begin(
                old(self)@,
                intent@,
                buffer::option_view(conversation_id),
                buffer@,
            ),
    {
        let ghost before = self@;
        let tx_id = TxId(self.next_tx);
        self.next_tx += 1;
        self.active.push(
            ActiveTx {
                tx_id,
                intent,
                conversation_id,
                pre_version: buffer.version(),
                snapshot: buffer.snapshot(),
            },
        );
        assert(self@ =~= after_begin(
            before,
            intent@,
            buffer::option_view(conversation_id),
            buffer@,
        ));
        tx_id
    }

    /// Records the transaction in the history, with the moment that the clock shows.
    pub fn commit(&mut self, tx_id: TxId, buffer: &Buffer) -> (r: Result<ChangeId, EditorError>)
        requires
            old(self)@.next_change < u64::MAX,
        ensures
            match place_of(old(self)@.active, tx_id.0) {
                Some(k) => {
                    &&& r == Ok::<ChangeId, EditorError>(ChangeId(old(self)@.next_change))
                    &&& proper(final(self)@.now)
                    &&& final(self)@ == after_commit(
                        at_moment(old(self)@, final(self)@.now),
                        k,
                        buffer@,
                    )
                },
                None => {
                    &&& r == Err::<ChangeId, _>(EditorError::UnknownTransaction { tx: tx_id.0 })
                    &&& final(self)@ == old(self)@
                },
            },
    {
        if self.find(tx_id).is_some() {
            self.tick();
        }
        self.record(tx_id, buffer)
    }

    /// Records the transaction in the history, with the moment that the clock was
    /// last read at.
    pub fn record(&mut self, tx_id: TxId, buffer: &Buffer) -> (r: Result<ChangeId, EditorError>)
        requires
            old(self)@.next_change < u64::MAX,
        ensures
            match place_of(old(self)@.active, tx_id.0) {
                Some(k) => {
                    &&& r == Ok::<ChangeId, EditorError>(ChangeId(old(self)@.next_change))
                    &&& final(self)@ == after_commit(old(self)@, k, buffer@)
                },
                None => {
                    &&& r == Err::<ChangeId, _>(EditorError::UnknownTransaction { tx: tx_id.0 })
                    &&& final(self)@ == old(self)@
                },
            },
    {
        let ghost before = self@;
        match self.take(tx_id) {
            Ok(tx) => {
                let change_id = ChangeId(self.next_change);
                self.next_change += 1;
                let mut files: Vec<String> = Vec::new();
                if let Some(p) = buffer.path() {
                    files.push(p.to_string());
                }
                assert(scan::string_views(files@) =~= files_of(buffer@));
                let ghost old_history = self.history@;
                self.history.push(
                    Change {
                        change_id,
                        tx_id: tx.tx_id,
                        intent: tx.intent,
                        conversation_id: tx.conversation_id,
                        timestamp: self.now,
                        files,
                    },
                );
                proof {
                    let k = place_of(before.active, tx_id.0)->Some_0;
                    assert(change_views(self.history@) =~= change_views(old_history).push(
                        change_of(before, k, buffer@),
                    ));
                    assert(self@ =~= after_commit(before, k, buffer@));
                }
                Ok(change_id)
            },
            Err(e) => Err(e),
        }
    }

    /// Brings `buffer` back to its state at `begin` and drops the transaction.
    pub fn rollback(&mut self, tx_id: TxId, buffer: &mut Buffer) -> (r: Result<(), EditorError>)
        ensures
            match place_of(old(self)@.active, tx_id.0) {
                Some(k) => {
                    &&& r == Ok::<(), EditorError>(())
                    &&& final(self)@ == without(old(self)@, k)
                    &&& final(buffer)@ == buffer::after_restore(
                        old(buffer)@,
                        old(self)@.active[k].snapshot,
                    )
                },
                None => {
                    &&& r == Err::<(), _>(EditorError::UnknownTransaction { tx: tx_id.0 })
                    &&& final(self)@ == old(self)@
                    &&& final(buffer)@ == old(buffer)@
                },
            },
    {
        match self.take(tx_id) {
            Ok(tx) => {
                buffer.restore(tx.snapshot);
                Ok(())
            },
            Err(e) => Err(e),
        }
    }

    /// Drops the transaction without committing or restoring.
    pub fn discard(&mut self, tx_id: TxId) -> (r: Result<(), EditorError>)
        ensures
            match place_of(old(self)@.active, tx_id.0) {
                Some(k) => {
                    &&& r == Ok::<(), EditorError>(())
                    &&& final(self)@ == without(old(self)@, k)
                },
                None => {
                    &&& r == Err::<(), _>(EditorError::UnknownTransaction { tx: tx_id.0 })
                    &&& final(self)@ == old(self)@
                },
            },
    {
        match self.take(tx_id) {
            Ok(_) => Ok(()),
            Err(e) => Err(e),
        }
    }

    /// The most recent `limit` history entries, oldest first.
    pub fn recent(&self, limit: usize) -> (r: &[Change])
        ensures
            change_views(r@) == recent_of(self@.history, limit as int),
    {
        let n: usize = self.history.len();
        let start: usize = n.saturating_sub(limit);
        let r = vstd::slice::slice_subrange(self.history.as_slice(), start, n);
        assert(change_views(r@) =~= recent_of(self@.history, limit as int));
        r
    }

    /// The buffer version at the `begin` of an open transaction.
    pub fn pre_version(&self, tx_id: TxId) -> (r: Option<u64>)
        ensures
            r == match place_of(self@.active, tx_id.0) {
                Some(k) => Some(self@.active[k].pre_version),
                None => None,
            },
    {
        match self.find(tx_id) {
            Some(k) => Some(self.active[k].pre_version),
            None => None,
        }
    }

    fn find(&self, tx_id: TxId) -> (r: Option<usize>)
        ensures
            match r {
                Some(k) => k < self.active@.len() && place_of(self@.active, tx_id.0) == Some(
                    k as int,
                ),
                None => place_of(self@.active, tx_id.0) is None,
            },
    {
        let mut i: usize = 0;
        while i < self.active.len()
            invariant
                i <= self.active@.len(),
                forall|j: int| 0 <= j < i ==> #[trigger] self@.active[j].tx != tx_id.0,
            decreases self.active@.len() - i,
        {
            if self.active[i].tx_id.0 == tx_id.0 {
                proof {
                    assert(self@.active[i as int].tx == tx_id.0);
                    lemma_place_is(self@.active, tx_id.0, i as int);
                }
                return Some(i);
            }
            assert(self@.active[i as int].tx != tx_id.0);
            i += 1;
        }
        proof {
            lemma_place_of(self@.active, tx_id.0);
        }
        None
    }

    fn take(&mut self, tx_id: TxId) -> (r: Result<ActiveTx, EditorError>)
        ensures
            match place_of(old(self)@.active, tx_id.0) {
                Some(k) => {
                    &&& r is Ok
                    &&& r->Ok_0@ == old(self)@.active[k]
                    &&& final(self)@ == without(old(self)@, k)
                },
                None => {
                    &&& r == Err::<ActiveTx, _>(EditorError::UnknownTransaction { tx: tx_id.0 })
                    &&& final(self)@ == old(self)@
                },
            },
    {
        let ghost before = self@;
        match self.find(tx_id) {
            Some(k) => {
                let tx = self.active.remove(k);
                assert(self@ =~= without(before, k as int));
                Ok(tx)
            },
            None => Err(EditorError::UnknownTransaction { tx: tx_id.0 }),
        }
    }
}

// ------------------------------------------------------------------------ laws

/// Ids are handed out in order: open transactions have distinct ids below the
/// next one, and history entries are numbered from one without a gap.
pub open spec fn orderly(m: TxModel) -> bool {
    &&& forall|i: int| 0 <= i < m.active.len() ==> #[trigger] m.active[i].tx < m.next_tx
    &&& forall|i: int, j: int|
        0 <= i < j < m.active.len() ==> #[trigger] m.active[i].tx < #[trigger] m.active[j].tx
    &&& forall|i: int|
        0 <= i < m.history.len() ==> (#[trigger] m.history[i]).change as int == i + 1
    &&& m.next_change as int == m.history.len() + 1
}

/// Every operation keeps the ids in order.
pub proof fn law_ids_stay_orderly(
    m: TxModel,
    intent: Seq<char>,
    conversation: Option<Seq<char>>,
    b: buffer::BufferModel,
    k: int,
)
    requires
        orderly(m),
        m.next_tx < u64::MAX,
        m.next_change < u64::MAX,
    ensures
        orderly(after_begin(m, intent, conversation, b)),
        0 <= k < m.active.len() ==> orderly(after_commit(m, k, b)),
        0 <= k < m.active.len() ==> orderly(without(m, k)),
{
}

/// A transaction that was just opened can be committed: exactly one entry, with
/// its intent, is added at the end of the history.
pub proof fn law_commit_appends_one_entry(
    m: TxModel,
    intent: Seq<char>,
    conversation: Option<Seq<char>>,
    b: buffer::BufferModel,
    later: buffer::BufferModel,
)
    requires
        orderly(m),
        m.next_tx < u64::MAX,
    ensures
        ({
            let open = after_begin(m, intent, conversation, b);
            let k = place_of(open.active, m.next_tx);
            &&& k == Some(m.active.len() as int)
            &&& after_commit(open, k->Some_0, later).history == m.history.push(
                ChangeModel {
                    change: m.next_change,
                    tx: m.next_tx,
                    intent,
                    conversation,
                    at: m.now,
                    files: files_of(later),
                },
            )
            &&& after_commit(open, k->Some_0, later).active == m.active
        }),
{
    let open = after_begin(m, intent, conversation, b);
    lemma_place_is(open.active, m.next_tx, m.active.len() as int);
    assert(open.active.remove(m.active.len() as int) =~= m.active);
}

/// Rolling back gives the buffer the text it had at `begin`, whatever was done
/// to it since, and leaves no trace in the history.
pub proof fn law_rollback_restores_text(
    m: TxModel,
    intent: Seq<char>,
    conversation: Option<Seq<char>>,
    b: buffer::BufferModel,
    later: buffer::BufferModel,
)
    requires
        orderly(m),
        m.next_tx < u64::MAX,
    ensures
        ({
            let open = after_begin(m, intent, conversation, b);
            let k = place_of(open.active, m.next_tx)->Some_0;
            let back = buffer::after_restore(later, open.active[k].snapshot);
            &&& back.text == b.text
            &&& back.dirty == b.dirty
            &&& back.version != later.version
            &&& without(open, k).history == m.history
            &&& without(open, k).active == m.active
        }),
{
    let open = after_begin(m, intent, conversation, b);
    lemma_place_is(open.active, m.next_tx, m.active.len() as int);
    assert(open.active.remove(m.active.len() as int) =~= m.active);
}

} // verus!
