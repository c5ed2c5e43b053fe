//! The shared editor runtime: the open buffers, their transactions and history,
//! the proposal queue, and what there is to tell the language servers.

use vstd::prelude::*;

use crate::buffer;
use crate::buffer::Buffer;
use crate::error;
use crate::error::{numbered, EditorError};
use crate::language;
use crate::language::Language;
use crate::lsp;
use crate::lsp::{path_to_uri, TextEdit};
use crate::proposals;
use crate::proposals::ProposalQueue;
use crate::protocol;
use crate::protocol::{
    apply_text_edits,
    BufferListEntry,
    BufferReadResponse,
    ByteRange,
    CharRange,
    SOLE_BUFFER_ID,
};
use crate::syntax;
use crate::syntax::Syntax;
use crate::test_runner;
use crate::test_runner::TestResults;
use crate::text;
use crate::tx;
use crate::tx::{TxId, TxManager};

pub mod facts;
pub mod insight;
pub mod laws;
pub mod rename;
pub mod requests;
pub mod approval;
pub mod screen;

verus! {

// ---------------------------------------------------------------------- models

/// What an open buffer is.
#[verifier::ext_equal]
pub struct EntryModel {
    pub id: u64,
    pub buffer: buffer::BufferModel,
    pub syntax: Option<syntax::SyntaxModel>,
    pub uri: Option<Seq<char>>,
    pub language: Option<Language>,
    pub lsp_version: int,
}

/// What a language server is to be told.
pub enum NoticeModel {
    Spawn { language: Language, path: Seq<char>, uri: Seq<char>, text: Seq<char> },
    Open { language: Language, uri: Seq<char>, text: Seq<char> },
    Change { language: Language, uri: Seq<char>, version: int, text: Seq<char> },
    Close { language: Language, uri: Seq<char> },
}

/// What the runtime is.
#[verifier::ext_equal]
pub struct CoreModel {
    pub next_id: u64,
    pub entries: Seq<EntryModel>,
    pub focus: Option<u64>,
    pub tx: tx::TxModel,
    pub explicit: Option<(u64, u64)>,
    pub running: Seq<Language>,
    pub proposals: proposals::QueueModel,
    pub last_results: Option<test_runner::ResultsModel>,
    pub outbox: Seq<NoticeModel>,
}

/// The place of buffer `id` among the open ones.
pub open spec fn place_of(entries: Seq<EntryModel>, id: u64) -> Option<int>
    decreases entries.len(),
{
    if entries.len() == 0 {
        None
    } else if entries[0].id == id {
        Some(0int)
    } else {
        match place_of(entries.skip(1), id) {
            Some(i) => Some(i + 1),
            None => None,
        }
    }
}

/// The language of the file that a buffer belongs to.
pub open spec fn path_language(path: Option<Seq<char>>) -> Option<Language> {
    match path {
        Some(p) => language::language_of(p),
        None => None,
    }
}

/// A buffer has a syntax where its language has a grammar. It is that of the text
/// that an edit last settled: a rename that fails can leave the text ahead of it.
pub open spec fn entry_ok(e: EntryModel) -> bool {
    &&& e.language == path_language(e.buffer.path)
    &&& e.syntax is Some <==> syntax::has_grammar(e.buffer.path)
    &&& e.syntax matches Some(x) ==> x.parsed is Some
}

/// Buffers are in the order of their ids, which lie below the next one; the
/// focused buffer is open, and there is one if any is; at most one transaction
/// is open.
pub open spec fn well_formed(m: CoreModel) -> bool {
    &&& m.next_id >= SOLE_BUFFER_ID
    &&& forall|i: int| 0 <= i < m.entries.len() ==> (#[trigger] m.entries[i]).id < m.next_id
    &&& forall|i: int, j: int|
        0 <= i < j < m.entries.len() ==> (#[trigger] m.entries[i]).id < (
        #[trigger] m.entries[j]).id
    &&& forall|i: int| 0 <= i < m.entries.len() ==> entry_ok(#[trigger] m.entries[i])
    &&& match m.focus {
        Some(f) => place_of(m.entries, f) is Some,
        None => m.entries.len() == 0,
    }
    &&& tx::orderly(m.tx)
    &&& match m.explicit {
        Some((t, _)) => m.tx.active.len() == 1 && m.tx.active[0].tx == t,
        None => m.tx.active.len() == 0,
    }
    &&& proposals::ascending(m.proposals)
}

/// The same runtime at another moment.
pub open spec fn clocked(m: CoreModel, at: tx::Moment) -> CoreModel {
    CoreModel { tx: tx::at_moment(m.tx, at), ..m }
}

/// The runtime without buffers.
pub open spec fn empty_core() -> CoreModel {
    CoreModel {
        next_id: SOLE_BUFFER_ID,
        entries: Seq::<EntryModel>::empty(),
        focus: None,
        tx: tx::empty_tx(),
        explicit: None,
        running: Seq::<Language>::empty(),
        proposals: proposals::QueueModel {
            next_id: 1,
            queue: Seq::<proposals::ProposalModel>::empty(),
        },
        last_results: None,
        outbox: Seq::<NoticeModel>::empty(),
    }
}

/// Every counter can go up `n` more times.
pub open spec fn room(m: CoreModel, n: int) -> bool {
    &&& m.next_id + n <= u64::MAX
    &&& m.tx.next_tx + n <= u64::MAX
    &&& m.tx.next_change + n <= u64::MAX
    &&& m.proposals.next_id + n <= u64::MAX
    &&& forall|i: int|
        0 <= i < m.entries.len() ==> (#[trigger] m.entries[i]).lsp_version + n <= i32::MAX
}

pub proof fn lemma_place_of(entries: Seq<EntryModel>, id: u64)
    ensures
        match place_of(entries, id) {
            Some(k) => 0 <= k < entries.len() && entries[k].id == id && forall|j: int|
                0 <= j < k ==> (#[trigger] entries[j]).id != id,
            None => forall|j: int| 0 <= j < entries.len() ==> (#[trigger] entries[j]).id != id,
        },
    decreases entries.len(),
{
    if entries.len() > 0 && entries[0].id != id {
        let rest = entries.skip(1);
        lemma_place_of(rest, id);
        match place_of(rest, id) {
            Some(k) => {
                assert forall|j: int| 0 <= j < k + 1 implies (#[trigger] entries[j]).id != id by {
                    if j > 0 {
                        assert(rest[j - 1].id != id);
                    }
                }
            },
            None => {
                assert forall|j: int| 0 <= j < entries.len() implies (#[trigger] entries[j]).id
                    != id by {
                    if j > 0 {
                        assert(rest[j - 1].id != id);
                    }
                }
            },
        }
    }
}

// ---------------------------------------------------------------------- types

/// Something to tell a language server.
#[derive(Debug)]
pub enum ServerNotice {
    /// Start the server of a language for the workspace of a file.
    Spawn { language: Language, path: String, uri: String, text: String },
    Open { language: Language, uri: String, text: String },
    Change { language: Language, uri: String, version: i32, text: String },
    Close { language: Language, uri: String },
}

impl View for ServerNotice {
    type V = NoticeModel;

    open spec fn view(&self) -> NoticeModel {
        match *self {
            ServerNotice::Spawn { language, path, uri, text } => NoticeModel::Spawn {
                language,
                path: path@,
                uri: uri@,
                text: text@,
            },
            ServerNotice::Open { language, uri, text } => NoticeModel::Open {
                language,
                uri: uri@,
                text: text@,
            },
            ServerNotice::Change { language, uri, version, text } => NoticeModel::Change {
                language,
                uri: uri@,
                version: version as int,
                text: text@,
            },
            ServerNotice::Close { language, uri } => NoticeModel::Close { language, uri: uri@ },
        }
    }
}

pub open spec fn notice_views(v: Seq<ServerNotice>) -> Seq<NoticeModel> {
    Seq::new(v.len(), |i: int| v[i]@)
}

struct BufferEntry {
    id: u64,
    buffer: Buffer,
    syntax: Option<Syntax>,
    uri: Option<String>,
    language: Option<Language>,
    lsp_version: i32,
}

impl View for BufferEntry {
    type V = EntryModel;

    closed spec fn view(&self) -> EntryModel {
        EntryModel {
            id: self.id,
            buffer: self.buffer@,
            syntax: match self.syntax {
                Some(x) => Some(x@),
                None => None,
            },
            uri: buffer::option_view(self.uri),
            language: self.language,
            lsp_version: self.lsp_version as int,
        }
    }
}

pub struct EditorCore {
    next_buffer_id: u64,
    buffers: Vec<BufferEntry>,
    focus: Option<u64>,
    tx_manager: TxManager,
    explicit_tx: Option<(TxId, u64)>,
    servers: Vec<Language>,
    proposals: ProposalQueue,
    last_test_results: Option<TestResults>,
    outbox: Vec<ServerNotice>,
}

spec fn entry_views(v: Seq<BufferEntry>) -> Seq<EntryModel> {
    Seq::new(v.len(), |i: int| v[i]@)
}

impl View for EditorCore {
    type V = CoreModel;

    closed spec fn view(&self) -> CoreModel {
        CoreModel {
            next_id: self.next_buffer_id,
            entries: entry_views(self.buffers@),
            focus: self.focus,
            tx: self.tx_manager@,
            explicit: match self.explicit_tx {
                Some((t, b)) => Some((t.0, b)),
                None => None,
            },
            running: self.servers@,
            proposals: self.proposals@,
            last_results: match self.last_test_results {
                Some(r) => Some(r@),
                None => None,
            },
            outbox: notice_views(self.outbox@),
        }
    }
}

// ----------------------------------------------------------- model transitions

/// An entry with its syntax brought up to its text.
pub open spec fn refreshed(e: EntryModel) -> EntryModel {
    match e.syntax {
        Some(_) => EntryModel {
            syntax: Some(
                syntax::SyntaxModel {
                    parsed: Some(e.buffer.text),
                    cached_version: Some(e.buffer.version),
                    spans: syntax::text_spans(e.buffer.text),
                },
            ),
            buffer: buffer::BufferModel { edits: Seq::empty(), ..e.buffer },
            ..e
        },
        None => e,
    }
}

pub open spec fn with_entry(m: CoreModel, k: int, e: EntryModel) -> CoreModel {
    CoreModel { entries: m.entries.update(k, e), ..m }
}

/// The server that serves an entry is running, and the entry has an address.
pub open spec fn served(m: CoreModel, e: EntryModel) -> bool {
    &&& e.language matches Some(l) && m.running.contains(l)
    &&& e.uri is Some
}

/// The runtime after the server of entry `k`, if it is running, is told of the
/// entry's text.
pub open spec fn notified(m: CoreModel, k: int) -> CoreModel {
    let e = m.entries[k];
    if served(m, e) {
        CoreModel {
            entries: m.entries.update(k, EntryModel { lsp_version: e.lsp_version + 1, ..e }),
            outbox: m.outbox.push(
                NoticeModel::Change {
                    language: e.language->Some_0,
                    uri: e.uri->Some_0,
                    version: e.lsp_version + 1,
                    text: e.buffer.text,
                },
            ),
            ..m
        }
    } else {
        m
    }
}

/// The runtime after entry `k` was edited: its syntax is brought up to date, and
/// its server is told.
pub open spec fn settled(m: CoreModel, k: int) -> CoreModel {
    notified(with_entry(m, k, refreshed(m.entries[k])), k)
}

/// The entry of a file that was just read.
pub open spec fn opened_entry(
    id: u64,
    path: Seq<char>,
    absolute: Seq<char>,
    contents: Option<Seq<char>>,
) -> EntryModel {
    let b = buffer::BufferModel {
        text: match contents {
            Some(c) => c,
            None => Seq::empty(),
        },
        path: Some(path),
        version: 0,
        dirty: false,
        edits: Seq::empty(),
    };
    refreshed(
        EntryModel {
            id,
            buffer: b,
            syntax: if syntax::has_grammar(Some(path)) {
                Some(syntax::fresh_syntax())
            } else {
                None
            },
            uri: Some(lsp::uri_of(absolute)),
            language: language::language_of(path),
            lsp_version: 0,
        },
    )
}

/// What the servers are told of a file that was opened: the server of its
/// language gets the text, or is started.
pub open spec fn opening_notices(m: CoreModel, e: EntryModel) -> Seq<NoticeModel> {
    match e.language {
        Some(l) => if m.running.contains(l) {
            seq![
                NoticeModel::Open { language: l, uri: e.uri->Some_0, text: e.buffer.text },
            ]
        } else {
            seq![
                NoticeModel::Spawn {
                    language: l,
                    path: e.buffer.path->Some_0,
                    uri: e.uri->Some_0,
                    text: e.buffer.text,
                },
            ]
        },
        None => Seq::empty(),
    }
}

/// The runtime after a file was opened.
pub open spec fn after_open(m: CoreModel, e: EntryModel) -> CoreModel {
    CoreModel {
        next_id: (m.next_id + 1) as u64,
        entries: m.entries.push(e),
        focus: Some(m.next_id),
        outbox: m.outbox + opening_notices(m, e),
        ..m
    }
}

/// The runtime after entry `k` was closed: a closed buffer's focus goes to the
/// open buffer with the lowest id.
pub open spec fn after_close(m: CoreModel, k: int) -> CoreModel {
    let e = m.entries[k];
    let rest = m.entries.remove(k);
    CoreModel {
        entries: rest,
        focus: if m.focus == Some(e.id) {
            if rest.len() == 0 {
                None
            } else {
                Some(rest[0].id)
            }
        } else {
            m.focus
        },
        outbox: if served(m, e) {
            m.outbox.push(
                NoticeModel::Close { language: e.language->Some_0, uri: e.uri->Some_0 },
            )
        } else {
            m.outbox
        },
        ..m
    }
}

pub proof fn lemma_settled(m: CoreModel, k: int, n: int)
    requires
        well_formed(m),
        0 <= k < m.entries.len(),
        n >= 1,
        room(m, n),
    ensures
        well_formed(settled(m, k)),
        room(settled(m, k), n - 1),
        settled(m, k).entries.len() == m.entries.len(),
        settled(m, k).entries[k].buffer.text == m.entries[k].buffer.text,
        settled(m, k).entries[k].buffer.version == m.entries[k].buffer.version,
{
    let a = with_entry(m, k, refreshed(m.entries[k]));
    let b = notified(a, k);
    if let Some(f) = m.focus {
        lemma_place_of(m.entries, f);
        lemma_place_of(a.entries, f);
        lemma_place_of(b.entries, f);
        let p = place_of(m.entries, f)->Some_0;
        assert(a.entries[p].id == f);
        assert(b.entries[p].id == f);
    }
}

// -------------------------------------------------------------- implementation

impl BufferEntry {
    fn refresh(&mut self)
        ensures
            final(self)@ == refreshed(old(self)@),
    {
        match &mut self.syntax {
            Some(syn) => {
                syn.invalidate();
                syn.refresh(self.buffer.rope(), self.buffer.version());
                let _ = self.buffer.drain_edits();
            },
            None => {},
        }
    }
}

impl EditorCore {
    /// A runtime without buffers.
    pub fn new() -> (r: EditorCore)
        ensures
            well_formed(r@),
            r@ == empty_core(),
    {
        let r = EditorCore {
            next_buffer_id: SOLE_BUFFER_ID,
            buffers: Vec::new(),
            focus: None,
            tx_manager: TxManager::new(),
            explicit_tx: None,
            servers: Vec::new(),
            proposals: ProposalQueue::new(),
            last_test_results: None,
            outbox: Vec::new(),
        };
        assert(r@.entries =~= Seq::<EntryModel>::empty());
        assert(r@.outbox =~= Seq::<NoticeModel>::empty());
        r
    }

    /// Reads the clock: what is committed from now on is recorded with the moment
    /// that it shows. Which moment that is is not stated.
    pub fn tick(&mut self)
        requires
            well_formed(old(self)@),
        ensures
            well_formed(final(self)@),
            tx::proper(final(self)@.tx.now),
            final(self)@ == clocked(old(self)@, final(self)@.tx.now),
    {
        let ghost m = self@;
        self.tx_manager.tick();
        assert(self@.entries =~= m.entries);
        assert(self@.outbox =~= m.outbox);
    }

    fn find(&self, buffer_id: u64) -> (r: Option<usize>)
        ensures
            match r {
                Some(k) => place_of(self@.entries, buffer_id) == Some(k as int) && k
                    < self.buffers@.len() && k < self@.entries.len(),
                None => place_of(self@.entries, buffer_id) is None,
            },
    {
        let mut i: usize = 0;
        while i < self.buffers.len()
            invariant
                i <= self.buffers@.len(),
                forall|j: int| 0 <= j < i ==> (#[trigger] self@.entries[j]).id != buffer_id,
            decreases self.buffers@.len() - i,
        {
            proof {
                assert(self@.entries[i as int].id == self.buffers@[i as int].id);
            }
            if self.buffers[i].id == buffer_id {
                proof {
                    lemma_place_of(self@.entries, buffer_id);
                }
                return Some(i);
            }
            i += 1;
        }
        proof {
            lemma_place_of(self@.entries, buffer_id);
        }
        None
    }

    fn runs(&self, language: Language) -> (r: bool)
        ensures
            r == self@.running.contains(language),
    {
        let mut i: usize = 0;
        while i < self.servers.len()
            invariant
                i <= self.servers@.len(),
                forall|j: int| 0 <= j < i ==> self.servers@[j] != language,
            decreases self.servers@.len() - i,
        {
            if self.servers[i] == language {
                return true;
            }
            i += 1;
        }
        false
    }

    fn refresh_syntax(&mut self, k: usize)
        requires
            k < old(self)@.entries.len(),
        ensures
            final(self)@ == with_entry(
                old(self)@,
                k as int,
                refreshed(old(self)@.entries[k as int]),
            ),
    {
        let ghost before = self@;
        self.buffers[k].refresh();
        assert(self@.entries =~= before.entries.update(
            k as int,
            refreshed(before.entries[k as int]),
        ));
    }
}


// ------------------------------------------------------------------- buffers

/// What reading a buffer gives: its text, or the part of it in a range, and its
/// version.
pub open spec fn read_result(m: CoreModel, id: u64, range: Option<CharRange>) -> Result<
    (Seq<char>, u64),
    EditorError,
> {
    match place_of(m.entries, id) {
        None => Err(EditorError::UnknownBuffer { id }),
        Some(k) => {
            let b = m.entries[k].buffer;
            match range {
                None => Ok((b.text, b.version)),
                Some(r) => if r.start > r.end || r.end > b.text.len() {
                    Err(
                        EditorError::RangeOutside {
                            start: r.start,
                            end: r.end,
                            len: b.text.len() as usize,
                        },
                    )
                } else {
                    Ok((b.text.subrange(r.start as int, r.end as int), b.version))
                },
            }
        },
    }
}

/// One line of the buffer list.
pub open spec fn listed(e: BufferListEntry, m: EntryModel) -> bool {
    &&& e.id == m.id
    &&& buffer::option_view(e.path) == m.buffer.path
    &&& e.dirty == m.buffer.dirty
    &&& e.version == m.buffer.version
}

proof fn lemma_opened(m: CoreModel, e: EntryModel, n: int)
    requires
        well_formed(m),
        n >= 1,
        room(m, n),
        e.id == m.next_id,
        entry_ok(e),
        e.lsp_version == 0,
        n <= i32::MAX,
    ensures
        well_formed(after_open(m, e)),
        room(after_open(m, e), n - 1),
{
    let a = after_open(m, e);
    lemma_place_of(a.entries, m.next_id);
    assert(a.entries[m.entries.len() as int].id == m.next_id);
}

proof fn lemma_closed(m: CoreModel, k: int)
    requires
        well_formed(m),
        0 <= k < m.entries.len(),
    ensures
        well_formed(after_close(m, k)),
{
    let a = after_close(m, k);
    if let Some(f) = a.focus {
        lemma_place_of(a.entries, f);
        lemma_place_of(m.entries, f);
        if m.focus != Some(m.entries[k].id) {
            let p = place_of(m.entries, f)->Some_0;
            let q = if p < k {
                p
            } else {
                p - 1
            };
            assert(a.entries[q].id == f);
        } else {
            assert(a.entries[0].id == f);
        }
    }
}

impl EditorCore {
    /// Adds a buffer. `loaded` is what became of reading the file at `path`: its
    /// contents, or `None` where it does not exist; `absolute` is the absolute
    /// form of the path. A buffer id is used up either way.
    pub fn buffer_open(
        &mut self,
        path: String,
        absolute: String,
        loaded: Result<Option<String>, EditorError>,
    ) -> (r: Result<u64, EditorError>)
        requires
            well_formed(old(self)@),
            room(old(self)@, 1),
        ensures
            well_formed(final(self)@),
            match loaded {
                Ok(contents) => {
                    &&& r == Ok::<u64, EditorError>(old(self)@.next_id)
                    &&& final(self)@ == after_open(
                        old(self)@,
                        opened_entry(
                            old(self)@.next_id,
                            path@,
                            absolute@,
                            buffer::option_view(contents),
                        ),
                    )
                },
                Err(e) => {
                    &&& r == Err::<u64, _>(e)
                    &&& final(self)@ == (CoreModel {
                        next_id: (old(self)@.next_id + 1) as u64,
                        ..old(self)@
                    })
                },
            },
    {
        let ghost before = self@;
        let id: u64 = self.next_buffer_id;
        self.next_buffer_id += 1;
        let contents = match loaded {
            Ok(c) => c,
            Err(e) => {
                return Err(e);
            },
        };
        let buffer = match &contents {
            Some(c) => Buffer::open(path.clone(), Some(c.as_str())),
            None => Buffer::open(path.clone(), None),
        };
        let uri = path_to_uri(&absolute);
        let language = Language::for_path(&path);
        let syntax = Syntax::for_path(Some(path.as_str()));
        let mut entry = BufferEntry {
            id,
            buffer,
            syntax,
            uri: Some(uri),
            language,
            lsp_version: 0,
        };
        entry.refresh();
        let ghost e = opened_entry(id, path@, absolute@, buffer::option_view(contents));
        assert(entry@ == e);
        proof {
            lemma_opened(before, e, 1);
        }
        if let Some(l) = language {
            let uri = path_to_uri(&absolute);
            let text = entry.buffer.text();
            if self.runs(l) {
                self.outbox.push(ServerNotice::Open { language: l, uri, text });
            } else {
                self.outbox.push(ServerNotice::Spawn { language: l, path, uri, text });
            }
        }
        assert(self@.outbox =~= before.outbox + opening_notices(before, e));
        self.buffers.push(entry);
        self.focus = Some(id);
        assert(self@.entries =~= before.entries.push(e));
        Ok(id)
    }

    /// Removes a buffer. A closed buffer's focus goes to the lowest id that is
    /// left.
    pub fn buffer_close(&mut self, buffer_id: u64) -> (r: Result<(), EditorError>)
        requires
            well_formed(old(self)@),
        ensures
            well_formed(final(self)@),
            match place_of(old(self)@.entries, buffer_id) {
                Some(k) => r is Ok && final(self)@ == after_close(old(self)@, k),
                None => {
                    &&& r == Err::<(), _>(EditorError::UnknownBuffer { id: buffer_id })
                    &&& final(self)@ == old(self)@
                },
            },
    {
        let ghost before = self@;
        match self.find(buffer_id) {
            Some(k) => {
                proof {
                    lemma_place_of(before.entries, buffer_id);
                    lemma_closed(before, k as int);
                }
                let entry = self.buffers.remove(k);
                assert(entry@ == before.entries[k as int]);
                assert(self@.entries =~= before.entries.remove(k as int));
                if let (Some(l), Some(uri)) = (entry.language, entry.uri) {
                    if self.runs(l) {
                        self.outbox.push(ServerNotice::Close { language: l, uri });
                    }
                }
                assert(self@.outbox =~= after_close(before, k as int).outbox);
                if self.focus == Some(buffer_id) {
                    self.focus = if self.buffers.len() == 0 {
                        None
                    } else {
                        Some(self.buffers[0].id)
                    };
                    assert(self.buffers@.len() > 0 ==> self@.entries[0].id == self.buffers@[0].id);
                }
                Ok(())
            },
            None => Err(EditorError::UnknownBuffer { id: buffer_id }),
        }
    }

    /// The open buffers, in the order of their ids.
    pub fn buffer_list(&self) -> (r: Vec<BufferListEntry>)
        ensures
            r@.len() == self@.entries.len(),
            forall|i: int| 0 <= i < r@.len() ==> listed(#[trigger] r@[i], self@.entries[i]),
    {
        let mut r: Vec<BufferListEntry> = Vec::new();
        let mut i: usize = 0;
        while i < self.buffers.len()
            invariant
                i <= self.buffers@.len(),
                r@.len() == i,
                forall|j: int| 0 <= j < i ==> listed(#[trigger] r@[j], self@.entries[j]),
            decreases self.buffers@.len() - i,
        {
            let e = &self.buffers[i];
            let path = match e.buffer.path() {
                Some(p) => Some(p.to_string()),
                None => None,
            };
            assert(self@.entries[i as int] == e@);
            r.push(
                BufferListEntry {
                    id: e.id,
                    path,
                    dirty: e.buffer.is_dirty(),
                    version: e.buffer.version(),
                },
            );
            i += 1;
        }
        r
    }

    /// The text of a buffer, or of a range of it, with the version it has.
    pub fn buffer_read(&self, buffer_id: u64, range: Option<CharRange>) -> (r: Result<
        BufferReadResponse,
        EditorError,
    >)
        ensures
            match r {
                Ok(read) => read_result(self@, buffer_id, range) == Ok::<
                    (Seq<char>, u64),
                    EditorError,
                >((read.text@, read.version)),
                Err(e) => read_result(self@, buffer_id, range) == Err::<(Seq<char>, u64), _>(e),
            },
    {
        match self.find(buffer_id) {
            None => Err(EditorError::UnknownBuffer { id: buffer_id }),
            Some(k) => {
                let b = &self.buffers[k].buffer;
                assert(self@.entries[k as int].buffer == b@);
                let version: u64 = b.version();
                match range {
                    None => Ok(BufferReadResponse { text: b.text(), version }),
                    Some(c) => {
                        let len: usize = b.len_chars();
                        if c.start > c.end || c.end > len {
                            return Err(
                                EditorError::RangeOutside { start: c.start, end: c.end, len },
                            );
                        }
                        Ok(BufferReadResponse { text: b.slice(c.start, c.end), version })
                    },
                }
            },
        }
    }

    /// The version of a buffer.
    pub fn buffer_version(&self, buffer_id: u64) -> (r: Result<u64, EditorError>)
        ensures
            match place_of(self@.entries, buffer_id) {
                Some(k) => r == Ok::<u64, EditorError>(self@.entries[k].buffer.version),
                None => r == Err::<u64, _>(EditorError::UnknownBuffer { id: buffer_id }),
            },
    {
        match self.find(buffer_id) {
            Some(k) => {
                assert(self@.entries[k as int].buffer == self.buffers@[k as int].buffer@);
                Ok(self.buffers[k].buffer.version())
            },
            None => Err(EditorError::UnknownBuffer { id: buffer_id }),
        }
    }

    /// Whether every counter can go up `n` times.
    pub fn has_room(&self, n: u64) -> (r: bool)
        ensures
            r == room(self@, n as int),
    {
        let mut i: usize = 0;
        while i < self.buffers.len()
            invariant
                i <= self.buffers@.len(),
                forall|j: int|
                    0 <= j < i ==> (#[trigger] self@.entries[j]).lsp_version + n <= i32::MAX,
            decreases self.buffers@.len() - i,
        {
            assert(self@.entries[i as int] == self.buffers@[i as int]@);
            if self.buffers[i].lsp_version as i128 + n as i128 > i32::MAX as i128 {
                return false;
            }
            i += 1;
        }
        self.next_buffer_id <= u64::MAX - n && self.tx_manager.has_room(n)
            && self.proposals.has_room(n)
    }

    /// The focused buffer.
    pub fn focus(&self) -> (r: Option<u64>)
        ensures
            r == self@.focus,
    {
        self.focus
    }

    /// Records that the server of a language is running.
    pub fn server_started(&mut self, language: Language)
        requires
            well_formed(old(self)@),
        ensures
            well_formed(final(self)@),
            final(self)@ == (CoreModel {
                running: old(self)@.running.push(language),
                ..old(self)@
            }),
    {
        self.servers.push(language);
    }

    /// Hands over what there is to tell the language servers.
    pub fn take_notices(&mut self) -> (r: Vec<ServerNotice>)
        requires
            well_formed(old(self)@),
        ensures
            well_formed(final(self)@),
            notice_views(r@) == old(self)@.outbox,
            final(self)@ == (CoreModel { outbox: Seq::<NoticeModel>::empty(), ..old(self)@ }),
    {
        let mut out: Vec<ServerNotice> = Vec::new();
        std::mem::swap(&mut out, &mut self.outbox);
        assert(self@.outbox =~= Seq::<NoticeModel>::empty());
        out
    }
}

// --------------------------------------------------------------------- editing

/// What an edit does to a buffer.
pub enum EditBody<'a> {
    /// Replace the characters from `start` to `end`.
    Range { start: usize, end: usize, text: &'a str },
    /// Replace the bytes from `start` to `end`.
    Node { start: usize, end: usize, text: &'a str },
    /// Apply a language server's edits one after the other.
    Texts { edits: &'a Vec<TextEdit> },
}

/// What an edit is.
pub enum BodyModel {
    Range { start: int, end: int, text: Seq<char> },
    Node { start: int, end: int, text: Seq<char> },
    Texts { edits: Seq<TextEdit> },
}

impl<'a> View for EditBody<'a> {
    type V = BodyModel;

    open spec fn view(&self) -> BodyModel {
        match *self {
            EditBody::Range { start, end, text } => BodyModel::Range {
                start: start as int,
                end: end as int,
                text: text@,
            },
            EditBody::Node { start, end, text } => BodyModel::Node {
                start: start as int,
                end: end as int,
                text: text@,
            },
            EditBody::Texts { edits } => BodyModel::Texts { edits: edits@ },
        }
    }
}

/// A buffer after the characters from `start` to `end` were replaced by `t`.
pub open spec fn after_replace_range(
    b: buffer::BufferModel,
    start: int,
    end: int,
    t: Seq<char>,
) -> buffer::BufferModel {
    let cut = buffer::after_delete(b, start, end);
    if t.len() == 0 {
        cut
    } else {
        buffer::after_insert_str(cut, start, t)
    }
}

/// A buffer after an edit, or as far as the edit got, and why no further.
pub open spec fn body_result(b: buffer::BufferModel, body: BodyModel) -> (
    buffer::BufferModel,
    Option<EditorError>,
) {
    match body {
        BodyModel::Range { start, end, text } => (after_replace_range(b, start, end, text), None),
        BodyModel::Node { start, end, text } => (
            buffer::after_replace_node(b, start, end, text),
            None,
        ),
        BodyModel::Texts { edits } => protocol::after_text_edits(b, edits, edits.len() as int),
    }
}

/// The range of an edit lies within the text.
pub open spec fn body_fits(s: Seq<char>, body: BodyModel) -> bool {
    match body {
        BodyModel::Range { start, end, .. } => start <= end <= s.len(),
        BodyModel::Node { start, end, .. } => start <= end <= text::utf8_len(s),
        BodyModel::Texts { .. } => true,
    }
}

fn run_body(buffer: &mut Buffer, body: &EditBody) -> (r: Result<(), EditorError>)
    requires
        body_fits(old(buffer)@.text, body@),
    ensures
        final(buffer)@ == body_result(old(buffer)@, body@).0,
        match r {
            Ok(_) => body_result(old(buffer)@, body@).1 is None,
            Err(e) => body_result(old(buffer)@, body@).1 == Some(e),
        },
{
    match body {
        EditBody::Range { start, end, text } => {
            buffer.delete_range(*start, *end);
            if !text.is_empty() {
                buffer.insert_str(*start, text);
            }
            Ok(())
        },
        EditBody::Node { start, end, text } => {
            buffer.replace_node(*start, *end, text);
            Ok(())
        },
        EditBody::Texts { edits } => apply_text_edits(buffer, edits),
    }
}

/// The transactions after one that held a single edit was committed.
pub open spec fn logged(t: tx::TxModel, intent: Seq<char>, b: buffer::BufferModel) -> tx::TxModel {
    tx::TxModel {
        next_tx: (t.next_tx + 1) as u64,
        next_change: (t.next_change + 1) as u64,
        history: t.history.push(
            tx::ChangeModel {
                change: t.next_change,
                tx: t.next_tx,
                intent,
                conversation: None,
                at: t.now,
                files: tx::files_of(b),
            },
        ),
        ..t
    }
}

/// An open transaction is on entry `k`.
pub open spec fn joined(m: CoreModel, k: int) -> bool {
    m.explicit matches Some((_, b)) && b == m.entries[k].id
}

/// The runtime after entry `k` was edited, and why the edit failed, if it did. The
/// edit joins the transaction that is open on the entry; without one it is a
/// transaction of its own, which is rolled back if it fails.
pub open spec fn edit_outcome(m: CoreModel, k: int, intent: Seq<char>, body: BodyModel) -> (
    CoreModel,
    Option<EditorError>,
) {
    let e = m.entries[k];
    let (b, failed) = body_result(e.buffer, body);
    let entry = EntryModel { buffer: b, ..e };
    if joined(m, k) {
        (with_entry(m, k, entry), failed)
    } else {
        match failed {
            None => (
                CoreModel { tx: logged(m.tx, intent, b), ..with_entry(m, k, entry) },
                None,
            ),
            Some(err) => (
                CoreModel {
                    tx: tx::TxModel { next_tx: (m.tx.next_tx + 1) as u64, ..m.tx },
                    ..with_entry(
                        m,
                        k,
                        EntryModel {
                            buffer: buffer::after_restore(b, buffer::snapshot_of(e.buffer)),
                            ..e
                        },
                    )
                },
                Some(err),
            ),
        }
    }
}

proof fn lemma_body_keeps_path(b: buffer::BufferModel, body: BodyModel)
    ensures
        body_result(b, body).0.path == b.path,
{
    match body {
        BodyModel::Texts { edits } => {
            lemma_text_edits_keep_path(b, edits, edits.len() as int);
        },
        _ => {},
    }
}

proof fn lemma_text_edits_keep_path(b: buffer::BufferModel, es: Seq<TextEdit>, n: int)
    ensures
        protocol::after_text_edits(b, es, n).0.path == b.path,
    decreases n,
{
    if n > 0 {
        lemma_text_edits_keep_path(b, es, n - 1);
    }
}

pub proof fn lemma_focus_kept(m: CoreModel, n: CoreModel)
    requires
        m.focus == n.focus,
        m.entries.len() == n.entries.len(),
        forall|i: int| 0 <= i < m.entries.len() ==> (#[trigger] n.entries[i]).id == m.entries[i].id,
        m.focus matches Some(f) ==> place_of(m.entries, f) is Some,
    ensures
        n.focus matches Some(f) ==> place_of(n.entries, f) is Some,
{
    if let Some(f) = m.focus {
        lemma_place_of(m.entries, f);
        lemma_place_of(n.entries, f);
        let p = place_of(m.entries, f)->Some_0;
        assert(n.entries[p].id == f);
    }
}

pub proof fn lemma_edit_outcome(m: CoreModel, k: int, intent: Seq<char>, body: BodyModel, n: int)
    requires
        well_formed(m),
        0 <= k < m.entries.len(),
        n >= 1,
        room(m, n),
    ensures
        well_formed(edit_outcome(m, k, intent, body).0),
        room(edit_outcome(m, k, intent, body).0, n - 1),
        edit_outcome(m, k, intent, body).0.entries.len() == m.entries.len(),
        forall|i: int|
            0 <= i < m.entries.len() ==> (#[trigger] edit_outcome(
                m,
                k,
                intent,
                body,
            ).0.entries[i]).lsp_version == m.entries[i].lsp_version,
{
    let a = edit_outcome(m, k, intent, body).0;
    lemma_body_keeps_path(m.entries[k].buffer, body);
    lemma_focus_kept(m, a);
}

impl EditorCore {
    /// Runs an edit on entry `k`, inside the transaction that is open on it or in
    /// one of its own.
    fn with_auto_tx_on(&mut self, k: usize, intent: String, body: &EditBody) -> (r: Result<
        (),
        EditorError,
    >)
        requires
            well_formed(old(self)@),
            room(old(self)@, 1),
            k < old(self)@.entries.len(),
            body_fits(old(self)@.entries[k as int].buffer.text, body@),
        ensures
            final(self)@ == edit_outcome(old(self)@, k as int, intent@, body@).0,
            match r {
                Ok(_) => edit_outcome(old(self)@, k as int, intent@, body@).1 is None,
                Err(e) => edit_outcome(old(self)@, k as int, intent@, body@).1 == Some(e),
            },
    {
        let ghost m = self@;
        let ghost e = m.entries[k as int];
        assert(e == self.buffers@[k as int]@);
        let join: bool = match self.explicit_tx {
            Some((_, b)) => b == self.buffers[k].id,
            None => false,
        };
        if join {
            let result = run_body(&mut self.buffers[k].buffer, body);
            assert(self@.entries =~= edit_outcome(m, k as int, intent@, body@).0.entries);
            return result;
        }
        let ghost goal = edit_outcome(m, k as int, intent@, body@).0;
        proof {
            tx::law_commit_appends_one_entry(
                m.tx,
                intent@,
                None,
                e.buffer,
                body_result(e.buffer, body@).0,
            );
        }
        let tx_id = self.tx_manager.begin(intent, None, &self.buffers[k].buffer);
        match run_body(&mut self.buffers[k].buffer, body) {
            Ok(_) => {
                let _ = self.tx_manager.record(tx_id, &self.buffers[k].buffer);
                assert(self@.entries =~= goal.entries);
                assert(self@.tx =~= goal.tx);
                Ok(())
            },
            Err(err) => {
                let _ = self.tx_manager.rollback(tx_id, &mut self.buffers[k].buffer);
                assert(self@.entries =~= goal.entries);
                assert(self@.tx.active =~= goal.tx.active);
                assert(self@.tx =~= goal.tx);
                Err(err)
            },
        }
    }

    fn notify_lsp_changed(&mut self, k: usize)
        requires
            k < old(self)@.entries.len(),
            room(old(self)@, 1),
        ensures
            final(self)@ == notified(old(self)@, k as int),
    {
        let ghost m = self@;
        assert(m.entries[k as int] == self.buffers@[k as int]@);
        let language = match self.buffers[k].language {
            Some(l) => l,
            None => {
                return;
            },
        };
        if !self.runs(language) {
            return;
        }
        let uri = match &self.buffers[k].uri {
            Some(u) => u.clone(),
            None => {
                return;
            },
        };
        let version: i32 = self.buffers[k].lsp_version + 1;
        self.buffers[k].lsp_version = version;
        let text = self.buffers[k].buffer.text();
        self.outbox.push(ServerNotice::Change { language, uri, version, text });
        assert(self@.entries =~= notified(m, k as int).entries);
        assert(self@.outbox =~= notified(m, k as int).outbox);
    }

    fn settle(&mut self, k: usize)
        requires
            k < old(self)@.entries.len(),
            room(old(self)@, 1),
        ensures
            final(self)@ == settled(old(self)@, k as int),
    {
        self.refresh_syntax(k);
        self.notify_lsp_changed(k);
    }
}

// ---------------------------------------------------------------- direct edits

/// Why a version or a range does not fit entry `k`.
pub open spec fn version_refusal(m: CoreModel, k: int, version: u64) -> Option<EditorError> {
    let e = m.entries[k];
    if e.buffer.version != version {
        Some(EditorError::VersionMismatch { id: e.id, at: e.buffer.version, sent: version })
    } else {
        None
    }
}

/// The runtime after an edit of entry `k` that cannot fail.
pub open spec fn edited(m: CoreModel, k: int, intent: Seq<char>, body: BodyModel) -> CoreModel {
    settled(edit_outcome(m, k, intent, body).0, k)
}

/// The runtime after a range of a buffer was replaced, and the buffer's new
/// version, or why it was not.
pub open spec fn replace_range_result(
    m: CoreModel,
    id: u64,
    version: u64,
    range: CharRange,
    t: Seq<char>,
) -> (CoreModel, Result<u64, EditorError>) {
    match place_of(m.entries, id) {
        None => (m, Err(EditorError::UnknownBuffer { id })),
        Some(k) => {
            let len = m.entries[k].buffer.text.len();
            match version_refusal(m, k, version) {
                Some(e) => (m, Err(e)),
                None => if range.start > range.end || range.end > len {
                    (
                        m,
                        Err(
                            EditorError::RangeOutside {
                                start: range.start,
                                end: range.end,
                                len: len as usize,
                            },
                        ),
                    )
                } else {
                    let a = edited(
                        m,
                        k,
                        range_intent("edit.replace_range "@, range.start as int, range.end as int),
                        BodyModel::Range {
                            start: range.start as int,
                            end: range.end as int,
                            text: t,
                        },
                    );
                    (a, Ok(a.entries[k].buffer.version))
                },
            }
        },
    }
}

/// The runtime after the bytes of a node were replaced, and the buffer's new
/// version, or why they were not.
pub open spec fn replace_node_result(
    m: CoreModel,
    id: u64,
    version: u64,
    range: ByteRange,
    t: Seq<char>,
) -> (CoreModel, Result<u64, EditorError>) {
    match place_of(m.entries, id) {
        None => (m, Err(EditorError::UnknownBuffer { id })),
        Some(k) => {
            let len = text::utf8_len(m.entries[k].buffer.text);
            match version_refusal(m, k, version) {
                Some(e) => (m, Err(e)),
                None => if range.start > range.end || range.end > len {
                    (
                        m,
                        Err(
                            EditorError::ByteRangeOutside {
                                start: range.start,
                                end: range.end,
                                len: len as usize,
                            },
                        ),
                    )
                } else {
                    let a = edited(
                        m,
                        k,
                        range_intent("edit.replace_node "@, range.start as int, range.end as int),
                        BodyModel::Node {
                            start: range.start as int,
                            end: range.end as int,
                            text: t,
                        },
                    );
                    (a, Ok(a.entries[k].buffer.version))
                },
            }
        },
    }
}

/// The intent of an edit that none was stated for.
pub open spec fn range_intent(name: Seq<char>, start: int, end: int) -> Seq<char> {
    error::with_number(error::with_number(name, start, ".."@), end, ""@)
}

fn make_range_intent(name: &str, start: usize, end: usize) -> (r: String)
    ensures
        r@ == range_intent(name@, start as int, end as int),
{
    let a = numbered(name, start as u64, "..");
    numbered(&a, end as u64, "")
}

impl EditorCore {
    /// Replaces a range of characters of a buffer that is at `version`. Returns
    /// the buffer's new version.
    pub fn edit_replace_range(
        &mut self,
        buffer_id: u64,
        version: u64,
        range: CharRange,
        text: &str,
    ) -> (r: Result<u64, EditorError>)
        requires
            well_formed(old(self)@),
            room(old(self)@, 2),
        ensures
            well_formed(final(self)@),
            exists|at: tx::Moment|
                tx::proper(at) && (final(self)@, r) == replace_range_result(
                    #[trigger] clocked(old(self)@, at),
                    buffer_id,
                    version,
                    range,
                    text@,
                ),
    {
        self.tick();
        self.replace_range(buffer_id, version, range, text)
    }

    /// The same, with the moment that the clock was last read at.
    pub(crate) fn replace_range(
        &mut self,
        buffer_id: u64,
        version: u64,
        range: CharRange,
        text: &str,
    ) -> (r: Result<u64, EditorError>)
        requires
            well_formed(old(self)@),
            room(old(self)@, 2),
        ensures
            well_formed(final(self)@),
            final(self)@ == replace_range_result(old(self)@, buffer_id, version, range, text@).0,
            r == replace_range_result(old(self)@, buffer_id, version, range, text@).1,
    {
        let ghost m = self@;
        let k: usize = match self.find(buffer_id) {
            Some(k) => k,
            None => {
                return Err(EditorError::UnknownBuffer { id: buffer_id });
            },
        };
        assert(m.entries[k as int] == self.buffers@[k as int]@);
        let at: u64 = self.buffers[k].buffer.version();
        if at != version {
            proof {
                lemma_place_of(m.entries, buffer_id);
            }
            return Err(EditorError::VersionMismatch { id: buffer_id, at, sent: version });
        }
        let len: usize = self.buffers[k].buffer.len_chars();
        if range.start > range.end || range.end > len {
            return Err(EditorError::RangeOutside { start: range.start, end: range.end, len });
        }
        let intent = make_range_intent("edit.replace_range ", range.start, range.end);
        let body = EditBody::Range { start: range.start, end: range.end, text };
        proof {
            lemma_edit_outcome(m, k as int, intent@, body@, 2);
            lemma_settled(edit_outcome(m, k as int, intent@, body@).0, k as int, 1);
        }
        let _ = self.with_auto_tx_on(k, intent, &body);
        self.settle(k);
        assert(self@.entries[k as int] == self.buffers@[k as int]@);
        Ok(self.buffers[k].buffer.version())
    }

    /// Replaces the bytes of a node of a buffer that is at `version`. Returns the
    /// buffer's new version.
    pub fn edit_replace_node(
        &mut self,
        buffer_id: u64,
        version: u64,
        byte_range: ByteRange,
        text: &str,
    ) -> (r: Result<u64, EditorError>)
        requires
            well_formed(old(self)@),
            room(old(self)@, 2),
        ensures
            well_formed(final(self)@),
            exists|at: tx::Moment|
                tx::proper(at) && (final(self)@, r) == replace_node_result(
                    #[trigger] clocked(old(self)@, at),
                    buffer_id,
                    version,
                    byte_range,
                    text@,
                ),
    {
        self.tick();
        self.replace_node(buffer_id, version, byte_range, text)
    }

    /// The same, with the moment that the clock was last read at.
    pub(crate) fn replace_node(
        &mut self,
        buffer_id: u64,
        version: u64,
        byte_range: ByteRange,
        text: &str,
    ) -> (r: Result<u64, EditorError>)
        requires
            well_formed(old(self)@),
            room(old(self)@, 2),
        ensures
            well_formed(final(self)@),
            final(self)@ == replace_node_result(
                old(self)@,
                buffer_id,
                version,
                byte_range,
                text@,
            ).0,
            r == replace_node_result(old(self)@, buffer_id, version, byte_range, text@).1,
    {
        let ghost m = self@;
        let k: usize = match self.find(buffer_id) {
            Some(k) => k,
            None => {
                return Err(EditorError::UnknownBuffer { id: buffer_id });
            },
        };
        assert(m.entries[k as int] == self.buffers@[k as int]@);
        let at: u64 = self.buffers[k].buffer.version();
        if at != version {
            proof {
                lemma_place_of(m.entries, buffer_id);
            }
            return Err(EditorError::VersionMismatch { id: buffer_id, at, sent: version });
        }
        let len: usize = self.buffers[k].buffer.len_bytes();
        let (start, end) = (byte_range.start, byte_range.end);
        if start > end || end > len {
            return Err(EditorError::ByteRangeOutside { start, end, len });
        }
        let intent = make_range_intent("edit.replace_node ", start, end);
        let body = EditBody::Node { start, end, text };
        proof {
            lemma_edit_outcome(m, k as int, intent@, body@, 2);
            lemma_settled(edit_outcome(m, k as int, intent@, body@).0, k as int, 1);
        }
        let _ = self.with_auto_tx_on(k, intent, &body);
        self.settle(k);
        assert(self@.entries[k as int] == self.buffers@[k as int]@);
        Ok(self.buffers[k].buffer.version())
    }
}

} // verus!
