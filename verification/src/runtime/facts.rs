//! What opening, closing, reading and editing buffers does, buffer by buffer.

use vstd::prelude::*;

use crate::error::EditorError;
use crate::language;
use crate::lsp;
use crate::protocol::{ByteRange, CharRange};
use crate::runtime;
use crate::runtime::insight;
use crate::runtime::requests;
use crate::runtime::screen;
use crate::runtime::screen::KeyEdit;
use crate::runtime::{CoreModel, EntryModel, NoticeModel};
use crate::rope;
use crate::syntax;
use crate::test_runner;
use crate::text;
use crate::tx;

verus! {

// ---------------------------------------------------------- opening and closing

/// A file that is opened is the last buffer, under the next id, in the focus: its contents,
/// saved, at the first version. The others stay as they are. A server that runs for its
/// language is told of it, and one that does not is to be started.
pub proof fn law_opening(
    m: CoreModel,
    path: Seq<char>,
    absolute: Seq<char>,
    contents: Seq<char>,
)
    requires
        m.next_id < u64::MAX,
    ensures
        ({
            let e = runtime::opened_entry(m.next_id, path, absolute, Some(contents));
            let r = runtime::after_open(m, e);
            let last = r.entries.last();
            let uri = lsp::uri_of(absolute);
            &&& r.entries.len() == m.entries.len() + 1
            &&& r.entries.drop_last() == m.entries
            &&& last.id == m.next_id
            &&& last.buffer.text == contents
            &&& last.buffer.path == Some(path)
            &&& last.buffer.version == 0
            &&& !last.buffer.dirty
            &&& last.uri == Some(uri)
            &&& last.language == language::language_of(path)
            &&& r.focus == Some(m.next_id)
            &&& r.next_id == m.next_id + 1
            &&& r.tx == m.tx
            &&& match language::language_of(path) {
                None => r.outbox == m.outbox,
                Some(l) => r.outbox == m.outbox.push(
                    if m.running.contains(l) {
                        NoticeModel::Open { language: l, uri, text: contents }
                    } else {
                        NoticeModel::Spawn { language: l, path, uri, text: contents }
                    },
                ),
            }
            &&& runtime::opened_entry(m.next_id, path, absolute, None).buffer.text.len() == 0
        }),
{
    let e = runtime::opened_entry(m.next_id, path, absolute, Some(contents));
    let r = runtime::after_open(m, e);
    assert(r.entries.drop_last() =~= m.entries);
    if let Some(l) = language::language_of(path) {
        let uri = lsp::uri_of(absolute);
        assert(r.outbox =~= m.outbox.push(
            if m.running.contains(l) {
                NoticeModel::Open { language: l, uri, text: contents }
            } else {
                NoticeModel::Spawn { language: l, path, uri, text: contents }
            },
        ));
    } else {
        assert(r.outbox =~= m.outbox);
    }
}

/// A buffer that is closed is gone, and the others stay as they are, in their order. Its
/// server is told. If it had the focus, the first of the others has it.
pub proof fn law_closing(m: CoreModel, k: int)
    requires
        0 <= k < m.entries.len(),
    ensures
        ({
            let e = m.entries[k];
            let r = runtime::after_close(m, k);
            let served = e.language is Some && m.running.contains(e.language->Some_0) && e.uri
                is Some;
            &&& r.entries == m.entries.take(k) + m.entries.skip(k + 1)
            &&& m.focus != Some(e.id) ==> r.focus == m.focus
            &&& m.focus == Some(e.id) && m.entries.len() == 1 ==> r.focus is None
            &&& m.focus == Some(e.id) && m.entries.len() > 1 ==> r.focus == Some(
                if k == 0 {
                    m.entries[1].id
                } else {
                    m.entries[0].id
                },
            )
            &&& served ==> r.outbox == m.outbox.push(
                NoticeModel::Close { language: e.language->Some_0, uri: e.uri->Some_0 },
            )
            &&& !served ==> r.outbox == m.outbox
            &&& r.tx == m.tx && r.next_id == m.next_id && r.running == m.running
        }),
{
    assert(m.entries.remove(k) =~= m.entries.take(k) + m.entries.skip(k + 1));
}

// --------------------------------------------------------------------- reading

/// The buffer with an id; there is at most one.
pub open spec fn holds(m: CoreModel, id: u64, k: int) -> bool {
    0 <= k < m.entries.len() && m.entries[k].id == id && forall|j: int|
        0 <= j < m.entries.len() && j != k ==> (#[trigger] m.entries[j]).id != id
}

proof fn lemma_held(m: CoreModel, id: u64, k: int)
    requires
        holds(m, id, k),
    ensures
        runtime::place_of(m.entries, id) == Some(k),
{
    runtime::lemma_place_of(m.entries, id);
}

/// Reading gives the text of a buffer, or the part of it that a range names, and the
/// buffer's version. A range that is not there is refused, and so is an id that no buffer
/// has.
pub proof fn law_reading(m: CoreModel, id: u64, k: int, range: CharRange)
    ensures
        holds(m, id, k) ==> ({
            let b = m.entries[k].buffer;
            let (start, end) = (range.start as int, range.end as int);
            &&& runtime::read_result(m, id, None) == Ok::<(Seq<char>, u64), EditorError>(
                (b.text, b.version),
            )
            &&& start <= end <= b.text.len() ==> runtime::read_result(m, id, Some(range)) == Ok::<
                (Seq<char>, u64),
                EditorError,
            >((b.text.take(end).skip(start), b.version))
            &&& !(start <= end <= b.text.len()) ==> {
                let r = runtime::read_result(m, id, Some(range));
                r is Err && r->Err_0 is RangeOutside
            }
        }),
        (forall|j: int| 0 <= j < m.entries.len() ==> (#[trigger] m.entries[j]).id != id) ==> ({
            let r = runtime::read_result(m, id, Some(range));
            r == Err::<(Seq<char>, u64), EditorError>(EditorError::UnknownBuffer { id })
        }),
{
    runtime::lemma_place_of(m.entries, id);
    if holds(m, id, k) {
        lemma_held(m, id, k);
        let b = m.entries[k].buffer;
        if range.start <= range.end <= b.text.len() {
            assert(b.text.take(range.end as int).skip(range.start as int) =~= b.text.subrange(
                range.start as int,
                range.end as int,
            ));
        }
    }
}

// --------------------------------------------------------------------- editing

/// Nothing but buffer `k` was edited, and its server was told of its new text.
pub open spec fn only_edited(m: CoreModel, r: CoreModel, k: int, t: Seq<char>) -> bool {
    let e = m.entries[k];
    let served = e.language is Some && m.running.contains(e.language->Some_0) && e.uri is Some;
    &&& r.entries.len() == m.entries.len()
    &&& forall|j: int| 0 <= j < m.entries.len() && j != k ==> #[trigger] r.entries[j] == m.entries[j]
    &&& r.entries[k].id == e.id
    &&& r.entries[k].buffer.text == t
    &&& r.entries[k].buffer.path == e.buffer.path
    &&& r.focus == m.focus
    &&& r.next_id == m.next_id
    &&& r.proposals == m.proposals
    &&& served ==> r.outbox == m.outbox.push(
        NoticeModel::Change {
            language: e.language->Some_0,
            uri: e.uri->Some_0,
            version: e.lsp_version + 1,
            text: t,
        },
    )
    &&& !served ==> r.outbox == m.outbox
}

/// An edit of a range: with the version that the buffer is at and a range that is there, the
/// characters of the range make room for the new text, and nothing else changes; the new
/// version is the answer. Without a transaction on the buffer the history has one more entry.
/// Anything else is refused, and changes nothing.
pub proof fn law_editing_a_range(
    m: CoreModel,
    id: u64,
    k: int,
    version: u64,
    range: CharRange,
    t: Seq<char>,
)
    requires
        holds(m, id, k),
    ensures
        ({
            let (r, answer) = runtime::replace_range_result(m, id, version, range, t);
            let b = m.entries[k].buffer;
            let (start, end) = (range.start as int, range.end as int);
            let joins = m.explicit is Some && m.explicit->Some_0.1 == id;
            &&& b.version != version ==> r == m && answer is Err && answer->Err_0 is VersionMismatch
            &&& b.version == version && !(start <= end <= b.text.len()) ==> r == m && answer is Err
                && answer->Err_0 is RangeOutside
            &&& b.version == version && start <= end <= b.text.len() ==> {
                &&& answer == Ok::<u64, EditorError>(r.entries[k].buffer.version)
                &&& only_edited(m, r, k, b.text.take(start) + t + b.text.skip(end))
                &&& start < end || t.len() > 0 ==> r.entries[k].buffer.dirty
                &&& start == end && t.len() == 0 ==> r.entries[k].buffer.version == b.version
                    && r.entries[k].buffer.dirty == b.dirty
                &&& joins ==> r.tx == m.tx
                &&& !joins ==> r.tx.history.len() == m.tx.history.len() + 1
                    && r.tx.history.drop_last() == m.tx.history
            }
        }),
{
    lemma_held(m, id, k);
    let b = m.entries[k].buffer;
    let (start, end) = (range.start as int, range.end as int);
    if b.version == version && start <= end <= b.text.len() {
        let body = runtime::BodyModel::Range { start, end, text: t };
        let intent = runtime::range_intent("edit.replace_range "@, start, end);
        let r = runtime::replace_range_result(m, id, version, range, t).0;
        let after = runtime::after_replace_range(b, start, end, t);
        lemma_range_text(b.text, start, end, t);
        assert(after.text =~= b.text.take(start) + t + b.text.skip(end));
        assert(!runtime::joined(m, k) ==> r.tx.history.drop_last() =~= m.tx.history);
    }
}

proof fn lemma_range_text(s: Seq<char>, start: int, end: int, t: Seq<char>)
    requires
        0 <= start <= end <= s.len(),
    ensures
        ({
            let cut = s.take(start) + s.skip(end);
            &&& cut.take(start) + t + cut.skip(start) == s.take(start) + t + s.skip(end)
            &&& start == end ==> s.take(start) + t + s.skip(start) == s.take(start) + t + s.skip(end)
            &&& s.take(start) + s.skip(start) == s
            &&& t.len() == 0 ==> s.take(start) + t + s.skip(end) == cut
        }),
{
    let cut = s.take(start) + s.skip(end);
    assert(cut.take(start) =~= s.take(start));
    assert(cut.skip(start) =~= s.skip(end));
    assert(s.take(start) + s.skip(start) =~= s);
    if t.len() == 0 {
        assert(s.take(start) + t + s.skip(end) =~= cut);
    }
}

/// An edit of a syntax node: the same for a range of bytes.
pub proof fn law_editing_a_node(
    m: CoreModel,
    id: u64,
    k: int,
    version: u64,
    a: int,
    z: int,
    t: Seq<char>,
)
    requires
        holds(m, id, k),
        0 <= a <= z <= m.entries[k].buffer.text.len(),
        text::utf8_len(m.entries[k].buffer.text) <= usize::MAX,
    ensures
        ({
            let b = m.entries[k].buffer;
            let range = ByteRange {
                start: text::utf8_len(b.text.take(a)) as usize,
                end: text::utf8_len(b.text.take(z)) as usize,
            };
            let (r, answer) = runtime::replace_node_result(m, id, version, range, t);
            let joins = m.explicit is Some && m.explicit->Some_0.1 == id;
            &&& b.version != version ==> r == m && answer is Err && answer->Err_0 is VersionMismatch
            &&& b.version == version ==> {
                &&& answer == Ok::<u64, EditorError>(r.entries[k].buffer.version)
                &&& only_edited(m, r, k, b.text.take(a) + t + b.text.skip(z))
                &&& r.entries[k].buffer.dirty
                &&& joins ==> r.tx == m.tx
                &&& !joins ==> r.tx.history.len() == m.tx.history.len() + 1
                    && r.tx.history.drop_last() == m.tx.history
            }
        }),
{
    lemma_held(m, id, k);
    let b = m.entries[k].buffer;
    let s = b.text;
    rope::law_byte_of_round_trips(s, a);
    rope::law_byte_of_round_trips(s, z);
    text::lemma_utf8_len_take(s, a, z);
    text::lemma_utf8_len_take(s, z, s.len() as int);
    assert(s.take(s.len() as int) =~= s);
    let range = ByteRange {
        start: text::utf8_len(s.take(a)) as usize,
        end: text::utf8_len(s.take(z)) as usize,
    };
    if b.version == version {
        let r = runtime::replace_node_result(m, id, version, range, t).0;
        assert(!runtime::joined(m, k) ==> r.tx.history.drop_last() =~= m.tx.history);
    }
}

/// An edit from the keyboard: a character or a text is put in, or a range is deleted; an
/// edit of nothing changes nothing.
pub proof fn law_key_edits(
    m: CoreModel,
    k: int,
    intent: Seq<char>,
    i: usize,
    end: usize,
    c: char,
    s: String,
)
    requires
        0 <= k < m.entries.len(),
        i < end <= m.entries[k].buffer.text.len(),
    ensures
        ({
            let t = m.entries[k].buffer.text;
            let one = screen::key_edited(m, k, intent, KeyEdit::InsertChar(i, c));
            let many = screen::key_edited(m, k, intent, KeyEdit::InsertStr(i, s));
            let gone = screen::key_edited(m, k, intent, KeyEdit::Delete(i, end));
            let none = screen::key_edited(m, k, intent, KeyEdit::Nothing);
            &&& only_edited(m, one, k, t.take(i as int) + seq![c] + t.skip(i as int))
            &&& only_edited(m, many, k, t.take(i as int) + s@ + t.skip(i as int))
            &&& only_edited(m, gone, k, t.take(i as int) + t.skip(end as int))
            &&& one.tx.history.len() == m.tx.history.len() + 1
            &&& one.tx.history.last().intent == intent
            &&& none.entries == m.entries && none.outbox == m.outbox && none.tx.history
                == m.tx.history
        }),
{
}

// --------------------------------------------------------------------- history

/// The recent history is the end of it: as many entries as are asked for, or all if there
/// are fewer.
pub proof fn law_recent_history(history: Seq<tx::ChangeModel>, limit: int)
    requires
        0 <= limit,
    ensures
        ({
            let r = tx::recent_of(history, limit);
            &&& limit <= history.len() ==> r.len() == limit
            &&& limit > history.len() ==> r.len() == history.len()
            &&& forall|i: int|
                0 <= i < r.len() ==> #[trigger] r[i] == history[history.len() - r.len() + i]
        }),
{
}

// -------------------------------------------------------------------- requests

/// A request about a buffer goes to the server of its language, with the buffer's address;
/// it is refused without a buffer, a language, an address, or a server that runs.
pub proof fn law_requests_go_to_the_server(m: CoreModel, id: u64, k: int)
    requires
        holds(m, id, k),
    ensures
        ({
            let e = m.entries[k];
            let r = requests::server_target(m, id);
            &&& r is Ok <==> e.language is Some && e.uri is Some && m.running.contains(
                e.language->Some_0,
            )
            &&& r is Ok ==> Some(r->Ok_0.0) == e.language && Some(r->Ok_0.1) == e.uri
            &&& e.language is None ==> r is Err && r->Err_0 is NoLanguageForServer
            &&& e.language is Some && e.uri is None ==> r is Err && r->Err_0 is NoUri
            &&& e.language is Some && e.uri is Some && !m.running.contains(e.language->Some_0)
                ==> r is Err && r->Err_0 is ServerNotRunning
        }),
{
    lemma_held(m, id, k);
}

/// A test run is the command of the language, without colors, and behind a separator the
/// test that is asked for.
pub proof fn law_test_runs(argv: Seq<Seq<char>>, target: Seq<char>)
    ensures
        ({
            let all = test_runner::run_arguments(argv, None);
            let one = test_runner::run_arguments(argv, Some(target));
            let n = argv.len() as int;
            &&& all.len() == n + 2
            &&& all.take(n) == argv
            &&& all[n] == "--color"@ && all[n + 1] == "never"@
            &&& one.len() == n + 4
            &&& one.take(n + 2) == all
            &&& one[n + 2] == "--"@ && one[n + 3] == target
        }),
        test_runner::flag_like(Some(target)) <==> target.len() > 0 && target[0] == '-',
        !test_runner::flag_like(None),
{
    let all = test_runner::run_arguments(argv, None);
    let one = test_runner::run_arguments(argv, Some(target));
    let n = argv.len() as int;
    assert(all.take(n) =~= argv);
    assert(one.take(n + 2) =~= all);
}

// --------------------------------------------------------------------- imports

proof fn lemma_imports_before(
    s: Seq<char>,
    ms: Seq<syntax::MatchModel>,
    m: syntax::MatchModel,
    n: int,
)
    requires
        0 <= n <= ms.len(),
    ensures
        insight::imports_among(s, ms.push(m), n) == insight::imports_among(s, ms, n),
    decreases n,
{
    if n > 0 {
        lemma_imports_before(s, ms, m, n - 1);
        assert(ms.push(m)[n - 1] == ms[n - 1]);
    }
}

/// The imports of a buffer are the captures of its imports, in their order, each with its
/// whole text and the line that it starts on.
pub proof fn law_imports(
    s: Seq<char>,
    ms: Seq<syntax::MatchModel>,
    m: syntax::MatchModel,
    a: int,
    z: int,
)
    requires
        0 <= a <= z <= s.len(),
        m.start == text::utf8_len(s.take(a)),
        m.end == text::utf8_len(s.take(z)),
    ensures
        ({
            let before = insight::imports_among(s, ms, ms.len() as int);
            let after = insight::imports_among(s, ms.push(m), ms.len() as int + 1);
            &&& m.capture == "import"@ ==> after == before.push(
                (s.subrange(a, z), rope::line_of(s, a) as int),
            )
            &&& m.capture != "import"@ ==> after == before
        }),
        insight::imports_among(s, ms, 0).len() == 0,
{
    lemma_imports_before(s, ms, m, ms.len() as int);
    assert(ms.push(m)[ms.len() as int] == m);
    rope::law_byte_of_round_trips(s, a);
    rope::law_byte_of_round_trips(s, z);
}

} // verus!
