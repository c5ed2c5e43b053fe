//! The runtime as the terminal sees it: lines to draw, buffer facts for the
//! status line, keystroke edits and saves.

use vstd::prelude::*;

use super::EditorCore;
use crate::buffer;
use crate::buffer::Buffer;
use crate::error::EditorError;
use crate::rope;
use crate::runtime;
use crate::scan;
use crate::syntax;
use crate::syntax::HighlightSpan;
use crate::text;
use crate::text::{substring, to_chars};
use crate::tx;

verus! {

/// One line to draw.
pub struct RenderLine {
    pub text: String,
    pub spans: Vec<HighlightSpan>,
}

/// What the status line says of a buffer.
pub struct BufferMeta {
    pub path: Option<String>,
    pub dirty: bool,
    pub line_count: usize,
    pub version: u64,
}

/// A line without the line feed it ends with and a carriage return before that.
pub open spec fn drawn(line: Seq<char>) -> Seq<char> {
    if line.len() > 0 && line.last() == '\n' {
        scan::strip_cr(line.drop_last())
    } else {
        line
    }
}

/// A line to draw is line `line` of an entry; past the last line it is empty.
pub open spec fn draws(r: RenderLine, e: runtime::EntryModel, line: int) -> bool {
    if line < rope::line_count(e.buffer.text) {
        &&& r.text@ == drawn(rope::line_text(e.buffer.text, line))
        &&& r.spans@ == match e.syntax {
            Some(x) => if line < x.spans.len() {
                x.spans[line]
            } else {
                Seq::<HighlightSpan>::empty()
            },
            None => Seq::<HighlightSpan>::empty(),
        }
    } else {
        r.text@.len() == 0 && r.spans@.len() == 0
    }
}

/// A line without its line break.
pub fn drawn_line(line: &str) -> (r: String)
    ensures
        r@ == drawn(line@),
{
    let cs = to_chars(line);
    let mut end: usize = cs.len();
    if end > 0 && cs[end - 1] == '\n' {
        end -= 1;
        if end > 0 && cs[end - 1] == '\r' {
            end -= 1;
        }
    }
    let r = substring(&cs, 0, end);
    assert(r@ =~= drawn(line@));
    r
}

/// An edit from the terminal: of characters by their places, or of the bytes of a node.
#[derive(Debug)]
pub enum KeyEdit {
    Nothing,
    InsertChar(usize, char),
    InsertStr(usize, String),
    Delete(usize, usize),
    ReplaceNode(usize, usize, String),
}

/// A buffer after an edit from the terminal.
pub open spec fn after_key_edit(b: buffer::BufferModel, edit: KeyEdit) -> buffer::BufferModel {
    match edit {
        KeyEdit::Nothing => b,
        KeyEdit::InsertChar(i, c) => buffer::after_insert_char(b, i as int, c),
        KeyEdit::InsertStr(i, s) => buffer::after_insert_str(b, i as int, s@),
        KeyEdit::Delete(start, end) => buffer::after_delete(b, start as int, end as int),
        KeyEdit::ReplaceNode(start, end, s) => buffer::after_replace_node(
            b,
            start as int,
            end as int,
            s@,
        ),
    }
}

/// An edit from the terminal lies within a text.
pub open spec fn key_edit_fits(s: Seq<char>, edit: KeyEdit) -> bool {
    match edit {
        KeyEdit::Nothing => true,
        KeyEdit::InsertChar(i, _) => i <= s.len(),
        KeyEdit::InsertStr(i, _) => i <= s.len(),
        KeyEdit::Delete(start, end) => start < end ==> end <= s.len(),
        KeyEdit::ReplaceNode(start, end, _) => start <= text::utf8_len(s) && end
            <= text::utf8_len(s),
    }
}

/// Applies an edit from the terminal.
pub fn apply_key_edit(b: &mut Buffer, edit: KeyEdit)
    requires
        key_edit_fits(old(b)@.text, edit),
    ensures
        final(b)@ == after_key_edit(old(b)@, edit),
{
    match edit {
        KeyEdit::Nothing => {},
        KeyEdit::InsertChar(i, c) => b.insert_char(i, c),
        KeyEdit::InsertStr(i, s) => b.insert_str(i, &s),
        KeyEdit::Delete(start, end) => b.delete_range(start, end),
        KeyEdit::ReplaceNode(start, end, s) => b.replace_node(start, end, &s),
    }
}

/// The runtime after an edit from the terminal of entry `k`: an edit that changes
/// nothing leaves no trace but a used transaction id; another is a transaction
/// of its own.
pub open spec fn key_edited(
    m: runtime::CoreModel,
    k: int,
    intent: Seq<char>,
    edit: KeyEdit,
) -> runtime::CoreModel {
    let e = m.entries[k];
    let b = after_key_edit(e.buffer, edit);
    if b.version == e.buffer.version {
        runtime::CoreModel {
            tx: tx::TxModel { next_tx: (m.tx.next_tx + 1) as u64, ..m.tx },
            ..m
        }
    } else {
        runtime::settled(
            runtime::CoreModel {
                tx: runtime::logged(m.tx, intent, b),
                ..runtime::with_entry(m, k, runtime::EntryModel { buffer: b, ..e })
            },
            k,
        )
    }
}

impl EditorCore {
    /// A buffer, to look at.
    pub fn buffer_ref(&self, buffer_id: u64) -> (r: Result<&Buffer, EditorError>)
        ensures
            match runtime::place_of(self@.entries, buffer_id) {
                Some(k) => r is Ok && r->Ok_0@ == self@.entries[k].buffer,
                None => r == Err::<&Buffer, _>(EditorError::UnknownBuffer { id: buffer_id }),
            },
    {
        match self.find(buffer_id) {
            Some(k) => {
                assert(self@.entries[k as int] == self.buffers@[k as int]@);
                Ok(&self.buffers[k].buffer)
            },
            None => Err(EditorError::UnknownBuffer { id: buffer_id }),
        }
    }

    /// What the status line says of a buffer.
    pub fn buffer_meta(&self, buffer_id: u64) -> (r: Result<BufferMeta, EditorError>)
        ensures
            match runtime::place_of(self@.entries, buffer_id) {
                Some(k) => {
                    let b = self@.entries[k].buffer;
                    &&& r is Ok
                    &&& buffer::option_view(r->Ok_0.path) == b.path
                    &&& r->Ok_0.dirty == b.dirty
                    &&& r->Ok_0.line_count == rope::line_count(b.text)
                    &&& r->Ok_0.version == b.version
                },
                None => r == Err::<BufferMeta, _>(EditorError::UnknownBuffer { id: buffer_id }),
            },
    {
        match self.find(buffer_id) {
            Some(k) => {
                assert(self@.entries[k as int] == self.buffers@[k as int]@);
                let b = &self.buffers[k].buffer;
                let path = match b.path() {
                    Some(p) => Some(p.to_string()),
                    None => None,
                };
                Ok(
                    BufferMeta {
                        path,
                        dirty: b.is_dirty(),
                        line_count: b.line_count(),
                        version: b.version(),
                    },
                )
            },
            None => Err(EditorError::UnknownBuffer { id: buffer_id }),
        }
    }

    /// The `rows` lines from `top_line` on.
    pub fn render_lines(&self, buffer_id: u64, top_line: usize, rows: usize) -> (r: Result<
        Vec<RenderLine>,
        EditorError,
    >)
        requires
            top_line + rows <= usize::MAX,
        ensures
            match runtime::place_of(self@.entries, buffer_id) {
                Some(k) => {
                    &&& r is Ok
                    &&& r->Ok_0@.len() == rows
                    &&& forall|i: int|
                        0 <= i < rows ==> draws(
                            #[trigger] r->Ok_0@[i],
                            self@.entries[k],
                            top_line + i,
                        )
                },
                None => r == Err::<Vec<RenderLine>, _>(
                    EditorError::UnknownBuffer { id: buffer_id },
                ),
            },
    {
        let k: usize = match self.find(buffer_id) {
            Some(k) => k,
            None => {
                return Err(EditorError::UnknownBuffer { id: buffer_id });
            },
        };
        assert(self@.entries[k as int] == self.buffers@[k as int]@);
        let entry = &self.buffers[k];
        let total: usize = entry.buffer.line_count();
        let mut out: Vec<RenderLine> = Vec::new();
        let mut i: usize = 0;
        while i < rows
            invariant
                top_line + rows <= usize::MAX,
                total == rope::line_count(entry@.buffer.text),
                i <= rows,
                out@.len() == i,
                forall|j: int| 0 <= j < i ==> draws(#[trigger] out@[j], entry@, top_line + j),
            decreases rows - i,
        {
            let line: usize = top_line + i;
            if line >= total {
                out.push(RenderLine { text: String::new(), spans: Vec::new() });
            } else {
                let text = drawn_line(&entry.buffer.line(line));
                let spans = match &entry.syntax {
                    Some(syn) => syn.line_spans(line),
                    None => Vec::new(),
                };
                out.push(RenderLine { text, spans });
            }
            i += 1;
        }
        Ok(out)
    }

    /// Runs an edit from the terminal as a transaction. Returns whether it changed the
    /// buffer.
    pub fn tui_apply_edit(&mut self, buffer_id: u64, intent: String, edit: KeyEdit) -> (r: Result<
        bool,
        EditorError,
    >)
        requires
            runtime::well_formed(old(self)@),
            runtime::room(old(self)@, 2),
            runtime::place_of(old(self)@.entries, buffer_id) matches Some(k) ==> key_edit_fits(
                old(self)@.entries[k].buffer.text,
                edit,
            ),
        ensures
            runtime::well_formed(final(self)@),
            exists|at: tx::Moment|
                tx::proper(at) && ({
                    let m = #[trigger] runtime::clocked(old(self)@, at);
                    match runtime::place_of(m.entries, buffer_id) {
                        Some(k) => {
                            let b = m.entries[k].buffer;
                            &&& r == Ok::<bool, EditorError>(
                                after_key_edit(b, edit).version != b.version,
                            )
                            &&& final(self)@ == key_edited(m, k, intent@, edit)
                        },
                        None => {
                            &&& r == Err::<bool, _>(EditorError::UnknownBuffer { id: buffer_id })
                            &&& final(self)@ == m
                        },
                    }
                }),
    {
        self.tick();
        self.apply_keystroke(buffer_id, intent, edit)
    }

    fn apply_keystroke(&mut self, buffer_id: u64, intent: String, edit: KeyEdit) -> (r: Result<
        bool,
        EditorError,
    >)
        requires
            runtime::well_formed(old(self)@),
            runtime::room(old(self)@, 2),
            runtime::place_of(old(self)@.entries, buffer_id) matches Some(k) ==> key_edit_fits(
                old(self)@.entries[k].buffer.text,
                edit,
            ),
        ensures
            runtime::well_formed(final(self)@),
            match runtime::place_of(old(self)@.entries, buffer_id) {
                Some(k) => {
                    let b = old(self)@.entries[k].buffer;
                    &&& r == Ok::<bool, EditorError>(after_key_edit(b, edit).version != b.version)
                    &&& final(self)@ == key_edited(old(self)@, k, intent@, edit)
                },
                None => {
                    &&& r == Err::<bool, _>(EditorError::UnknownBuffer { id: buffer_id })
                    &&& final(self)@ == old(self)@
                },
            },
    {
        let ghost m = self@;
        let k: usize = match self.find(buffer_id) {
            Some(k) => k,
            None => {
                return Err(EditorError::UnknownBuffer { id: buffer_id });
            },
        };
        let ghost e = m.entries[k as int];
        let ghost b = after_key_edit(e.buffer, edit);
        proof {
            assert(e == self.buffers@[k as int]@);
            tx::law_commit_appends_one_entry(m.tx, intent@, None, e.buffer, b);
        }
        let pre: u64 = self.buffers[k].buffer.version();
        let tx_id = self.tx_manager.begin(intent, None, &self.buffers[k].buffer);
        apply_key_edit(&mut self.buffers[k].buffer, edit);
        if self.buffers[k].buffer.version() == pre {
            let _ = self.tx_manager.discard(tx_id);
            proof {
                lemma_unchanged(e.buffer, edit);
                assert(self@.entries =~= m.entries);
                assert(self@.tx.active =~= m.tx.active);
                assert(self@ =~= key_edited(m, k as int, intent@, edit));
            }
            return Ok(false);
        }
        let _ = self.tx_manager.record(tx_id, &self.buffers[k].buffer);
        let ghost mid = runtime::CoreModel {
            tx: runtime::logged(m.tx, intent@, b),
            ..runtime::with_entry(m, k as int, runtime::EntryModel { buffer: b, ..e })
        };
        proof {
            assert(self@.entries =~= mid.entries);
            assert(self@.tx =~= mid.tx);
            assert(self@ =~= mid);
            runtime::lemma_focus_kept(m, mid);
            assert(runtime::well_formed(mid));
            runtime::lemma_settled(mid, k as int, 1);
        }
        self.settle(k);
        Ok(true)
    }

    /// Where a buffer is saved to, and what is written there.
    pub fn tui_save_target(&self, buffer_id: u64) -> (r: Result<(String, String), EditorError>)
        ensures
            match runtime::place_of(self@.entries, buffer_id) {
                Some(k) => match r {
                    Ok((path, contents)) => {
                        &&& self@.entries[k].buffer.path == Some(path@)
                        &&& contents@ == self@.entries[k].buffer.text
                    },
                    Err(e) => {
                        &&& self@.entries[k].buffer.path is None
                        &&& e == EditorError::NoPathToSave
                    },
                },
                None => r == Err::<(String, String), _>(
                    EditorError::UnknownBuffer { id: buffer_id },
                ),
            },
    {
        match self.find(buffer_id) {
            Some(k) => {
                assert(self@.entries[k as int] == self.buffers@[k as int]@);
                self.buffers[k].buffer.save_target()
            },
            None => Err(EditorError::UnknownBuffer { id: buffer_id }),
        }
    }

    /// Ends a save: `written` is what became of writing the text. Returns the
    /// number of bytes.
    pub fn tui_save(&mut self, buffer_id: u64, written: Result<(), EditorError>) -> (r: Result<
        usize,
        EditorError,
    >)
        requires
            runtime::well_formed(old(self)@),
        ensures
            runtime::well_formed(final(self)@),
            match runtime::place_of(old(self)@.entries, buffer_id) {
                None => {
                    &&& r == Err::<usize, _>(EditorError::UnknownBuffer { id: buffer_id })
                    &&& final(self)@ == old(self)@
                },
                Some(k) => {
                    let e = old(self)@.entries[k];
                    if e.buffer.path is None {
                        &&& r == Err::<usize, _>(EditorError::NoPathToSave)
                        &&& final(self)@ == old(self)@
                    } else {
                        match written {
                            Err(err) => r == Err::<usize, _>(err) && final(self)@ == old(self)@,
                            Ok(_) => {
                                &&& r is Ok && r->Ok_0 == text::utf8_len(e.buffer.text)
                                &&& final(self)@ == runtime::with_entry(
                                    old(self)@,
                                    k,
                                    runtime::EntryModel {
                                        buffer: buffer::BufferModel { dirty: false, ..e.buffer },
                                        ..e
                                    },
                                )
                            },
                        }
                    }
                },
            },
    {
        let ghost m = self@;
        match self.find(buffer_id) {
            Some(k) => {
                let ghost e = m.entries[k as int];
                assert(e == self.buffers@[k as int]@);
                let r = self.buffers[k].buffer.save(written);
                proof {
                    let saved = runtime::EntryModel { buffer: self.buffers@[k as int].buffer@, ..e };
                    assert(self@.entries =~= m.entries.update(k as int, saved));
                    if r is Ok {
                        runtime::lemma_focus_kept(m, self@);
                    } else {
                        assert(self@.entries =~= m.entries);
                    }
                }
                r
            },
            None => Err(EditorError::UnknownBuffer { id: buffer_id }),
        }
    }
}

/// An edit that does not move the version changes nothing.
proof fn lemma_unchanged(b: buffer::BufferModel, edit: KeyEdit)
    requires
        after_key_edit(b, edit).version == b.version,
    ensures
        after_key_edit(b, edit) == b,
{
}

/// A keystroke that changes nothing leaves no trace but a number that is used up: not
/// in the texts, not in the history, and no server hears of it.
pub proof fn law_empty_keystrokes_leave_no_trace(
    m: runtime::CoreModel,
    k: int,
    intent: Seq<char>,
    edit: KeyEdit,
)
    requires
        0 <= k < m.entries.len(),
        after_key_edit(m.entries[k].buffer, edit).version == m.entries[k].buffer.version,
    ensures
        key_edited(m, k, intent, edit).entries == m.entries,
        key_edited(m, k, intent, edit).tx.history == m.tx.history,
        key_edited(m, k, intent, edit).outbox == m.outbox,
{
}

} // verus!
