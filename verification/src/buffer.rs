//! A text buffer: a rope with a path, a version, a dirty mark and the edits
//! that the syntax layer has not seen yet.

use ropey::Rope;
use vstd::prelude::*;

use crate::error::EditorError;
use crate::rope;
use crate::rope::{rope_line, rope_remove, rope_slice, rope_text};
use crate::text;
use crate::text::{byte_len, char_len, to_chars};

pub mod laws;

verus! {

/// A single mutation in byte offsets and zero-based row and byte-column points.
#[derive(Clone, Copy, Debug, PartialEq, Eq, Structural)]
pub struct Edit {
    pub start_byte: usize,
    pub old_end_byte: usize,
    pub new_end_byte: usize,
    pub start_row: usize,
    pub start_col: usize,
    pub old_end_row: usize,
    pub old_end_col: usize,
    pub new_end_row: usize,
    pub new_end_col: usize,
}

/// What a buffer is.
#[verifier::ext_equal]
pub struct BufferModel {
    pub text: Seq<char>,
    pub path: Option<Seq<char>>,
    pub version: u64,
    pub dirty: bool,
    pub edits: Seq<Edit>,
}

pub struct Buffer {
    rope: Rope,
    path: Option<String>,
    version: u64,
    dirty: bool,
    pending_edits: Vec<Edit>,
}

/// Frozen buffer state, to be handed to `Buffer::restore`.
pub struct BufferSnapshot {
    rope: Rope,
    dirty: bool,
    pending_edits: Vec<Edit>,
}

/// What a snapshot keeps.
pub struct SnapshotModel {
    pub text: Seq<char>,
    pub dirty: bool,
    pub edits: Seq<Edit>,
}

pub open spec fn option_view(o: Option<String>) -> Option<Seq<char>> {
    match o {
        Some(s) => Some(s@),
        None => None,
    }
}

impl View for Buffer {
    type V = BufferModel;

    closed spec fn view(&self) -> BufferModel {
        BufferModel {
            text: rope::rope_chars(self.rope),
            path: option_view(self.path),
            version: self.version,
            dirty: self.dirty,
            edits: self.pending_edits@,
        }
    }
}

impl View for BufferSnapshot {
    type V = SnapshotModel;

    closed spec fn view(&self) -> SnapshotModel {
        SnapshotModel {
            text: rope::rope_chars(self.rope),
            dirty: self.dirty,
            edits: self.pending_edits@,
        }
    }
}

/// The version after `v`.
pub open spec fn next_version(v: u64) -> u64 {
    if v == u64::MAX {
        0
    } else {
        (v + 1) as u64
    }
}

// ------------------------------------------------------------ text operations

/// `s` with `t` put in at position `i`.
pub open spec fn inserted(s: Seq<char>, i: int, t: Seq<char>) -> Seq<char> {
    s.take(i) + t + s.skip(i)
}

/// `s` without the characters from `start` to `end`.
pub open spec fn removed(s: Seq<char>, start: int, end: int) -> Seq<char> {
    s.take(start) + s.skip(end)
}

/// `s` with the characters from `start` to `end` replaced by `t`.
pub open spec fn replaced(s: Seq<char>, start: int, end: int, t: Seq<char>) -> Seq<char> {
    s.take(start) + t + s.skip(end)
}

// ----------------------------------------------------------- edit coordinates

/// The row that a position is on.
pub open spec fn row_at(s: Seq<char>, i: int) -> int {
    rope::line_of(s, i) as int
}

/// The byte column of a position within its row.
pub open spec fn col_at(s: Seq<char>, i: int) -> int {
    rope::byte_of(s, i) - rope::byte_of(s, rope::line_start(s, row_at(s, i)))
}

/// The row that a byte offset is on.
pub open spec fn row_at_byte(s: Seq<char>, b: int) -> int {
    rope::line_of(s, rope::char_of_byte(s, b)) as int
}

/// The byte column of a byte offset within its row.
pub open spec fn col_at_byte(s: Seq<char>, b: int) -> int {
    b - rope::byte_of(s, rope::line_start(s, row_at_byte(s, b)))
}

/// How many line feeds `s` holds.
pub open spec fn newlines(s: Seq<char>) -> nat
    decreases s.len(),
{
    if s.len() == 0 {
        0
    } else if s.last() == '\n' {
        newlines(s.drop_last()) + 1
    } else {
        newlines(s.drop_last())
    }
}

/// What follows the last line feed of `s`.
pub open spec fn last_row(s: Seq<char>) -> Seq<char>
    decreases s.len(),
{
    if s.len() == 0 || s.last() == '\n' {
        Seq::empty()
    } else {
        last_row(s.drop_last()).push(s.last())
    }
}

/// The point right after text `s` that starts at row `row`, byte column `col`.
pub open spec fn advanced(row: int, col: int, s: Seq<char>) -> (int, int) {
    if newlines(s) > 0 {
        (row + newlines(s), text::utf8_len(last_row(s)) as int)
    } else {
        (row, col + text::utf8_len(s))
    }
}

/// The edit that inserting `t` at position `i` of `s` records.
pub open spec fn insert_edit(s: Seq<char>, i: int, t: Seq<char>) -> Edit {
    let byte = rope::byte_of(s, i);
    let row = row_at(s, i);
    let col = col_at(s, i);
    let end = advanced(row, col, t);
    Edit {
        start_byte: byte as usize,
        old_end_byte: byte as usize,
        new_end_byte: (byte + text::utf8_len(t)) as usize,
        start_row: row as usize,
        start_col: col as usize,
        old_end_row: row as usize,
        old_end_col: col as usize,
        new_end_row: end.0 as usize,
        new_end_col: end.1 as usize,
    }
}

/// The edit that removing the characters from `start` to `end` records.
pub open spec fn remove_edit(s: Seq<char>, start: int, end: int) -> Edit {
    Edit {
        start_byte: rope::byte_of(s, start) as usize,
        old_end_byte: rope::byte_of(s, end) as usize,
        new_end_byte: rope::byte_of(s, start) as usize,
        start_row: row_at(s, start) as usize,
        start_col: col_at(s, start) as usize,
        old_end_row: row_at(s, end) as usize,
        old_end_col: col_at(s, end) as usize,
        new_end_row: row_at(s, start) as usize,
        new_end_col: col_at(s, start) as usize,
    }
}

/// The edit that replacing the bytes from `start` to `end` by `t` records.
pub open spec fn node_edit(s: Seq<char>, start: int, end: int, t: Seq<char>) -> Edit {
    let point = advanced(row_at_byte(s, start), col_at_byte(s, start), t);
    Edit {
        start_byte: start as usize,
        old_end_byte: end as usize,
        new_end_byte: (start + text::utf8_len(t)) as usize,
        start_row: row_at_byte(s, start) as usize,
        start_col: col_at_byte(s, start) as usize,
        old_end_row: row_at_byte(s, end) as usize,
        old_end_col: col_at_byte(s, end) as usize,
        new_end_row: point.0 as usize,
        new_end_col: point.1 as usize,
    }
}

// ---------------------------------------------------------- model transitions

/// A buffer after a mutation that gives it text `t` and records edit `e`.
pub open spec fn mutated(b: BufferModel, t: Seq<char>, e: Edit) -> BufferModel {
    BufferModel {
        text: t,
        path: b.path,
        version: next_version(b.version),
        dirty: true,
        edits: b.edits.push(e),
    }
}

pub open spec fn after_insert_str(b: BufferModel, i: int, t: Seq<char>) -> BufferModel {
    mutated(b, inserted(b.text, i, t), insert_edit(b.text, i, t))
}

pub open spec fn after_insert_char(b: BufferModel, i: int, c: char) -> BufferModel {
    after_insert_str(b, i, seq![c])
}

pub open spec fn after_delete(b: BufferModel, start: int, end: int) -> BufferModel {
    if start >= end {
        b
    } else {
        mutated(b, removed(b.text, start, end), remove_edit(b.text, start, end))
    }
}

/// The text after the bytes from `start` to `end` are replaced: the characters
/// from the one that `start` belongs to, up to the one that `end` belongs to,
/// make room for `t`.
pub open spec fn node_replaced(s: Seq<char>, start: int, end: int, t: Seq<char>) -> Seq<char> {
    let a = rope::char_of_byte(s, start);
    let z = rope::char_of_byte(s, end);
    replaced(
        s,
        a,
        if a < z {
            z
        } else {
            a
        },
        t,
    )
}

pub open spec fn after_replace_node(
    b: BufferModel,
    start: int,
    end: int,
    t: Seq<char>,
) -> BufferModel {
    mutated(b, node_replaced(b.text, start, end, t), node_edit(b.text, start, end, t))
}

pub open spec fn snapshot_of(b: BufferModel) -> SnapshotModel {
    SnapshotModel { text: b.text, dirty: b.dirty, edits: b.edits }
}

pub open spec fn after_restore(b: BufferModel, snap: SnapshotModel) -> BufferModel {
    BufferModel {
        text: snap.text,
        path: b.path,
        version: next_version(b.version),
        dirty: snap.dirty,
        edits: snap.edits,
    }
}

// ---------------------------------------------------------------------- lemmas

proof fn lemma_newlines_bound(s: Seq<char>)
    ensures
        newlines(s) <= s.len(),
        text::utf8_len(last_row(s)) <= text::utf8_len(s),
    decreases s.len(),
{
    if s.len() > 0 {
        lemma_newlines_bound(s.drop_last());
        if s.last() != '\n' {
            text::lemma_utf8_len_push(last_row(s.drop_last()), s.last());
        }
    }
}

proof fn lemma_inserted_sizes(s: Seq<char>, i: int, t: Seq<char>)
    requires
        0 <= i <= s.len(),
    ensures
        text::utf8_len(inserted(s, i, t)) == text::utf8_len(s) + text::utf8_len(t),
        inserted(s, i, t).len() == s.len() + t.len(),
        rope::byte_of(s, i) <= text::utf8_len(s),
{
    text::lemma_utf8_len_concat(s.take(i), t);
    text::lemma_utf8_len_concat(s.take(i) + t, s.skip(i));
    text::lemma_utf8_len_concat(s.take(i), s.skip(i));
    assert(s.take(i) + s.skip(i) =~= s);
}

/// The line of a position starts at or before it.
proof fn lemma_col(s: Seq<char>, i: int)
    requires
        0 <= i <= s.len(),
    ensures
        0 <= rope::line_start(s, row_at(s, i)) <= i,
        0 <= col_at(s, i) <= rope::byte_of(s, i),
        row_at(s, i) < rope::line_count(s),
        row_at(s, i) <= i,
{
    rope::lemma_line_of_monotone(s, i, s.len() as int);
    rope::lemma_line_of_position(s, row_at(s, i), i);
    rope::lemma_line_start(s, row_at(s, i));
    rope::lemma_line_of_bound(s, i);
    text::lemma_utf8_len_take(s, rope::line_start(s, row_at(s, i)), i);
}

/// The row of a byte offset starts at or before it.
proof fn lemma_col_byte(s: Seq<char>, b: int)
    requires
        0 <= b <= text::utf8_len(s),
    ensures
        0 <= rope::char_of_byte(s, b) <= s.len(),
        0 <= rope::line_start(s, row_at_byte(s, b)) <= rope::char_of_byte(s, b),
        0 <= col_at_byte(s, b) <= b,
        row_at_byte(s, b) < rope::line_count(s),
        row_at_byte(s, b) <= rope::char_of_byte(s, b),
{
    rope::lemma_char_of_byte(s, b);
    lemma_col(s, rope::char_of_byte(s, b));
}

// -------------------------------------------------------------- implementation

/// The point right after text `s` that starts at `(row, col)`.
pub fn advance_by(row: usize, col: usize, s: &str) -> (r: (usize, usize))
    requires
        row + newlines(s@) <= usize::MAX,
        col + text::utf8_len(s@) <= usize::MAX,
    ensures
        (r.0 as int, r.1 as int) == advanced(row as int, col as int, s@),
{
    let cs = to_chars(s);
    let mut out_row: usize = row;
    let mut tail: usize = 0;
    let mut i: usize = 0;
    let total: usize = byte_len(s);
    assert(s@.take(0) =~= Seq::<char>::empty());
    while i < cs.len()
        invariant
            cs@ == s@,
            i <= s@.len(),
            total == text::utf8_len(s@),
            row + newlines(s@) <= usize::MAX,
            out_row == row + newlines(s@.take(i as int)),
            tail == text::utf8_len(last_row(s@.take(i as int))),
            newlines(s@.take(i as int)) == 0 ==> last_row(s@.take(i as int)) == s@.take(i as int),
        decreases s@.len() - i,
    {
        let ghost before = s@.take(i as int);
        let ghost after = s@.take(i + 1);
        assert(after.drop_last() =~= before);
        proof {
            lemma_newlines_take(s@, i + 1);
            lemma_newlines_bound(before);
            text::lemma_utf8_len_take(s@, i + 1, s@.len() as int);
            assert(s@.take(s@.len() as int) =~= s@);
            text::lemma_utf8_len_push(last_row(before), s@[i as int]);
            text::lemma_utf8_len_push(before, s@[i as int]);
            assert(before.push(s@[i as int]) =~= after);
        }
        if cs[i] == '\n' {
            out_row = out_row + 1;
            tail = 0;
        } else {
            tail = tail + char_len(cs[i]);
        }
        i += 1;
    }
    assert(s@.take(i as int) =~= s@);
    if out_row > row {
        (out_row, tail)
    } else {
        (row, col + total)
    }
}

proof fn lemma_newlines_take(s: Seq<char>, i: int)
    requires
        0 <= i <= s.len(),
    ensures
        newlines(s.take(i)) <= newlines(s),
    decreases s.len() - i,
{
    if i < s.len() {
        lemma_newlines_take(s, i + 1);
        assert(s.take(i + 1).drop_last() =~= s.take(i));
    } else {
        assert(s.take(i) =~= s);
    }
}

impl Buffer {
    /// The buffer of the file at `path`, whose contents are `contents`; a file
    /// that does not exist gives an empty buffer.
    pub fn open(path: String, contents: Option<&str>) -> (r: Buffer)
        ensures
            r@ == (BufferModel {
                text: match contents {
                    Some(c) => c@,
                    None => Seq::<char>::empty(),
                },
                path: Some(path@),
                version: 0,
                dirty: false,
                edits: Seq::<Edit>::empty(),
            }),
    {
        let rope = match contents {
            Some(c) => Rope::from_str(c),
            None => Rope::new(),
        };
        Buffer { rope, path: Some(path), version: 0, dirty: false, pending_edits: Vec::new() }
    }

    /// Empty buffer with no path.
    pub fn scratch() -> (r: Buffer)
        ensures
            r@ == (BufferModel {
                text: Seq::<char>::empty(),
                path: None,
                version: 0,
                dirty: false,
                edits: Seq::<Edit>::empty(),
            }),
    {
        Buffer {
            rope: Rope::new(),
            path: None,
            version: 0,
            dirty: false,
            pending_edits: Vec::new(),
        }
    }

    /// Puts `c` at position `char_idx`.
    pub fn insert_char(&mut self, char_idx: usize, c: char)
        requires
            char_idx <= old(self)@.text.len(),
        ensures
            final(self)@ == after_insert_char(old(self)@, char_idx as int, c),
    {
        let ghost s = self@.text;
        let ghost t = seq![c];
        let (start_byte, row, col) = self.byte_row_col_at_char(char_idx);
        let c_len: usize = char_len(c);
        self.rope.insert_char(char_idx, c);
        proof {
            assert(s.insert(char_idx as int, c) =~= inserted(s, char_idx as int, t));
            lemma_inserted_sizes(s, char_idx as int, t);
            lemma_col(s, char_idx as int);
            assert(t.drop_last() =~= Seq::<char>::empty());
            assert(text::utf8_len(Seq::<char>::empty()) == 0);
            assert(newlines(Seq::<char>::empty()) == 0);
            assert(text::utf8_len(t) == text::char_bytes(c));
            assert(newlines(t) == if c == '\n' {
                1nat
            } else {
                0nat
            });
            assert(c == '\n' ==> last_row(t) =~= Seq::<char>::empty());
        }
        let total: usize = self.rope.len_bytes();
        let count: usize = self.rope.len_chars();
        let (new_end_row, new_end_col) = if c == '\n' {
            (row + 1, 0)
        } else {
            (row, col + c_len)
        };
        self.push_edit(
            Edit {
                start_byte,
                old_end_byte: start_byte,
                new_end_byte: start_byte + c_len,
                start_row: row,
                start_col: col,
                old_end_row: row,
                old_end_col: col,
                new_end_row,
                new_end_col,
            },
        );
    }

    /// Puts `s` at position `char_idx`.
    pub fn insert_str(&mut self, char_idx: usize, s: &str)
        requires
            char_idx <= old(self)@.text.len(),
        ensures
            final(self)@ == after_insert_str(old(self)@, char_idx as int, s@),
    {
        let ghost before = self@.text;
        let (start_byte, row, col) = self.byte_row_col_at_char(char_idx);
        let len: usize = byte_len(s);
        self.rope.insert(char_idx, s);
        proof {
            lemma_inserted_sizes(before, char_idx as int, s@);
            lemma_col(before, char_idx as int);
            lemma_newlines_bound(s@);
        }
        let total: usize = self.rope.len_bytes();
        let count: usize = self.rope.len_chars();
        let (new_end_row, new_end_col) = advance_by(row, col, s);
        self.push_edit(
            Edit {
                start_byte,
                old_end_byte: start_byte,
                new_end_byte: start_byte + len,
                start_row: row,
                start_col: col,
                old_end_row: row,
                old_end_col: col,
                new_end_row,
                new_end_col,
            },
        );
    }

    /// Takes out the characters from `start` to `end`; an empty range changes
    /// nothing.
    pub fn delete_range(&mut self, start: usize, end: usize)
        requires
            start < end ==> end <= old(self)@.text.len(),
        ensures
            final(self)@ == after_delete(old(self)@, start as int, end as int),
    {
        if start >= end {
            return;
        }
        let (start_byte, start_row, start_col) = self.byte_row_col_at_char(start);
        let (end_byte, end_row, end_col) = self.byte_row_col_at_char(end);
        rope_remove(&mut self.rope, start, end);
        self.push_edit(
            Edit {
                start_byte,
                old_end_byte: end_byte,
                new_end_byte: start_byte,
                start_row,
                start_col,
                old_end_row: end_row,
                old_end_col: end_col,
                new_end_row: start_row,
                new_end_col: start_col,
            },
        );
    }

    /// Swaps the bytes from `start` to `end` for `s`.
    pub fn replace_node(&mut self, start: usize, end: usize, s: &str)
        requires
            start <= text::utf8_len(old(self)@.text),
            end <= text::utf8_len(old(self)@.text),
        ensures
            final(self)@ == after_replace_node(old(self)@, start as int, end as int, s@),
    {
        let ghost before = self@.text;
        proof {
            lemma_col_byte(before, start as int);
            lemma_col_byte(before, end as int);
            lemma_newlines_bound(s@);
        }
        let (start_row, start_col) = self.row_col_at_byte(start);
        let (old_end_row, old_end_col) = self.row_col_at_byte(end);
        let start_char: usize = self.rope.byte_to_char(start);
        let end_char: usize = self.rope.byte_to_char(end);
        let len: usize = byte_len(s);
        let count: usize = to_chars(s).len();
        self.rope.insert(start_char, s);
        let ghost mid = rope::rope_chars(self.rope);
        proof {
            lemma_inserted_sizes(before, start_char as int, s@);
            assert(mid == inserted(before, start_char as int, s@));
            lemma_col(before, start_char as int);
        }
        let total: usize = self.rope.len_bytes();
        let chars: usize = self.rope.len_chars();
        let (new_end_row, new_end_col) = advance_by(start_row, start_col, s);
        if start_char < end_char {
            rope_remove(&mut self.rope, start_char + count, end_char + count);
            assert(removed(mid, start_char + count, end_char + count) =~= replaced(
                before,
                start_char as int,
                end_char as int,
                s@,
            ));
        } else {
            assert(mid =~= replaced(before, start_char as int, start_char as int, s@));
        }
        self.push_edit(
            Edit {
                start_byte: start,
                old_end_byte: end,
                new_end_byte: start + len,
                start_row,
                start_col,
                old_end_row,
                old_end_col,
                new_end_row,
                new_end_col,
            },
        );
    }

    /// Where a save would go, and what it would write.
    pub fn save_target(&self) -> (r: Result<(String, String), EditorError>)
        ensures
            match r {
                Ok((path, contents)) => self@.path == Some(path@) && contents@ == self@.text,
                Err(e) => self@.path is None && e == EditorError::NoPathToSave,
            },
    {
        match &self.path {
            Some(p) => Ok((p.clone(), rope_text(&self.rope))),
            None => Err(EditorError::NoPathToSave),
        }
    }

    /// Ends a save: `written` is what became of writing the text to the path.
    /// Returns the number of bytes written.
    pub fn save(&mut self, written: Result<(), EditorError>) -> (r: Result<usize, EditorError>)
        ensures
            old(self)@.path is None ==> {
                &&& r == Err::<usize, _>(EditorError::NoPathToSave)
                &&& *final(self) == *old(self)
            },
            old(self)@.path is Some ==> match written {
                Ok(_) => r == Ok::<usize, EditorError>(text::utf8_len(old(self)@.text) as usize)
                    && r->Ok_0 == text::utf8_len(old(self)@.text) && final(self)@ == (BufferModel {
                    dirty: false,
                    ..old(self)@
                }),
                Err(e) => r == Err::<usize, _>(e) && *final(self) == *old(self),
            },
    {
        if self.path.is_none() {
            return Err(EditorError::NoPathToSave);
        }
        match written {
            Ok(_) => {
                let bytes: usize = self.rope.len_bytes();
                self.dirty = false;
                Ok(bytes)
            },
            Err(e) => Err(e),
        }
    }

    /// The text of line `idx`, with its line break.
    pub fn line(&self, idx: usize) -> (r: String)
        requires
            idx < rope::line_count(self@.text),
        ensures
            r@ == rope::line_text(self@.text, idx as int),
    {
        rope_line(&self.rope, idx)
    }

    pub fn line_count(&self) -> (r: usize)
        ensures
            r == rope::line_count(self@.text),
    {
        self.rope.len_lines()
    }

    pub fn len_chars(&self) -> (r: usize)
        ensures
            r == self@.text.len(),
    {
        self.rope.len_chars()
    }

    pub fn len_bytes(&self) -> (r: usize)
        ensures
            r == text::utf8_len(self@.text),
    {
        self.rope.len_bytes()
    }

    /// The number of columns of line `line`.
    pub fn line_len_chars(&self, line: usize) -> (r: usize)
        requires
            line < rope::line_count(self@.text),
        ensures
            r == rope::line_len(self@.text, line as int),
            rope::line_start(self@.text, line as int) + r <= self@.text.len(),
    {
        let lines: usize = self.rope.len_lines();
        let start: usize = self.rope.line_to_char(line);
        let end: usize = self.rope.line_to_char(line + 1);
        let ghost s = self@.text;
        proof {
            rope::lemma_line_start(s, line as int);
            rope::lemma_line_start(s, line + 1);
            rope::lemma_line_start_monotone(s, line as int, line + 1);
            if start < end {
                assert(s.subrange(start as int, end as int).last() == s[end - 1]);
            }
        }
        if end > start {
            let c = self.rope.char(end - 1);
            if c == '\n' || c == '\r' {
                return end - start - 1;
            }
        }
        end - start
    }

    pub fn line_to_char(&self, line: usize) -> (r: usize)
        requires
            line <= rope::line_count(self@.text),
        ensures
            r == rope::line_start(self@.text, line as int),
            r <= self@.text.len(),
    {
        proof {
            rope::lemma_line_start(self@.text, line as int);
        }
        self.rope.line_to_char(line)
    }

    pub fn char_to_line(&self, char_idx: usize) -> (r: usize)
        requires
            char_idx <= self@.text.len(),
        ensures
            r == rope::line_of(self@.text, char_idx as int),
            r < rope::line_count(self@.text),
    {
        proof {
            rope::lemma_line_of_monotone(self@.text, char_idx as int, self@.text.len() as int);
        }
        self.rope.char_to_line(char_idx)
    }

    pub fn char_at(&self, char_idx: usize) -> (c: char)
        requires
            char_idx < self@.text.len(),
        ensures
            c == self@.text[char_idx as int],
    {
        self.rope.char(char_idx)
    }

    /// The underlying rope.
    pub fn rope(&self) -> (r: &Rope)
        ensures
            rope::rope_chars(*r) == self@.text,
    {
        &self.rope
    }

    /// The whole text.
    pub fn text(&self) -> (r: String)
        ensures
            r@ == self@.text,
    {
        rope_text(&self.rope)
    }

    /// The text between two positions.
    pub fn slice(&self, start: usize, end: usize) -> (r: String)
        requires
            start <= end <= self@.text.len(),
        ensures
            r@ == self@.text.subrange(start as int, end as int),
    {
        rope_slice(&self.rope, start, end)
    }

    pub fn version(&self) -> (r: u64)
        ensures
            r == self@.version,
    {
        self.version
    }

    pub fn is_dirty(&self) -> (r: bool)
        ensures
            r == self@.dirty,
    {
        self.dirty
    }

    pub fn path(&self) -> (r: Option<&str>)
        ensures
            match r {
                Some(p) => self@.path == Some(p@),
                None => self@.path is None,
            },
    {
        match &self.path {
            Some(p) => Some(p.as_str()),
            None => None,
        }
    }

    /// Hands off the queued edits.
    pub fn drain_edits(&mut self) -> (r: Vec<Edit>)
        ensures
            r@ == old(self)@.edits,
            final(self)@ == (BufferModel { edits: Seq::<Edit>::empty(), ..old(self)@ }),
    {
        let mut taken: Vec<Edit> = Vec::new();
        std::mem::swap(&mut taken, &mut self.pending_edits);
        taken
    }

    /// Captures the state that `restore` brings back.
    pub fn snapshot(&self) -> (r: BufferSnapshot)
        ensures
            r@ == snapshot_of(self@),
    {
        BufferSnapshot {
            rope: self.rope.clone(),
            dirty: self.dirty,
            pending_edits: copy_edits(&self.pending_edits),
        }
    }

    /// Brings back a snapshot. The version moves on rather than back, so that
    /// whatever was derived from the state in between counts as stale.
    pub fn restore(&mut self, snap: BufferSnapshot)
        ensures
            final(self)@ == after_restore(old(self)@, snap@),
    {
        self.rope = snap.rope;
        self.version = self.version.wrapping_add(1);
        self.dirty = snap.dirty;
        self.pending_edits = snap.pending_edits;
    }

    fn byte_row_col_at_char(&self, char_idx: usize) -> (r: (usize, usize, usize))
        requires
            char_idx <= self@.text.len(),
        ensures
            r.0 == rope::byte_of(self@.text, char_idx as int),
            r.1 == row_at(self@.text, char_idx as int),
            r.2 == col_at(self@.text, char_idx as int),
    {
        proof {
            lemma_col(self@.text, char_idx as int);
        }
        let byte: usize = self.rope.char_to_byte(char_idx);
        let row: usize = self.rope.char_to_line(char_idx);
        let col: usize = byte - self.rope.line_to_byte(row);
        (byte, row, col)
    }

    fn row_col_at_byte(&self, byte_idx: usize) -> (r: (usize, usize))
        requires
            byte_idx <= text::utf8_len(self@.text),
        ensures
            r.0 == row_at_byte(self@.text, byte_idx as int),
            r.1 == col_at_byte(self@.text, byte_idx as int),
    {
        proof {
            lemma_col_byte(self@.text, byte_idx as int);
        }
        let row: usize = self.rope.byte_to_line(byte_idx);
        let col: usize = byte_idx - self.rope.line_to_byte(row);
        (row, col)
    }

    fn push_edit(&mut self, edit: Edit)
        ensures
            final(self)@ == mutated(old(self)@, old(self)@.text, edit),
    {
        self.pending_edits.push(edit);
        self.version = self.version.wrapping_add(1);
        self.dirty = true;
    }
}


fn copy_edits(edits: &Vec<Edit>) -> (r: Vec<Edit>)
    ensures
        r@ == edits@,
{
    let mut r: Vec<Edit> = Vec::new();
    let mut i: usize = 0;
    while i < edits.len()
        invariant
            i <= edits@.len(),
            r@ == edits@.take(i as int),
        decreases edits@.len() - i,
    {
        r.push(edits[i]);
        i += 1;
        assert(edits@.take(i as int).drop_last() =~= edits@.take(i - 1));
    }
    assert(edits@.take(i as int) =~= edits@);
    r
}

} // verus!
