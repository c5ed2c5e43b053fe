//! The values of the agent protocol, and the text geometry behind them.

use ropey::Rope;
use vstd::prelude::*;

use crate::buffer;
use crate::buffer::Buffer;
use crate::error::EditorError;
use crate::lsp::{Diagnostic, DocumentSymbol, Position, Range, TextEdit};
use crate::order;
use crate::order::{chars_le, sort, Ranked};
use crate::proposals::ProposalId;
use crate::rope;
use crate::rope::rope_slice;
use crate::scan;
use crate::scan::{find_chars, index_until, split_lines, trim_bounds};
use crate::text;
use crate::text::{
    is_whitespace, join2, join3, lower_ascii_chars, owned, same, substring, to_chars, to_text,
};

pub mod facts;
pub mod laws;

verus! {

/// The id of the first buffer.
pub const SOLE_BUFFER_ID: u64 = 1;

#[derive(Debug)]
pub struct BufferListEntry {
    pub id: u64,
    pub path: Option<String>,
    pub dirty: bool,
    pub version: u64,
}

#[derive(Debug)]
pub struct BufferReadResponse {
    pub text: String,
    pub version: u64,
}

#[derive(Clone, Copy, Debug, PartialEq, Eq, Structural)]
pub struct CharRange {
    pub start: usize,
    pub end: usize,
}

#[derive(Clone, Copy, Debug, PartialEq, Eq, Structural)]
pub struct ByteRange {
    pub start: usize,
    pub end: usize,
}

#[derive(Debug)]
pub struct RenameApplied {
    pub buffer_id: u64,
    pub uri: String,
    pub edits: usize,
    pub new_version: u64,
}

/// Outcome of a rename: the loaded buffers whose changes were written, and the
/// documents that the server wanted to touch but that are not loaded.
#[derive(Debug)]
pub struct RenameResult {
    pub applied: Vec<RenameApplied>,
    pub skipped_files: Vec<String>,
}

#[derive(Debug)]
pub struct ClientInfo {
    pub id: String,
    pub kind: String,
    pub focus: Option<u64>,
}

/// Outcome of waiting for a server: whether it caught up, and the diagnostics it
/// gave last.
#[derive(Debug)]
pub struct DiagWaitResult {
    pub caught_up: bool,
    pub diagnostics: Vec<Diagnostic>,
}

/// One inline task marker.
#[derive(Debug)]
pub struct InlineTask {
    pub path: String,
    pub line: usize,
    pub kind: String,
    pub text: String,
}

/// One import declaration: its source and its first line.
#[derive(Debug)]
pub struct ImportEntry {
    pub text: String,
    pub line: usize,
}

/// A document symbol without the symbols it encloses.
#[derive(Debug)]
pub struct SymbolRef {
    pub name: String,
    pub kind: u32,
    pub range: Range,
}

/// What is visible at a point: the symbols around it from the outside in, the
/// imports, and the other top-level symbols.
#[derive(Debug)]
pub struct ScopeReport {
    pub enclosing: Vec<SymbolRef>,
    pub imports: Vec<ImportEntry>,
    pub siblings: Vec<SymbolRef>,
}

/// One slice of packed context.
#[derive(Debug)]
pub struct ContextSlice {
    pub path: Option<String>,
    pub range: Range,
    pub reason: String,
    pub text: String,
    pub estimated_tokens: usize,
}

/// A bundle of source slices around a point. `truncated` says that the budget
/// left candidates out.
#[derive(Debug)]
pub struct PackedContext {
    pub anchor: Option<Range>,
    pub slices: Vec<ContextSlice>,
    pub estimated_tokens: usize,
    pub truncated: bool,
}

/// A proposal that could not be accepted, and why.
#[derive(Debug)]
pub struct BulkAcceptError {
    pub proposal_id: ProposalId,
    pub message: String,
}

/// How many proposals were accepted, and those that were not.
#[derive(Debug)]
pub struct BulkAcceptResult {
    pub accepted: usize,
    pub errors: Vec<BulkAcceptError>,
}

// --------------------------------------------------------------------- models

pub struct SymbolModel {
    pub name: Seq<char>,
    pub kind: u32,
    pub range: Range,
}

impl View for SymbolRef {
    type V = SymbolModel;

    open spec fn view(&self) -> SymbolModel {
        SymbolModel { name: self.name@, kind: self.kind, range: self.range }
    }
}

pub open spec fn symbol_views(v: Seq<SymbolRef>) -> Seq<SymbolModel> {
    Seq::new(v.len(), |i: int| v[i]@)
}

/// What of a document symbol is reported.
pub open spec fn symbol_of(sym: DocumentSymbol) -> SymbolModel {
    SymbolModel { name: sym.name@, kind: sym.kind, range: sym.range }
}

pub struct SliceModel {
    pub path: Option<Seq<char>>,
    pub range: Range,
    pub reason: Seq<char>,
    pub text: Seq<char>,
    pub tokens: nat,
}

impl View for ContextSlice {
    type V = SliceModel;

    open spec fn view(&self) -> SliceModel {
        SliceModel {
            path: buffer::option_view(self.path),
            range: self.range,
            reason: self.reason@,
            text: self.text@,
            tokens: self.estimated_tokens as nat,
        }
    }
}

/// What a pack holds.
pub struct PackModel {
    pub anchor: Option<Range>,
    pub slices: Seq<SliceModel>,
    pub tokens: nat,
    pub truncated: bool,
}

impl View for PackedContext {
    type V = PackModel;

    open spec fn view(&self) -> PackModel {
        PackModel {
            anchor: self.anchor,
            slices: slice_views(self.slices@),
            tokens: self.estimated_tokens as nat,
            truncated: self.truncated,
        }
    }
}

pub open spec fn slice_views(v: Seq<ContextSlice>) -> Seq<SliceModel> {
    Seq::new(v.len(), |i: int| v[i]@)
}

pub struct TaskModel {
    pub path: Seq<char>,
    pub line: int,
    pub kind: Seq<char>,
    pub text: Seq<char>,
}

impl View for InlineTask {
    type V = TaskModel;

    open spec fn view(&self) -> TaskModel {
        TaskModel {
            path: self.path@,
            line: self.line as int,
            kind: self.kind@,
            text: self.text@,
        }
    }
}

pub open spec fn task_views(v: Seq<InlineTask>) -> Seq<TaskModel> {
    Seq::new(v.len(), |i: int| v[i]@)
}

// ------------------------------------------------------------------ positions

/// The position in a text of a zero-based line and character.
pub open spec fn lsp_position(s: Seq<char>, line: int, character: int) -> Result<
    int,
    EditorError,
> {
    if line >= rope::line_count(s) {
        Err(
            EditorError::LineOutOfBounds {
                line: line as usize,
                count: rope::line_count(s) as usize,
            },
        )
    } else if character > rope::line_len(s, line) {
        Err(
            EditorError::CharacterPastEnd {
                character: character as usize,
                line: line as usize,
                len: rope::line_len(s, line) as usize,
            },
        )
    } else {
        Ok(rope::line_start(s, line) + character)
    }
}

/// The position in the buffer of a zero-based line and character.
pub fn lsp_pos_to_char(buffer: &Buffer, line: u32, character: u32) -> (r: Result<
    usize,
    EditorError,
>)
    ensures
        match r {
            Ok(i) => lsp_position(buffer@.text, line as int, character as int) == Ok::<
                int,
                EditorError,
            >(i as int) && i <= buffer@.text.len(),
            Err(e) => lsp_position(buffer@.text, line as int, character as int) == Err::<int, _>(
                e,
            ),
        },
{
    let count: usize = buffer.line_count();
    let l: usize = line as usize;
    let c: usize = character as usize;
    if l >= count {
        return Err(EditorError::LineOutOfBounds { line: l, count });
    }
    let total: usize = buffer.len_chars();
    let start: usize = buffer.line_to_char(l);
    let len: usize = buffer.line_len_chars(l);
    if c > len {
        return Err(EditorError::CharacterPastEnd { character: c, line: l, len });
    }
    Ok(start + c)
}

/// A buffer after one text edit, or why the edit does not fit it.
pub open spec fn after_text_edit(b: buffer::BufferModel, e: TextEdit) -> Result<
    buffer::BufferModel,
    EditorError,
> {
    match lsp_position(b.text, e.range.start.line as int, e.range.start.character as int) {
        Err(err) => Err(err),
        Ok(start) => match lsp_position(
            b.text,
            e.range.end.line as int,
            e.range.end.character as int,
        ) {
            Err(err) => Err(err),
            Ok(end) => {
                let cut = buffer::after_delete(b, start, end);
                if e.new_text@.len() == 0 {
                    Ok(cut)
                } else {
                    Ok(buffer::after_insert_str(cut, start, e.new_text@))
                }
            },
        },
    }
}

/// A buffer after the first `n` text edits, up to the first that does not fit,
/// and why that one does not.
pub open spec fn after_text_edits(b: buffer::BufferModel, es: Seq<TextEdit>, n: int) -> (
    buffer::BufferModel,
    Option<EditorError>,
)
    decreases n,
{
    if n <= 0 {
        (b, None)
    } else {
        let (before, failed) = after_text_edits(b, es, n - 1);
        if failed is Some {
            (before, failed)
        } else {
            match after_text_edit(before, es[n - 1]) {
                Ok(after) => (after, None),
                Err(e) => (before, Some(e)),
            }
        }
    }
}

proof fn lemma_text_edits_failed(b: buffer::BufferModel, es: Seq<TextEdit>, n: int, m: int)
    requires
        0 <= n <= m,
        after_text_edits(b, es, n).1 is Some,
    ensures
        after_text_edits(b, es, m) == after_text_edits(b, es, n),
    decreases m - n,
{
    if n < m {
        lemma_text_edits_failed(b, es, n, m - 1);
    }
}

/// Applies text edits one after the other. The caller orders them from the end
/// of the text to its start, so that earlier positions stay valid.
pub fn apply_text_edits(buffer: &mut Buffer, edits: &Vec<TextEdit>) -> (r: Result<
    (),
    EditorError,
>)
    ensures
        final(buffer)@ == after_text_edits(old(buffer)@, edits@, edits@.len() as int).0,
        match r {
            Ok(_) => after_text_edits(old(buffer)@, edits@, edits@.len() as int).1 is None,
            Err(e) => after_text_edits(old(buffer)@, edits@, edits@.len() as int).1 == Some(e),
        },
{
    let ghost b = buffer@;
    let mut i: usize = 0;
    while i < edits.len()
        invariant
            b == old(buffer)@,
            i <= edits@.len(),
            after_text_edits(b, edits@, i as int) == (buffer@, None::<EditorError>),
        decreases edits@.len() - i,
    {
        let ghost before = buffer@;
        let range = edits[i].range;
        let start: usize = match lsp_pos_to_char(buffer, range.start.line, range.start.character) {
            Ok(p) => p,
            Err(e) => {
                proof {
                    assert(after_text_edits(b, edits@, i + 1) == (before, Some(e)));
                    lemma_text_edits_failed(b, edits@, i + 1, edits@.len() as int);
                }
                return Err(e);
            },
        };
        let end: usize = match lsp_pos_to_char(buffer, range.end.line, range.end.character) {
            Ok(p) => p,
            Err(e) => {
                proof {
                    assert(after_text_edits(b, edits@, i + 1) == (before, Some(e)));
                    lemma_text_edits_failed(b, edits@, i + 1, edits@.len() as int);
                }
                return Err(e);
            },
        };
        buffer.delete_range(start, end);
        let new_text = edits[i].new_text.as_str();
        if !new_text.is_empty() {
            buffer.insert_str(start, new_text);
        }
        i += 1;
    }
    Ok(())
}

/// Whether `range` covers a point; both ends count.
pub open spec fn covers(range: Range, line: int, character: int) -> bool {
    let after_start = line > range.start.line || (line == range.start.line && character
        >= range.start.character);
    let before_end = line < range.end.line || (line == range.end.line && character
        <= range.end.character);
    after_start && before_end
}

/// Whether `range` covers the zero-based point.
pub fn range_contains(range: &Range, line: u32, character: u32) -> (r: bool)
    ensures
        r == covers(*range, line as int, character as int),
{
    let after_start: bool = line > range.start.line || (line == range.start.line && character
        >= range.start.character);
    let before_end: bool = line < range.end.line || (line == range.end.line && character
        <= range.end.character);
    after_start && before_end
}

// ------------------------------------------------------------ context geometry

/// At most this many sibling signatures are considered for a pack.
pub const CONTEXT_MAX_SIBLINGS: usize = 50;

/// Four characters to a token, rounded up.
pub open spec fn tokens(s: Seq<char>) -> nat {
    (s.len() + 3) / 4
}

/// A cheap token estimate.
pub fn estimate_tokens(text: &str) -> (r: usize)
    ensures
        r == tokens(text@),
{
    let n: usize = to_chars(text).len();
    if n % 4 == 0 {
        n / 4
    } else {
        n / 4 + 1
    }
}

/// The line and character of a byte offset; one past the end stands for the end.
pub open spec fn position_of(s: Seq<char>, byte: int) -> Position {
    let b = if byte <= text::utf8_len(s) {
        byte
    } else {
        text::utf8_len(s) as int
    };
    let i = rope::char_of_byte(s, b);
    let line = rope::line_of(s, i) as int;
    Position { line: line as u32, character: (i - rope::line_start(s, line)) as u32 }
}

/// The range of a byte span.
pub open spec fn range_of(s: Seq<char>, start: int, end: int) -> Range {
    Range { start: position_of(s, start), end: position_of(s, end) }
}

/// The text of a byte span.
pub open spec fn span_text(s: Seq<char>, start: int, end: int) -> Seq<char> {
    s.subrange(rope::char_of_byte(s, start), rope::char_of_byte(s, end))
}

pub fn byte_to_position(rope: &Rope, byte: usize) -> (r: Position)
    ensures
        r == position_of(rope::rope_chars(*rope), byte as int),
{
    let ghost s = rope::rope_chars(*rope);
    let len: usize = rope.len_bytes();
    let b: usize = if byte <= len {
        byte
    } else {
        len
    };
    proof {
        rope::lemma_char_of_byte(s, b as int);
    }
    let line: usize = rope.byte_to_line(b);
    let i: usize = rope.byte_to_char(b);
    proof {
        rope::lemma_line_of_monotone(s, i as int, s.len() as int);
        rope::lemma_line_of_position(s, line as int, i as int);
    }
    let character: usize = i - rope.line_to_char(line);
    Position { line: truncated(line), character: truncated(character) }
}

/// The low 32 bits of `n`.
fn truncated(n: usize) -> (r: u32)
    ensures
        r == n as u32,
{
    #[verifier::truncate]
    (n as u32)
}

pub fn byte_span_to_range(rope: &Rope, start: usize, end: usize) -> (r: Range)
    ensures
        r == range_of(rope::rope_chars(*rope), start as int, end as int),
{
    Range { start: byte_to_position(rope, start), end: byte_to_position(rope, end) }
}

/// The byte offset of the first line feed of a byte span, or the span's end.
pub open spec fn first_line_end(s: Seq<char>, start: int, end: int) -> int {
    let a = rope::char_of_byte(s, start);
    let t = span_text(s, start, end);
    let n = scan::until(t, '\n');
    if n < t.len() {
        rope::byte_of(s, a + n) as int
    } else {
        end
    }
}

pub proof fn lemma_first_line_end(s: Seq<char>, start: int, end: int)
    requires
        0 <= start <= end <= text::utf8_len(s),
    ensures
        start <= first_line_end(s, start, end) <= end,
        rope::char_of_byte(s, start) <= rope::char_of_byte(s, end) <= s.len(),
{
    rope::lemma_char_of_byte(s, start);
    rope::lemma_char_of_byte(s, end);
    rope::lemma_char_of_byte_monotone(s, start, end);
    let a = rope::char_of_byte(s, start);
    let z = rope::char_of_byte(s, end);
    let t = span_text(s, start, end);
    let n = scan::until(t, '\n');
    scan::lemma_until(t, '\n');
    if n < t.len() {
        text::lemma_utf8_len_take(s, a + n, z);
        if n == 0 {
            assert(t[0] == s[a]);
            assert(s.take(a + 1) =~= s.take(a).push(s[a]));
            text::lemma_utf8_len_push(s.take(a), s[a]);
        } else {
            text::lemma_utf8_len_take(s, a + 1, a + n);
        }
    }
}

/// The byte offset where the first line of a byte span ends.
pub fn first_line_end_byte(rope: &Rope, start: usize, end: usize) -> (r: usize)
    requires
        start <= end <= text::utf8_len(rope::rope_chars(*rope)),
    ensures
        r == first_line_end(rope::rope_chars(*rope), start as int, end as int),
        start <= r <= end,
{
    let ghost s = rope::rope_chars(*rope);
    proof {
        lemma_first_line_end(s, start as int, end as int);
    }
    let a: usize = rope.byte_to_char(start);
    let z: usize = rope.byte_to_char(end);
    let t = to_chars(&rope_slice(rope, a, z));
    let n: usize = index_until(&t, '\n', 0);
    assert(t@.skip(0) =~= t@);
    if n < t.len() {
        rope.char_to_byte(a + n)
    } else {
        end
    }
}

/// The context slice of a byte span.
pub open spec fn slice_of(
    s: Seq<char>,
    path: Option<Seq<char>>,
    start: int,
    end: int,
    reason: Seq<char>,
) -> SliceModel {
    SliceModel {
        path,
        range: range_of(s, start, end),
        reason,
        text: span_text(s, start, end),
        tokens: tokens(span_text(s, start, end)),
    }
}

/// Builds the context slice of a byte span.
pub fn make_context_slice(
    rope: &Rope,
    path: Option<String>,
    start: usize,
    end: usize,
    reason: &str,
) -> (r: ContextSlice)
    requires
        start <= end <= text::utf8_len(rope::rope_chars(*rope)),
    ensures
        r@ == slice_of(
            rope::rope_chars(*rope),
            buffer::option_view(path),
            start as int,
            end as int,
            reason@,
        ),
{
    proof {
        lemma_first_line_end(rope::rope_chars(*rope), start as int, end as int);
    }
    let text = rope_slice(rope, rope.byte_to_char(start), rope.byte_to_char(end));
    ContextSlice {
        path,
        range: byte_span_to_range(rope, start, end),
        reason: owned(reason),
        estimated_tokens: estimate_tokens(&text),
        text,
    }
}

// -------------------------------------------------------------------- symbols

impl SymbolRef {
    pub fn from_doc_symbol(sym: &DocumentSymbol) -> (r: SymbolRef)
        ensures
            r@ == symbol_of(*sym),
    {
        SymbolRef { name: sym.name.clone(), kind: sym.kind, range: sym.range }
    }
}

/// The last symbol of a level that covers the point.
pub open spec fn covering(level: Seq<DocumentSymbol>, line: int, character: int) -> Option<int>
    decreases level.len(),
{
    if level.len() == 0 {
        None
    } else if covers(level.last().range, line, character) {
        Some(level.len() - 1)
    } else {
        covering(level.drop_last(), line, character)
    }
}

/// The symbols around a point, from the outside in.
pub open spec fn enclosing_of(level: Seq<DocumentSymbol>, line: int, character: int) -> Seq<
    SymbolModel,
>
    decreases level,
    via enclosing_decreases
{
    match covering(level, line, character) {
        Some(k) => seq![symbol_of(level[k])] + enclosing_of(level[k].children@, line, character),
        None => Seq::empty(),
    }
}

#[via_fn]
proof fn enclosing_decreases(level: Seq<DocumentSymbol>, line: int, character: int) {
    lemma_covering(level, line, character);
    match covering(level, line, character) {
        Some(k) => {
            assert(decreases_to!(level => level[k]));
            assert(decreases_to!(level[k] => level[k].children));
            assert(decreases_to!(level[k].children => level[k].children@));
        },
        None => {},
    }
}

pub proof fn lemma_covering(level: Seq<DocumentSymbol>, line: int, character: int)
    ensures
        covering(level, line, character) matches Some(k) ==> 0 <= k < level.len() && covers(
            level[k].range,
            line,
            character,
        ),
    decreases level.len(),
{
    if level.len() > 0 && !covers(level.last().range, line, character) {
        lemma_covering(level.drop_last(), line, character);
    }
}

/// The top-level symbols that do not cover the point.
pub open spec fn siblings_of(level: Seq<DocumentSymbol>, line: int, character: int) -> Seq<
    SymbolModel,
>
    decreases level.len(),
{
    if level.len() == 0 {
        Seq::empty()
    } else {
        let before = siblings_of(level.drop_last(), line, character);
        if covers(level.last().range, line, character) {
            before
        } else {
            before.push(symbol_of(level.last()))
        }
    }
}

fn find_covering(level: &Vec<DocumentSymbol>, line: u32, character: u32) -> (r: Option<usize>)
    ensures
        match r {
            Some(k) => covering(level@, line as int, character as int) == Some(k as int) && k
                < level@.len(),
            None => covering(level@, line as int, character as int) is None,
        },
{
    let mut i: usize = level.len();
    assert(level@.take(i as int) =~= level@);
    while i > 0
        invariant
            i <= level@.len(),
            covering(level@, line as int, character as int) == covering(
                level@.take(i as int),
                line as int,
                character as int,
            ),
        decreases i,
    {
        assert(level@.take(i as int).drop_last() =~= level@.take(i - 1));
        if range_contains(&level[i - 1].range, line, character) {
            return Some(i - 1);
        }
        i -= 1;
    }
    None
}

/// The symbols around a point, from the outside in.
pub fn enclosing_symbols(level: &Vec<DocumentSymbol>, line: u32, character: u32) -> (r: Vec<
    SymbolRef,
>)
    ensures
        symbol_views(r@) == enclosing_of(level@, line as int, character as int),
    decreases level@,
{
    match find_covering(level, line, character) {
        Some(k) => {
            proof {
                assert(decreases_to!(level@ => level@[k as int]));
                assert(decreases_to!(level@[k as int] => level@[k as int].children));
                assert(decreases_to!(level@[k as int].children => level@[k as int].children@));
            }
            let mut inner = enclosing_symbols(&level[k].children, line, character);
            let ghost rest = symbol_views(inner@);
            inner.insert(0, SymbolRef::from_doc_symbol(&level[k]));
            assert(symbol_views(inner@) =~= seq![symbol_of(level@[k as int])] + rest);
            inner
        },
        None => {
            let r: Vec<SymbolRef> = Vec::new();
            assert(symbol_views(r@) =~= Seq::<SymbolModel>::empty());
            r
        },
    }
}

/// The top-level symbols that do not cover the point.
pub fn sibling_symbols(level: &Vec<DocumentSymbol>, line: u32, character: u32) -> (r: Vec<
    SymbolRef,
>)
    ensures
        symbol_views(r@) == siblings_of(level@, line as int, character as int),
{
    let mut r: Vec<SymbolRef> = Vec::new();
    let mut i: usize = 0;
    assert(symbol_views(r@) =~= Seq::<SymbolModel>::empty());
    while i < level.len()
        invariant
            i <= level@.len(),
            symbol_views(r@) == siblings_of(level@.take(i as int), line as int, character as int),
        decreases level@.len() - i,
    {
        let ghost before = symbol_views(r@);
        assert(level@.take(i + 1).drop_last() =~= level@.take(i as int));
        if !range_contains(&level[i].range, line, character) {
            r.push(SymbolRef::from_doc_symbol(&level[i]));
            assert(symbol_views(r@) =~= before.push(symbol_of(level@[i as int])));
        }
        i += 1;
    }
    assert(level@.take(i as int) =~= level@);
    r
}

// --------------------------------------------------------------- inline tasks

/// A scan keeps at most this many tasks.
pub const TASKS_MAX_HITS: usize = 1000;

/// Files with more bytes than this are not scanned.
pub const TASKS_MAX_FILE_BYTES: u64 = 1_000_000;

/// `s` without the colons and the whitespace it starts with.
pub open spec fn skip_colons(s: Seq<char>) -> Seq<char>
    decreases s.len(),
{
    if s.len() > 0 && (s[0] == ':' || text::whitespace(s[0])) {
        skip_colons(s.skip(1))
    } else {
        s
    }
}

/// The task marker of a line for the reader called `who`: its kind and its
/// text. A marker with the name in brackets behind `todo` wins over the bare
/// name; both are found in any mix of ASCII cases.
pub open spec fn task_of(who: Seq<char>, line: Seq<char>) -> Option<(Seq<char>, Seq<char>)> {
    let low = text::ascii_lower_all(line);
    let name = text::ascii_lower_all(who);
    let todo = "todo("@ + name + ")"@;
    let bare = name + ":"@;
    match scan::find(low, todo) {
        Some(i) => Some(("todo"@, scan::trim(skip_colons(line.skip(i + todo.len()))))),
        None => match scan::find(low, bare) {
            Some(i) => Some((name, scan::trim(line.skip(i + bare.len())))),
            None => None,
        },
    }
}

/// Looks in one line for a task marker for the reader called `who`.
pub fn parse_inline_task(who: &str, line: &str) -> (r: Option<(String, String)>)
    ensures
        match r {
            Some((kind, body)) => task_of(who@, line@) == Some((kind@, body@)),
            None => task_of(who@, line@) is None,
        },
{
    let cs = to_chars(line);
    let low = lower_ascii_chars(&cs);
    let name = to_text(&lower_ascii_chars(&to_chars(who)));
    let todo = to_chars(&join3("todo(", &name, ")"));
    let bare = to_chars(&join2(&name, ":"));
    match find_chars(&low, &todo, 0) {
        Some(i) => {
            let from: usize = i + todo.len();
            let mut j: usize = from;
            while j < cs.len() && (cs[j] == ':' || is_whitespace(cs[j]))
                invariant
                    from <= j <= cs@.len(),
                    skip_colons(cs@.skip(j as int)) == skip_colons(cs@.skip(from as int)),
                decreases cs@.len() - j,
            {
                assert(cs@.skip(j as int).skip(1) =~= cs@.skip(j + 1));
                j += 1;
            }
            let tail = scan::sub_chars(&cs, j, cs.len());
            assert(tail@ =~= cs@.skip(j as int));
            let (a, b) = trim_bounds(&tail);
            Some((owned("todo"), substring(&tail, a, b)))
        },
        None => match find_chars(&low, &bare, 0) {
            Some(i) => {
                let tail = scan::sub_chars(&cs, i + bare.len(), cs.len());
                assert(tail@ =~= cs@.skip(i + bare@.len()));
                let (a, b) = trim_bounds(&tail);
                Some((name, substring(&tail, a, b)))
            },
            None => None,
        },
    }
}

/// Whether a directory entry is left out of a scan by its name.
pub open spec fn scan_skips(name: Seq<char>) -> bool {
    ||| name.len() > 0 && name[0] == '.'
    ||| name == "target"@
    ||| name == "node_modules"@
    ||| name == "dist"@
    ||| name == "build"@
    ||| name == "vendor"@
    ||| name == "venv"@
    ||| name == "__pycache__"@
}

/// What a scan does with a directory entry.
#[derive(Clone, Copy, Debug, PartialEq, Eq, Structural)]
pub enum ScanStep {
    Skip,
    Descend,
    Read,
}

/// What a scan does with the entry called `name`.
pub fn scan_step(name: &str, is_dir: bool, is_file: bool, len: u64) -> (r: ScanStep)
    ensures
        r == (if scan_skips(name@) {
            ScanStep::Skip
        } else if is_dir {
            ScanStep::Descend
        } else if is_file && len <= TASKS_MAX_FILE_BYTES {
            ScanStep::Read
        } else {
            ScanStep::Skip
        }),
{
    let cs = to_chars(name);
    if cs.len() > 0 && cs[0] == '.' {
        return ScanStep::Skip;
    }
    if same(name, "target") || same(name, "node_modules") || same(name, "dist") || same(
        name,
        "build",
    ) || same(name, "vendor") || same(name, "venv") || same(name, "__pycache__") {
        return ScanStep::Skip;
    }
    if is_dir {
        ScanStep::Descend
    } else if is_file && len <= TASKS_MAX_FILE_BYTES {
        ScanStep::Read
    } else {
        ScanStep::Skip
    }
}

/// The tasks for `who` on the first `n` of `ls`, the lines of the file at `path`.
pub open spec fn tasks_on(who: Seq<char>, path: Seq<char>, ls: Seq<Seq<char>>, n: int) -> Seq<
    TaskModel,
>
    decreases n,
{
    if n <= 0 {
        Seq::empty()
    } else {
        let before = tasks_on(who, path, ls, n - 1);
        match task_of(who, ls[n - 1]) {
            Some((kind, body)) => before.push(
                TaskModel { path, line: n - 1, kind, text: body },
            ),
            None => before,
        }
    }
}

/// The tasks of a file.
pub open spec fn file_tasks(who: Seq<char>, path: Seq<char>, contents: Seq<char>) -> Seq<
    TaskModel,
> {
    let ls = scan::lines(contents);
    tasks_on(who, path, ls, ls.len() as int)
}

/// The tasks of the first `n` files, in the order of the files.
pub open spec fn all_tasks(who: Seq<char>, files: Seq<(String, String)>, n: int) -> Seq<TaskModel>
    decreases n,
{
    if n <= 0 {
        Seq::empty()
    } else {
        all_tasks(who, files, n - 1) + file_tasks(who, files[n - 1].0@, files[n - 1].1@)
    }
}

/// The first tasks of a sequence, as many as a scan keeps.
pub open spec fn kept(ts: Seq<TaskModel>) -> Seq<TaskModel> {
    if ts.len() <= TASKS_MAX_HITS {
        ts
    } else {
        ts.take(TASKS_MAX_HITS as int)
    }
}

impl Ranked for InlineTask {
    /// By path, then by line.
    open spec fn rank_le(self, other: InlineTask) -> bool {
        if self.path@ == other.path@ {
            self.line <= other.line
        } else {
            order::text_le(self.path@, other.path@)
        }
    }

    fn ranks_before(&self, other: &InlineTask) -> bool {
        let a = to_chars(&self.path);
        let b = to_chars(&other.path);
        if text::same_chars(&a, &b) {
            self.line <= other.line
        } else {
            chars_le(&a, &b)
        }
    }
}

fn collect_file_tasks(who: &str, path: &str, contents: &str, hits: &mut Vec<InlineTask>)
    requires
        old(hits)@.len() < TASKS_MAX_HITS,
    ensures
        task_views(final(hits)@) == kept(
            task_views(old(hits)@) + file_tasks(who@, path@, contents@),
        ),
        final(hits)@.len() <= TASKS_MAX_HITS,
{
    let ls = split_lines(&to_chars(contents));
    let ghost ms = scan::lines(contents@);
    let ghost first = task_views(hits@);
    let mut i: usize = 0;
    assert(first + tasks_on(who@, path@, ms, 0) =~= first);
    while i < ls.len()
        invariant
            first == task_views(old(hits)@),
            scan::views(ls@) == ms,
            i <= ls@.len() == ms.len(),
            hits@.len() < TASKS_MAX_HITS,
            task_views(hits@) == first + tasks_on(who@, path@, ms, i as int),
            ms == scan::lines(contents@),
        decreases ls@.len() - i,
    {
        let ghost before = task_views(hits@);
        assert(ls@[i as int]@ == ms[i as int]);
        let line = to_text(&ls[i]);
        match parse_inline_task(who, &line) {
            Some((kind, text)) => {
                let ghost t = TaskModel { path: path@, line: i as int, kind: kind@, text: text@ };
                hits.push(InlineTask { path: owned(path), line: i, kind, text });
                assert(task_views(hits@) =~= before.push(t));
                assert(task_views(hits@) =~= first + tasks_on(who@, path@, ms, i + 1));
                if hits.len() >= TASKS_MAX_HITS {
                    proof {
                        lemma_tasks_prefix(who@, path@, ms, i + 1, ms.len() as int);
                        let all = first + file_tasks(who@, path@, contents@);
                        assert(task_views(hits@) =~= all.take(TASKS_MAX_HITS as int));
                        assert(kept(all) =~= task_views(hits@));
                    }
                    return;
                }
            },
            None => {},
        }
        i += 1;
    }
}

proof fn lemma_tasks_prefix(who: Seq<char>, path: Seq<char>, ls: Seq<Seq<char>>, n: int, m: int)
    requires
        0 <= n <= m,
    ensures
        tasks_on(who, path, ls, n).len() <= tasks_on(who, path, ls, m).len(),
        tasks_on(who, path, ls, m).take(tasks_on(who, path, ls, n).len() as int) == tasks_on(
            who,
            path,
            ls,
            n,
        ),
    decreases m - n,
{
    if n < m {
        lemma_tasks_prefix(who, path, ls, n, m - 1);
        let a = tasks_on(who, path, ls, n);
        let b = tasks_on(who, path, ls, m - 1);
        let c = tasks_on(who, path, ls, m);
        assert(c.take(a.len() as int) =~= b.take(a.len() as int));
    } else {
        let all = tasks_on(who, path, ls, m);
        assert(all.take(all.len() as int) =~= all);
    }
}

proof fn lemma_all_tasks_prefix(who: Seq<char>, files: Seq<(String, String)>, n: int, m: int)
    requires
        0 <= n <= m,
    ensures
        all_tasks(who, files, n).len() <= all_tasks(who, files, m).len(),
        all_tasks(who, files, m).take(all_tasks(who, files, n).len() as int) == all_tasks(
            who,
            files,
            n,
        ),
    decreases m - n,
{
    if n < m {
        lemma_all_tasks_prefix(who, files, n, m - 1);
        let a = all_tasks(who, files, n);
        let b = all_tasks(who, files, m - 1);
        assert(all_tasks(who, files, m).take(a.len() as int) =~= b.take(a.len() as int));
    } else {
        let all = all_tasks(who, files, m);
        assert(all.take(all.len() as int) =~= all);
    }
}

/// The tasks for `who` in the files that a walk read, as pairs of path and contents in the
/// order of the walk: the first of them, sorted by path, then by line.
pub fn scan_inline_tasks(who: &str, files: &Vec<(String, String)>) -> (r: Vec<InlineTask>)
    ensures
        exists|hits: Seq<InlineTask>|
            {
                &&& task_views(hits) == kept(all_tasks(who@, files@, files@.len() as int))
                &&& r@ == order::stable_sorted(hits)
            },
{
    let mut hits: Vec<InlineTask> = Vec::new();
    let mut i: usize = 0;
    let ghost all = all_tasks(who@, files@, files@.len() as int);
    assert(task_views(hits@) =~= all_tasks(who@, files@, 0));
    while i < files.len() && hits.len() < TASKS_MAX_HITS
        invariant
            i <= files@.len(),
            all == all_tasks(who@, files@, files@.len() as int),
            hits@.len() <= TASKS_MAX_HITS,
            task_views(hits@) == kept(all_tasks(who@, files@, i as int)),
        decreases files@.len() - i,
    {
        let (path, contents) = (&files[i].0, &files[i].1);
        collect_file_tasks(who, path, contents, &mut hits);
        i += 1;
    }
    proof {
        if i < files@.len() {
            let n = all_tasks(who@, files@, i as int);
            lemma_all_tasks_prefix(who@, files@, i as int, files@.len() as int);
            assert(all.take(n.len() as int) == n);
            assert(hits@.len() == TASKS_MAX_HITS);
            assert(n.len() >= TASKS_MAX_HITS);
            assert(kept(all) =~= all.take(TASKS_MAX_HITS as int));
            assert(n.take(TASKS_MAX_HITS as int) =~= all.take(TASKS_MAX_HITS as int));
            assert(kept(n) =~= kept(all));
        }
    }
    let ghost found = hits@;
    let r = sort(hits);
    assert(task_views(found) == kept(all) && r@ == order::stable_sorted(found));
    r
}

} // verus!
