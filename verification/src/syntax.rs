//! Syntax highlighting and structural queries, on top of tree-sitter.
//!
//! `Syntax::refresh` runs the highlighter over a text and keeps, per line, the
//! spans to color; `Syntax::ast_query` runs a query against the text that the
//! last refresh parsed.

use ropey::Rope;
use tree_sitter::{Parser, Query, QueryCursor, StreamingIterator};
use tree_sitter_highlight::{HighlightConfiguration, HighlightEvent, Highlighter};
use vstd::prelude::*;

use crate::buffer;
use crate::error::EditorError;
use crate::paths;
use crate::paths::extension_of;
use crate::rope;
use crate::rope::rope_text;
use crate::scan;
use crate::scan::index_until;
use crate::text;
use crate::text::{byte_len, same, substring, to_chars};
use crate::theme;
use crate::theme::{Color, Style};

pub mod laws;

verus! {

/// A run of characters of one line that share a highlight.
#[derive(Clone, Copy, Debug, PartialEq, Eq, Structural)]
pub struct HighlightSpan {
    pub col_start: usize,
    pub col_end: usize,
    pub capture_idx: usize,
}

/// One capture of a query match, in byte offsets.
#[derive(Debug)]
pub struct AstMatch {
    pub capture: String,
    pub kind: String,
    pub byte_start: usize,
    pub byte_end: usize,
}

/// What a capture is.
pub struct MatchModel {
    pub capture: Seq<char>,
    pub kind: Seq<char>,
    pub start: int,
    pub end: int,
}

impl View for AstMatch {
    type V = MatchModel;

    open spec fn view(&self) -> MatchModel {
        MatchModel {
            capture: self.capture@,
            kind: self.kind@,
            start: self.byte_start as int,
            end: self.byte_end as int,
        }
    }
}

pub open spec fn match_views(v: Seq<AstMatch>) -> Seq<MatchModel> {
    Seq::new(v.len(), |i: int| v[i]@)
}

/// A step of the highlighter over a text: a highlight starts or ends, or a
/// stretch of source carries the highlights that are open.
#[derive(Clone, Copy, Debug, PartialEq, Eq, Structural)]
pub enum HighlightStep {
    Start(usize),
    End,
    Source(usize, usize),
    Failed,
}

/// The highlight names that the editor styles, as sent to the highlighter. The
/// index of a name is the highlight that steps speak of.
pub open spec fn highlight_name_list() -> Seq<&'static str> {
    seq![
        "attribute",
        "comment",
        "constant",
        "constant.builtin",
        "constructor",
        "function",
        "function.builtin",
        "function.macro",
        "keyword",
        "label",
        "number",
        "operator",
        "property",
        "punctuation",
        "punctuation.bracket",
        "punctuation.delimiter",
        "string",
        "string.escape",
        "string.special",
        "tag",
        "type",
        "type.builtin",
        "variable",
        "variable.builtin",
        "variable.parameter",
    ]
}

/// The highlight names that the editor styles.
pub fn highlight_names() -> (r: Vec<&'static str>)
    ensures
        r@ == highlight_name_list(),
{
    vec![
        "attribute",
        "comment",
        "constant",
        "constant.builtin",
        "constructor",
        "function",
        "function.builtin",
        "function.macro",
        "keyword",
        "label",
        "number",
        "operator",
        "property",
        "punctuation",
        "punctuation.bracket",
        "punctuation.delimiter",
        "string",
        "string.escape",
        "string.special",
        "tag",
        "type",
        "type.builtin",
        "variable",
        "variable.builtin",
        "variable.parameter",
    ]
}

// --------------------------------------------------------------- outside calls

/// The longest text in bytes that the parser takes: its offsets have 32 bits.
pub open spec fn parse_limit() -> int {
    0xffff_ffff
}

/// The stretches of source that a run of the highlighter reports follow each other.
pub open spec fn ascending(steps: Seq<HighlightStep>) -> bool {
    &&& forall|i: int|
        0 <= i < steps.len() ==> (#[trigger] steps[i] matches HighlightStep::Source(a, z) ==> a
            <= z)
    &&& forall|i: int, j: int|
        0 <= i < j < steps.len() ==> (#[trigger] steps[i] matches HighlightStep::Source(_, z) ==> (
        #[trigger] steps[j] matches HighlightStep::Source(a, _) ==> z <= a))
}

/// The steps of the highlighter over a Rust text with the given highlight names,
/// or `None` where it refuses.
pub uninterp spec fn rust_highlights(
    names: Seq<&'static str>,
    source: Seq<char>,
) -> Option<Seq<HighlightStep>>;

/// `Highlighter::highlight` with the configuration of the Rust grammar and no
/// injected languages. Its steps, or its refusal, depend on the names and the
/// text alone; a step that the highlighter reports as an error is `Failed`. It
/// reports the source from its start to its end.
#[verifier::external_body]
fn highlight_rust(names: &Vec<&'static str>, source: &str) -> (r: Option<Vec<HighlightStep>>)
    requires
        text::utf8_len(source@) <= parse_limit(),
    ensures
        (match r {
            Some(steps) => Some(steps@),
            None => None,
        }) == rust_highlights(names@, source@),
        r matches Some(steps) ==> ascending(steps@),
{
    let (marks, nested) = (tree_sitter_rust::HIGHLIGHTS_QUERY, tree_sitter_rust::INJECTIONS_QUERY);
    let grammar = tree_sitter_rust::LANGUAGE.into();
    let mut config = HighlightConfiguration::new(grammar, "rust", marks, nested, "").ok()?;
    config.configure(names);
    let mut highlighter = Highlighter::new();
    let events = highlighter.highlight(&config, source.as_bytes(), None, |_| None).ok()?;
    Some(events.map(|event| match event {
        Ok(HighlightEvent::HighlightStart(h)) => HighlightStep::Start(h.0),
        Ok(HighlightEvent::HighlightEnd) => HighlightStep::End,
        Ok(HighlightEvent::Source { start, end }) => HighlightStep::Source(start, end),
        Err(_) => HighlightStep::Failed,
    }).collect())
}

/// The captures of a query over a Rust text, or `None` where the query does not
/// compile.
pub uninterp spec fn rust_matches(source: Seq<char>, query: Seq<char>) -> Option<Seq<MatchModel>>;

/// `QueryCursor::matches` over the tree that `Parser::parse` makes of a Rust
/// text. The captures depend on the text and the query alone, and every captured
/// node lies within the text.
#[verifier::external_body]
fn query_rust(source: &str, query: &str) -> (r: Option<Vec<AstMatch>>)
    requires
        text::utf8_len(source@) <= parse_limit(),
    ensures
        (match r {
            Some(found) => Some(match_views(found@)),
            None => None,
        }) == rust_matches(source@, query@),
        r matches Some(found) ==> forall|i: int|
            0 <= i < found@.len() ==> (#[trigger] found@[i]).byte_start <= found@[i].byte_end
                <= text::utf8_len(source@),
{
    let (grammar, mut parser) = (tree_sitter_rust::LANGUAGE.into(), Parser::new());
    parser.set_language(&grammar).ok()?;
    let tree = parser.parse(source, None)?;
    let query = Query::new(&grammar, query).ok()?;
    let (mut cursor, mut found) = (QueryCursor::new(), Vec::new());
    cursor.matches(&query, tree.root_node(), source.as_bytes()).for_each(|m| {
        found.extend(m.captures.iter().map(|c| AstMatch {
            capture: query.capture_names()[c.index as usize].to_string(),
            kind: c.node.kind().to_string(),
            byte_start: c.node.start_byte(),
            byte_end: c.node.end_byte(),
        }))
    });
    Some(found)
}

// ------------------------------------------------------------------ the spans

/// A stretch of source with a highlight: start byte, end byte, highlight.
pub struct Stretch {
    pub start: int,
    pub end: int,
    pub capture: int,
}

/// The stretches that the first `n` steps mark, and the highlights that are open
/// after them. A stretch carries the innermost open highlight; it is cut at the
/// end of the text, and dropped where nothing is left of it.
pub open spec fn marked(steps: Seq<HighlightStep>, n: int, len: int) -> (Seq<Stretch>, Seq<usize>)
    decreases n,
{
    if n <= 0 {
        (Seq::empty(), Seq::empty())
    } else {
        let (done, open) = marked(steps, n - 1, len);
        match steps[n - 1] {
            HighlightStep::Start(h) => (done, open.push(h)),
            HighlightStep::End => (
                done,
                if open.len() > 0 {
                    open.drop_last()
                } else {
                    open
                },
            ),
            HighlightStep::Source(start, end) => {
                let cut = if end <= len {
                    end as int
                } else {
                    len
                };
                if open.len() > 0 && start < cut {
                    (
                        done.push(
                            Stretch { start: start as int, end: cut, capture: open.last() as int },
                        ),
                        open,
                    )
                } else {
                    (done, open)
                }
            },
            HighlightStep::Failed => (done, open),
        }
    }
}

/// The stretches that a run of the highlighter marks.
pub open spec fn stretches(steps: Seq<HighlightStep>, len: int) -> Seq<Stretch> {
    marked(steps, steps.len() as int, len).0
}

/// The part of a stretch that is on line `line`, in columns; the line break does
/// not count.
pub open spec fn clipped(s: Seq<char>, line: int, m: Stretch) -> Option<HighlightSpan> {
    let start = rope::line_start(s, line);
    let first = rope::byte_of(s, start) as int;
    let past = rope::byte_of(s, rope::line_start(s, line + 1)) as int;
    let from = if m.start >= first {
        m.start
    } else {
        first
    };
    let to = if m.end <= past {
        m.end
    } else {
        past
    };
    if from >= to {
        None
    } else {
        let col_start = rope::char_of_byte(s, from) - start;
        let end = rope::char_of_byte(s, to) - start;
        let cols = rope::line_len(s, line) as int;
        let col_end = if end <= cols {
            end
        } else {
            cols
        };
        if col_start >= col_end {
            None
        } else {
            Some(
                HighlightSpan {
                    col_start: col_start as usize,
                    col_end: col_end as usize,
                    capture_idx: m.capture as usize,
                },
            )
        }
    }
}

/// The spans on line `line` of a text with the given stretches.
pub open spec fn spans_on(s: Seq<char>, line: int, ms: Seq<Stretch>) -> Seq<HighlightSpan>
    decreases ms.len(),
{
    if ms.len() == 0 {
        Seq::empty()
    } else {
        let before = spans_on(s, line, ms.drop_last());
        match clipped(s, line, ms.last()) {
            Some(span) => before.push(span),
            None => before,
        }
    }
}

/// The stretches of a text.
pub open spec fn text_stretches(s: Seq<char>) -> Seq<Stretch> {
    if text::utf8_len(s) > parse_limit() {
        Seq::empty()
    } else {
        match rust_highlights(highlight_name_list(), s) {
            Some(steps) => stretches(steps, text::utf8_len(s) as int),
            None => Seq::empty(),
        }
    }
}

/// The spans of every line of a text.
pub open spec fn text_spans(s: Seq<char>) -> Seq<Seq<HighlightSpan>> {
    Seq::new(rope::line_count(s), |line: int| spans_on(s, line, text_stretches(s)))
}

/// The spans of each line are in order and do not overlap.
pub open spec fn ordered(spans: Seq<Seq<HighlightSpan>>) -> bool {
    forall|l: int, i: int, j: int|
        0 <= l < spans.len() && 0 <= i < j < spans[l].len() ==> (#[trigger] spans[l][i]).col_end
            <= (#[trigger] spans[l][j]).col_start
}

pub open spec fn span_views(v: Seq<Vec<HighlightSpan>>) -> Seq<Seq<HighlightSpan>> {
    Seq::new(v.len(), |i: int| v[i]@)
}

/// Lines that a stretch does not touch get nothing of it.
proof fn lemma_untouched(s: Seq<char>, line: int, m: Stretch)
    requires
        0 <= m.start < m.end <= text::utf8_len(s),
        0 <= line < rope::line_count(s),
        line < buffer::row_at_byte(s, m.start) || line > buffer::row_at_byte(s, m.end),
    ensures
        clipped(s, line, m) is None,
{
    let a = rope::char_of_byte(s, m.start);
    let z = rope::char_of_byte(s, m.end);
    rope::lemma_char_of_byte(s, m.start);
    rope::lemma_char_of_byte(s, m.end);
    rope::lemma_line_start(s, line);
    rope::lemma_line_start(s, line + 1);
    if line < buffer::row_at_byte(s, m.start) {
        if a < rope::line_start(s, line + 1) {
            rope::lemma_line_of_position(s, line, a);
        }
        text::lemma_utf8_len_take(s, rope::line_start(s, line + 1), a);
    } else {
        if rope::line_start(s, line) <= z {
            rope::lemma_line_of_monotone(s, rope::line_start(s, line), z);
        }
        text::lemma_utf8_len_take(s, z + 1, rope::line_start(s, line));
    }
}

/// Columns of the part of a stretch on a line it touches.
proof fn lemma_columns(s: Seq<char>, line: int, from: int, to: int)
    requires
        0 <= line < rope::line_count(s),
        rope::byte_of(s, rope::line_start(s, line)) <= from < to <= rope::byte_of(
            s,
            rope::line_start(s, line + 1),
        ),
    ensures
        to <= text::utf8_len(s),
        rope::line_start(s, line) <= rope::char_of_byte(s, from) <= rope::char_of_byte(s, to),
{
    let start = rope::line_start(s, line);
    rope::lemma_line_start(s, line);
    rope::lemma_line_start(s, line + 1);
    assert(s.take(s.len() as int) =~= s);
    text::lemma_utf8_len_take(s, rope::line_start(s, line + 1), s.len() as int);
    rope::law_byte_of_round_trips(s, start);
    rope::lemma_char_of_byte_monotone(s, rope::byte_of(s, start) as int, from);
    rope::lemma_char_of_byte_monotone(s, from, to);
}

/// Adds the parts of the stretch from byte `b0` to byte `b1` to the lines they
/// are on.
fn split_into_lines(
    per_line: &mut Vec<Vec<HighlightSpan>>,
    rope: &Rope,
    b0: usize,
    b1: usize,
    capture_idx: usize,
    Ghost(ms): Ghost<Seq<Stretch>>,
)
    requires
        b0 < b1 <= text::utf8_len(rope::rope_chars(*rope)),
        old(per_line)@.len() == rope::line_count(rope::rope_chars(*rope)),
        forall|l: int|
            0 <= l < old(per_line)@.len() ==> (#[trigger] old(per_line)@[l])@ == spans_on(
                rope::rope_chars(*rope),
                l,
                ms,
            ),
    ensures
        final(per_line)@.len() == old(per_line)@.len(),
        forall|l: int|
            0 <= l < final(per_line)@.len() ==> (#[trigger] final(per_line)@[l])@ == spans_on(
                rope::rope_chars(*rope),
                l,
                ms.push(Stretch { start: b0 as int, end: b1 as int, capture: capture_idx as int }),
            ),
{
    let ghost s = rope::rope_chars(*rope);
    let ghost m = Stretch { start: b0 as int, end: b1 as int, capture: capture_idx as int };
    let line0: usize = rope.byte_to_line(b0);
    let line1: usize = rope.byte_to_line(b1);
    let count: usize = rope.len_lines();
    proof {
        assert(ms.push(m).drop_last() =~= ms);
        rope::lemma_char_of_byte(s, b0 as int);
        rope::lemma_char_of_byte(s, b1 as int);
        rope::lemma_char_of_byte_monotone(s, b0 as int, b1 as int);
        rope::lemma_line_of_monotone(
            s,
            rope::char_of_byte(s, b0 as int),
            rope::char_of_byte(s, b1 as int),
        );
        rope::lemma_line_of_monotone(s, rope::char_of_byte(s, b1 as int), s.len() as int);
        assert forall|l: int| 0 <= l < count && (l < line0 || l > line1) implies spans_on(
            s,
            l,
            ms.push(m),
        ) == spans_on(s, l, ms) by {
            lemma_untouched(s, l, m);
        }
    }
    let mut line: usize = line0;
    while line <= line1
        invariant
            s == rope::rope_chars(*rope),
            m == (Stretch { start: b0 as int, end: b1 as int, capture: capture_idx as int }),
            ms.push(m).drop_last() == ms,
            b0 < b1 <= text::utf8_len(s),
            line0 <= line <= line1 + 1,
            line1 < count == rope::line_count(s) == per_line@.len(),
            forall|l: int|
                0 <= l < count && (l < line0 || l > line1) ==> spans_on(s, l, ms.push(m))
                    == spans_on(s, l, ms),
            forall|l: int|
                0 <= l < line ==> (#[trigger] per_line@[l])@ == spans_on(s, l, ms.push(m)),
            forall|l: int| line <= l < count ==> (#[trigger] per_line@[l])@ == spans_on(s, l, ms),
        decreases line1 + 1 - line,
    {
        proof {
            rope::lemma_line_start(s, line as int);
            rope::lemma_line_start(s, line + 1);
            rope::lemma_line_start_monotone(s, line as int, line + 1);
        }
        let first: usize = rope.line_to_byte(line);
        let past: usize = rope.line_to_byte(line + 1);
        let from: usize = if b0 >= first {
            b0
        } else {
            first
        };
        let to: usize = if b1 <= past {
            b1
        } else {
            past
        };
        if from < to {
            proof {
                lemma_columns(s, line as int, from as int, to as int);
            }
            let start: usize = rope.line_to_char(line);
            let col_start: usize = rope.byte_to_char(from) - start;
            let end: usize = rope.byte_to_char(to) - start;
            let cols: usize = printable_line_len(rope, line);
            let col_end: usize = if end <= cols {
                end
            } else {
                cols
            };
            if col_start < col_end {
                let mut spans = per_line.remove(line);
                spans.push(HighlightSpan { col_start, col_end, capture_idx });
                per_line.insert(line, spans);
            }
        }
        line += 1;
    }
}

/// The number of columns of line `line`.
fn printable_line_len(rope: &Rope, line: usize) -> (r: usize)
    requires
        line < rope::line_count(rope::rope_chars(*rope)),
    ensures
        r == rope::line_len(rope::rope_chars(*rope), line as int),
{
    let ghost s = rope::rope_chars(*rope);
    let count: usize = rope.len_lines();
    let start: usize = rope.line_to_char(line);
    let end: usize = rope.line_to_char(line + 1);
    proof {
        rope::lemma_line_start(s, line as int);
        rope::lemma_line_start(s, line + 1);
        rope::lemma_line_start_monotone(s, line as int, line + 1);
        if start < end {
            assert(s.subrange(start as int, end as int).last() == s[end - 1]);
        }
    }
    if end > start {
        let c = rope.char(end - 1);
        if c == '\n' || c == '\r' {
            return end - start - 1;
        }
    }
    end - start
}

/// The spans of every line of the text in `rope`, given the steps that the
/// highlighter took over it.
pub fn spans_of_steps(rope: &Rope, steps: &Vec<HighlightStep>) -> (r: Vec<Vec<HighlightSpan>>)
    ensures
        r@.len() == rope::line_count(rope::rope_chars(*rope)),
        forall|l: int|
            0 <= l < r@.len() ==> (#[trigger] r@[l])@ == spans_on(
                rope::rope_chars(*rope),
                l,
                stretches(steps@, text::utf8_len(rope::rope_chars(*rope)) as int),
            ),
{
    let ghost s = rope::rope_chars(*rope);
    let len: usize = rope.len_bytes();
    let mut per_line = empty_lines(rope.len_lines());
    let mut open: Vec<usize> = Vec::new();
    let mut i: usize = 0;
    while i < steps.len()
        invariant
            s == rope::rope_chars(*rope),
            len == text::utf8_len(s),
            i <= steps@.len(),
            open@ == marked(steps@, i as int, len as int).1,
            per_line@.len() == rope::line_count(s),
            forall|l: int|
                0 <= l < per_line@.len() ==> (#[trigger] per_line@[l])@ == spans_on(
                    s,
                    l,
                    marked(steps@, i as int, len as int).0,
                ),
        decreases steps@.len() - i,
    {
        let ghost done = marked(steps@, i as int, len as int).0;
        match steps[i] {
            HighlightStep::Start(h) => {
                open.push(h);
            },
            HighlightStep::End => {
                let _ = open.pop();
            },
            HighlightStep::Source(start, end) => {
                let cut: usize = if end <= len {
                    end
                } else {
                    len
                };
                if open.len() > 0 && start < cut {
                    let h: usize = open[open.len() - 1];
                    split_into_lines(&mut per_line, rope, start, cut, h, Ghost(done));
                }
            },
            HighlightStep::Failed => {},
        }
        i += 1;
    }
    per_line
}

fn empty_lines(n: usize) -> (r: Vec<Vec<HighlightSpan>>)
    ensures
        r@.len() == n,
        forall|i: int| 0 <= i < n ==> (#[trigger] r@[i])@ == Seq::<HighlightSpan>::empty(),
{
    let mut r: Vec<Vec<HighlightSpan>> = Vec::new();
    let mut i: usize = 0;
    while i < n
        invariant
            i <= n,
            r@.len() == i,
            forall|j: int| 0 <= j < i ==> (#[trigger] r@[j])@ == Seq::<HighlightSpan>::empty(),
        decreases n - i,
    {
        r.push(Vec::new());
        i += 1;
    }
    r
}

// --------------------------------------------------------------------- syntax

/// The highlighting of one buffer, and the text that queries run against.
pub struct Syntax {
    parsed: Option<String>,
    cached_version: Option<u64>,
    per_line: Vec<Vec<HighlightSpan>>,
}

/// What the syntax layer knows of a buffer.
#[verifier::ext_equal]
pub struct SyntaxModel {
    pub parsed: Option<Seq<char>>,
    pub cached_version: Option<u64>,
    pub spans: Seq<Seq<HighlightSpan>>,
}

impl View for Syntax {
    type V = SyntaxModel;

    closed spec fn view(&self) -> SyntaxModel {
        SyntaxModel {
            parsed: buffer::option_view(self.parsed),
            cached_version: self.cached_version,
            spans: span_views(self.per_line@),
        }
    }
}

/// Whether there is a grammar for a file.
pub open spec fn has_grammar(path: Option<Seq<char>>) -> bool {
    match path {
        Some(p) => paths::extension(p) == Some("rs"@),
        None => false,
    }
}

pub open spec fn fresh_syntax() -> SyntaxModel {
    SyntaxModel {
        parsed: None,
        cached_version: None,
        spans: Seq::<Seq<HighlightSpan>>::empty(),
    }
}

pub open spec fn after_refresh(m: SyntaxModel, s: Seq<char>, version: u64) -> SyntaxModel {
    if m.cached_version == Some(version) {
        m
    } else {
        SyntaxModel {
            parsed: Some(s),
            cached_version: Some(version),
            spans: text_spans(s),
        }
    }
}

/// What a query against a parsed text finds.
pub open spec fn matches_of(s: Seq<char>, query: Seq<char>) -> Result<
    Seq<MatchModel>,
    EditorError,
> {
    if text::utf8_len(s) > parse_limit() {
        Err(EditorError::NotParsed)
    } else {
        match rust_matches(s, query) {
            Some(found) => Ok(found),
            None => Err(EditorError::BadQuery),
        }
    }
}

/// What a query finds.
pub open spec fn query_result(m: SyntaxModel, query: Seq<char>) -> Result<
    Seq<MatchModel>,
    EditorError,
> {
    match m.parsed {
        Some(s) => matches_of(s, query),
        None => Err(EditorError::NotParsed),
    }
}

/// A capture, cut to a text that it may reach beyond.
pub open spec fn cut_to(m: MatchModel, s: Seq<char>) -> MatchModel {
    let len = text::utf8_len(s) as int;
    MatchModel {
        start: if m.start > len {
            len
        } else {
            m.start
        },
        end: if m.end > len {
            len
        } else {
            m.end
        },
        ..m
    }
}

/// The captures, cut to a text. Those that lie within it stay as they are.
pub open spec fn fitted(ms: Seq<MatchModel>, s: Seq<char>) -> Seq<MatchModel> {
    Seq::new(ms.len(), |i: int| cut_to(ms[i], s))
}

/// Every capture lies within the text.
pub open spec fn within(ms: Seq<MatchModel>, s: Seq<char>) -> bool {
    forall|i: int|
        0 <= i < ms.len() ==> 0 <= (#[trigger] ms[i]).start <= ms[i].end <= text::utf8_len(s)
}

impl Syntax {
    /// Picks a syntax by the file extension; `None` without a grammar for it.
    pub fn for_path(path: Option<&str>) -> (r: Option<Syntax>)
        ensures
            r is Some <==> has_grammar(
                match path {
                    Some(p) => Some(p@),
                    None => None,
                },
            ),
            r matches Some(syn) ==> syn@ == fresh_syntax(),
    {
        match path {
            Some(p) => match extension_of(p) {
                Some(ext) => {
                    if same(&ext, "rs") {
                        Some(Syntax::rust())
                    } else {
                        None
                    }
                },
                None => None,
            },
            None => None,
        }
    }

    /// The syntax of Rust text, nothing parsed yet.
    pub fn rust() -> (r: Syntax)
        ensures
            r@ == fresh_syntax(),
    {
        let r = Syntax { parsed: None, cached_version: None, per_line: Vec::new() };
        assert(r@.spans =~= Seq::<Seq<HighlightSpan>>::empty());
        r
    }

    /// Parses and highlights the text again, if the buffer has changed since the
    /// last time.
    pub fn refresh(&mut self, rope: &Rope, version: u64)
        ensures
            final(self)@ == after_refresh(old(self)@, rope::rope_chars(*rope), version),
            old(self)@.cached_version != Some(version) ==> ordered(final(self)@.spans),
    {
        if self.cached_version == Some(version) {
            return;
        }
        let ghost s = rope::rope_chars(*rope);
        let source = rope_text(rope);
        let names = highlight_names();
        let steps = if byte_len(&source) <= 0xffff_ffff {
            highlight_rust(&names, &source)
        } else {
            None
        };
        let spans = match &steps {
            Some(steps) => spans_of_steps(rope, steps),
            None => empty_lines(rope.len_lines()),
        };
        assert(span_views(spans@) =~= text_spans(s));
        let _ = rope.len_chars();
        proof {
            assert forall|l: int, i: int, j: int|
                0 <= l < spans@.len() && 0 <= i < j < spans@[l]@.len() implies (
            #[trigger] span_views(spans@)[l][i]).col_end <= (#[trigger] span_views(
                spans@,
            )[l][j]).col_start by {
                match steps {
                    Some(taken) => {
                        law_spans_are_in_order(s, l, taken@, i, j);
                    },
                    None => {},
                }
            }
        }
        self.parsed = Some(source);
        self.cached_version = Some(version);
        self.per_line = spans;
    }

    /// Forgets which version was seen, so that the next refresh starts over.
    pub fn invalidate(&mut self)
        ensures
            final(self)@ == (SyntaxModel { cached_version: None, ..old(self)@ }),
    {
        self.cached_version = None;
    }

    /// The spans of line `line`; none past the last line.
    pub fn line_spans(&self, line: usize) -> (r: Vec<HighlightSpan>)
        ensures
            r@ == (if line < self@.spans.len() {
                self@.spans[line as int]
            } else {
                Seq::<HighlightSpan>::empty()
            }),
    {
        if line < self.per_line.len() {
            copy_spans(&self.per_line[line])
        } else {
            Vec::new()
        }
    }

    /// Runs a query against the text of the last refresh. One entry per capture
    /// across all matches.
    /// `rope` must hold the text that the last refresh saw.
    pub fn ast_query(&self, rope: &Rope, query: &str) -> (r: Result<Vec<AstMatch>, EditorError>)
        requires
            self@.parsed matches Some(s) ==> s == rope::rope_chars(*rope),
        ensures
            match r {
                Ok(found) => {
                    &&& query_result(self@, query@) == Ok::<Seq<MatchModel>, EditorError>(
                        match_views(found@),
                    )
                    &&& within(match_views(found@), rope::rope_chars(*rope))
                },
                Err(e) => query_result(self@, query@) == Err::<Seq<MatchModel>, _>(e),
            },
    {
        self.query(query)
    }

    /// Runs a query against the text of the last refresh, whatever became of the
    /// text since.
    pub fn query(&self, query: &str) -> (r: Result<Vec<AstMatch>, EditorError>)
        ensures
            match r {
                Ok(found) => {
                    &&& query_result(self@, query@) == Ok::<Seq<MatchModel>, EditorError>(
                        match_views(found@),
                    )
                    &&& self@.parsed is Some
                    &&& within(match_views(found@), self@.parsed->Some_0)
                },
                Err(e) => query_result(self@, query@) == Err::<Seq<MatchModel>, _>(e),
            },
    {
        match &self.parsed {
            Some(source) => {
                if byte_len(source) > 0xffff_ffff {
                    return Err(EditorError::NotParsed);
                }
                match query_rust(source, query) {
                    Some(found) => Ok(found),
                    None => Err(EditorError::BadQuery),
                }
            },
            None => Err(EditorError::NotParsed),
        }
    }
}

/// Cuts captures to the text in `rope`, which may have become shorter than the one
/// they were found in.
pub fn fit(found: Vec<AstMatch>, rope: &Rope) -> (r: Vec<AstMatch>)
    requires
        forall|i: int| 0 <= i < found@.len() ==> (#[trigger] found@[i]).byte_start
            <= found@[i].byte_end,
    ensures
        match_views(r@) == fitted(match_views(found@), rope::rope_chars(*rope)),
        within(match_views(r@), rope::rope_chars(*rope)),
{
    let ghost s = rope::rope_chars(*rope);
    let ghost goal = fitted(match_views(found@), s);
    let len: usize = rope.len_bytes();
    let mut rest = found;
    let mut r: Vec<AstMatch> = Vec::new();
    assert(goal.take(0) =~= match_views(r@));
    while rest.len() > 0
        invariant
            len == text::utf8_len(s),
            goal.len() == r@.len() + rest@.len(),
            forall|i: int|
                0 <= i < rest@.len() ==> cut_to((#[trigger] rest@[i])@, s) == goal[r@.len() + i],
            forall|i: int| 0 <= i < rest@.len() ==> (#[trigger] rest@[i]).byte_start
                <= rest@[i].byte_end,
            match_views(r@) == goal.take(r@.len() as int),
            within(match_views(r@), s),
        decreases rest@.len(),
    {
        let ghost before = match_views(r@);
        let ghost held = rest@;
        let ghost n = r@.len() as int;
        let mut m = rest.remove(0);
        assert(cut_to(held[0]@, s) == goal[n]);
        if m.byte_start > len {
            m.byte_start = len;
        }
        if m.byte_end > len {
            m.byte_end = len;
        }
        assert(m@ == goal[n]);
        r.push(m);
        assert(match_views(r@) =~= before.push(goal[n]));
        assert(goal.take(n + 1) =~= before.push(goal[n]));
        assert forall|i: int| 0 <= i < rest@.len() implies cut_to((#[trigger] rest@[i])@, s)
            == goal[n + 1 + i] by {
            assert(rest@[i] == held[i + 1]);
        }
        assert forall|i: int| 0 <= i < rest@.len() implies (#[trigger] rest@[i]).byte_start
            <= rest@[i].byte_end by {
            assert(rest@[i] == held[i + 1]);
        }
    }
    assert(goal.take(r@.len() as int) =~= goal);
    r
}

fn copy_spans(spans: &Vec<HighlightSpan>) -> (r: Vec<HighlightSpan>)
    ensures
        r@ == spans@,
{
    let mut r: Vec<HighlightSpan> = Vec::new();
    let mut i: usize = 0;
    while i < spans.len()
        invariant
            i <= spans@.len(),
            r@ == spans@.take(i as int),
        decreases spans@.len() - i,
    {
        r.push(spans[i]);
        i += 1;
        assert(spans@.take(i as int).drop_last() =~= spans@.take(i - 1));
    }
    assert(spans@.take(i as int) =~= spans@);
    r
}

// ------------------------------------------------------------------------ laws

// ----------------------------------------------------------------------- style

/// The first part of a highlight's name.
pub open spec fn primary(name: Seq<char>) -> Seq<char> {
    name.take(scan::until(name, '.'))
}

/// The style of source text, by the first part of its highlight's name.
pub open spec fn primary_style(capture: Seq<char>) -> Style {
    if capture == "comment"@ {
        Style { italic: true, ..theme::in_color(Color::DarkGray) }
    } else if capture == "keyword"@ {
        Style { bold: true, ..theme::in_color(Color::Magenta) }
    } else if capture == "string"@ {
        theme::in_color(Color::Green)
    } else if capture == "number"@ || capture == "constant"@ {
        theme::in_color(Color::Yellow)
    } else if capture == "function"@ {
        theme::in_color(Color::Cyan)
    } else if capture == "type"@ {
        theme::in_color(Color::Blue)
    } else if capture == "attribute"@ {
        theme::in_color(Color::LightYellow)
    } else if capture == "property"@ {
        theme::in_color(Color::LightBlue)
    } else if capture == "tag"@ || capture == "label"@ {
        theme::in_color(Color::Magenta)
    } else if capture == "punctuation"@ {
        theme::in_color(Color::Gray)
    } else {
        theme::unstyled()
    }
}

/// The style of source text with a highlight.
pub open spec fn highlight_style(capture_idx: usize) -> Style {
    if capture_idx < highlight_name_list().len() {
        primary_style(primary(highlight_name_list()[capture_idx as int]@))
    } else {
        theme::unstyled()
    }
}

/// The style of source text with a highlight.
pub fn style_for(capture_idx: usize) -> (r: Style)
    ensures
        r == highlight_style(capture_idx),
{
    let names = highlight_names();
    let base = Style::plain();
    if capture_idx >= names.len() {
        return base;
    }
    let cs = to_chars(names[capture_idx]);
    let end: usize = index_until(&cs, '.', 0);
    let name = substring(&cs, 0, end);
    proof {
        assert(cs@.skip(0) =~= cs@);
        assert(name@ =~= primary(cs@));
    }
    if same(&name, "comment") {
        Style { italic: true, ..base.with_fg(Color::DarkGray) }
    } else if same(&name, "keyword") {
        Style { bold: true, ..base.with_fg(Color::Magenta) }
    } else if same(&name, "string") {
        base.with_fg(Color::Green)
    } else if same(&name, "number") || same(&name, "constant") {
        base.with_fg(Color::Yellow)
    } else if same(&name, "function") {
        base.with_fg(Color::Cyan)
    } else if same(&name, "type") {
        base.with_fg(Color::Blue)
    } else if same(&name, "attribute") {
        base.with_fg(Color::LightYellow)
    } else if same(&name, "property") {
        base.with_fg(Color::LightBlue)
    } else if same(&name, "tag") || same(&name, "label") {
        base.with_fg(Color::Magenta)
    } else if same(&name, "punctuation") {
        base.with_fg(Color::Gray)
    } else {
        base
    }
}

/// Refreshing twice at one version is the same as refreshing once.
pub proof fn law_refresh_is_idempotent(m: SyntaxModel, s: Seq<char>, version: u64)
    ensures
        after_refresh(after_refresh(m, s, version), s, version) == after_refresh(m, s, version),
{
}

/// Every span that a refresh keeps lies within the columns of its line.
pub proof fn law_spans_lie_within_lines(s: Seq<char>, line: int, ms: Seq<Stretch>, i: int)
    requires
        0 <= line < rope::line_count(s),
        rope::line_len(s, line) <= usize::MAX,
        0 <= i < spans_on(s, line, ms).len(),
        forall|k: int| 0 <= k < ms.len() ==> 0 <= (#[trigger] ms[k]).start,
    ensures
        spans_on(s, line, ms)[i].col_start < spans_on(s, line, ms)[i].col_end <= rope::line_len(
            s,
            line,
        ),
    decreases ms.len(),
{
    let rest = ms.drop_last();
    let m = ms.last();
    if i < spans_on(s, line, rest).len() {
        law_spans_lie_within_lines(s, line, rest, i);
    } else {
        let start = rope::line_start(s, line);
        let first = rope::byte_of(s, start) as int;
        let past = rope::byte_of(s, rope::line_start(s, line + 1)) as int;
        let from = if m.start >= first {
            m.start
        } else {
            first
        };
        let to = if m.end <= past {
            m.end
        } else {
            past
        };
        lemma_columns(s, line, from, to);
    }
}

proof fn lemma_marked_ascend(steps: Seq<HighlightStep>, n: int, len: int)
    requires
        ascending(steps),
        0 <= n <= steps.len(),
        0 <= len,
    ensures
        ({
            let ms = marked(steps, n, len).0;
            &&& forall|i: int|
                0 <= i < ms.len() ==> 0 <= (#[trigger] ms[i]).start < ms[i].end <= len
            &&& forall|i: int, j: int|
                0 <= i < j < ms.len() ==> (#[trigger] ms[i]).end <= (#[trigger] ms[j]).start
            &&& forall|i: int, k: int|
                0 <= i < ms.len() && n <= k < steps.len() ==> (#[trigger] steps[k] matches
                    HighlightStep::Source(a, _) ==> (#[trigger] ms[i]).end <= a)
        }),
    decreases n,
{
    if n > 0 {
        lemma_marked_ascend(steps, n - 1, len);
        let before = marked(steps, n - 1, len).0;
        let ms = marked(steps, n, len).0;
        assert forall|i: int, k: int| 0 <= i < ms.len() && n <= k < steps.len() implies (
        #[trigger] steps[k] matches HighlightStep::Source(a, _) ==> (#[trigger] ms[i]).end
            <= a) by {
            if i < before.len() {
                assert(ms[i] == before[i]);
            }
        }
    }
}

proof fn lemma_clipped_order(s: Seq<char>, line: int, a: Stretch, b: Stretch)
    requires
        0 <= line < rope::line_count(s),
        s.len() <= usize::MAX,
        0 <= a.start < a.end <= b.start < b.end <= text::utf8_len(s),
        clipped(s, line, a) is Some,
        clipped(s, line, b) is Some,
    ensures
        clipped(s, line, a)->Some_0.col_end <= clipped(s, line, b)->Some_0.col_start,
{
    let start = rope::line_start(s, line);
    let first = rope::byte_of(s, start) as int;
    let past = rope::byte_of(s, rope::line_start(s, line + 1)) as int;
    let to = if a.end <= past {
        a.end
    } else {
        past
    };
    let from = if b.start >= first {
        b.start
    } else {
        first
    };
    let low = if a.start >= first {
        a.start
    } else {
        first
    };
    let high = if b.end <= past {
        b.end
    } else {
        past
    };
    lemma_columns(s, line, low, to);
    lemma_columns(s, line, from, high);
    rope::lemma_line_start(s, line);
    rope::lemma_line_start(s, line + 1);
    rope::lemma_line_start_monotone(s, line, line + 1);
    assert(rope::line_len(s, line) <= s.len());
    rope::lemma_char_of_byte(s, from);
    rope::lemma_char_of_byte(s, to);
    rope::lemma_char_of_byte_monotone(s, to, from);
}

proof fn lemma_spans_order(s: Seq<char>, line: int, ms: Seq<Stretch>, i: int, j: int)
    requires
        0 <= line < rope::line_count(s),
        s.len() <= usize::MAX,
        forall|k: int|
            0 <= k < ms.len() ==> 0 <= (#[trigger] ms[k]).start < ms[k].end <= text::utf8_len(s),
        forall|h: int, k: int|
            0 <= h < k < ms.len() ==> (#[trigger] ms[h]).end <= (#[trigger] ms[k]).start,
        0 <= i < j < spans_on(s, line, ms).len(),
    ensures
        spans_on(s, line, ms)[i].col_end <= spans_on(s, line, ms)[j].col_start,
    decreases ms.len(),
{
    let rest = ms.drop_last();
    let before = spans_on(s, line, rest);
    if j < before.len() {
        lemma_spans_order(s, line, rest, i, j);
    } else {
        lemma_span_source(s, line, rest, i);
        let h = choose|h: int|
            0 <= h < rest.len() && clipped(s, line, #[trigger] rest[h]) == Some(before[i]);
        assert(ms[h] == rest[h]);
        lemma_clipped_order(s, line, ms[h], ms.last());
    }
}

/// Every span on a line is the part of a stretch.
proof fn lemma_span_source(s: Seq<char>, line: int, ms: Seq<Stretch>, i: int)
    requires
        0 <= i < spans_on(s, line, ms).len(),
    ensures
        exists|h: int|
            0 <= h < ms.len() && clipped(s, line, #[trigger] ms[h]) == Some(
                spans_on(s, line, ms)[i],
            ),
    decreases ms.len(),
{
    let rest = ms.drop_last();
    if i < spans_on(s, line, rest).len() {
        lemma_span_source(s, line, rest, i);
        let h = choose|h: int|
            0 <= h < rest.len() && clipped(s, line, #[trigger] rest[h]) == Some(
                spans_on(s, line, rest)[i],
            );
        assert(ms[h] == rest[h]);
    } else {
        assert(ms[ms.len() - 1] == ms.last());
    }
}

/// The spans of a line are in order and do not overlap, where the highlighter reports
/// the source from its start to its end.
pub proof fn law_spans_are_in_order(
    s: Seq<char>,
    line: int,
    steps: Seq<HighlightStep>,
    i: int,
    j: int,
)
    requires
        0 <= line < rope::line_count(s),
        s.len() <= usize::MAX,
        ascending(steps),
        0 <= i < j < spans_on(s, line, stretches(steps, text::utf8_len(s) as int)).len(),
    ensures
        ({
            let spans = spans_on(s, line, stretches(steps, text::utf8_len(s) as int));
            spans[i].col_end <= spans[j].col_start
        }),
{
    let len = text::utf8_len(s) as int;
    lemma_marked_ascend(steps, steps.len() as int, len);
    lemma_spans_order(s, line, stretches(steps, len), i, j);
}

} // verus!
