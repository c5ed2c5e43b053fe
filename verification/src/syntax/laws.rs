//! Which parts of a text are highlighted, and as what.

use vstd::prelude::*;

use crate::rope;
use crate::scan;
use crate::syntax;
use crate::syntax::{HighlightSpan, HighlightStep, Stretch};
use crate::text;
use crate::theme;

verus! {

proof fn lemma_marked_prefix(a: Seq<HighlightStep>, b: Seq<HighlightStep>, n: int, len: int)
    requires
        0 <= n <= a.len(),
    ensures
        syntax::marked(a + b, n, len) == syntax::marked(a, n, len),
    decreases n,
{
    if n > 0 {
        lemma_marked_prefix(a, b, n - 1, len);
        assert((a + b)[n - 1] == a[n - 1]);
    }
}

proof fn lemma_marked_push(a: Seq<HighlightStep>, x: HighlightStep, len: int)
    ensures
        ({
            let n = a.len() as int;
            let (done, open) = syntax::marked(a, n, len);
            let now = syntax::marked(a.push(x), n + 1, len);
            match x {
                HighlightStep::Start(h) => now == (done, open.push(h)),
                HighlightStep::End => now.0 == done && now.1 == (if open.len() > 0 {
                    open.drop_last()
                } else {
                    open
                }),
                HighlightStep::Source(start, end) => {
                    let cut = if end <= len {
                        end as int
                    } else {
                        len
                    };
                    now.1 == open && now.0 == (if open.len() > 0 && start < cut {
                        done.push(
                            Stretch { start: start as int, end: cut, capture: open.last() as int },
                        )
                    } else {
                        done
                    })
                },
                HighlightStep::Failed => now == (done, open),
            }
        }),
{
    let n = a.len() as int;
    lemma_marked_prefix(a, seq![x], n, len);
    assert(a + seq![x] =~= a.push(x));
    assert(a.push(x)[n] == x);
}

/// Source between the start and the end of a capture is marked as that capture, as far as
/// the text goes; source outside of every capture is not marked.
pub proof fn law_marked_source(
    steps: Seq<HighlightStep>,
    h: usize,
    start: usize,
    end: usize,
    len: int,
)
    requires
        syntax::marked(steps, steps.len() as int, len).1.len() == 0,
        start < end <= len,
    ensures
        syntax::stretches(
            steps.push(HighlightStep::Start(h)).push(HighlightStep::Source(start, end)).push(
                HighlightStep::End,
            ),
            len,
        ) == syntax::stretches(steps, len).push(
            Stretch { start: start as int, end: end as int, capture: h as int },
        ),
        syntax::stretches(steps.push(HighlightStep::Source(start, end)), len)
            == syntax::stretches(steps, len),
{
    let a = steps.push(HighlightStep::Start(h));
    let b = a.push(HighlightStep::Source(start, end));
    lemma_marked_push(steps, HighlightStep::Start(h), len);
    lemma_marked_push(a, HighlightStep::Source(start, end), len);
    lemma_marked_push(b, HighlightStep::End, len);
    lemma_marked_push(steps, HighlightStep::Source(start, end), len);
}

/// Of captures within each other the innermost counts, and behind its end the outer one
/// counts again.
pub proof fn law_innermost_captures(
    steps: Seq<HighlightStep>,
    outer: usize,
    inner: usize,
    x: usize,
    y: usize,
    z: usize,
    len: int,
)
    requires
        syntax::marked(steps, steps.len() as int, len).1.len() == 0,
        x < y < z <= len,
    ensures
        syntax::stretches(
            steps.push(HighlightStep::Start(outer)).push(HighlightStep::Start(inner)).push(
                HighlightStep::Source(x, y),
            ).push(HighlightStep::End).push(HighlightStep::Source(y, z)),
            len,
        ) == syntax::stretches(steps, len).push(
            Stretch { start: x as int, end: y as int, capture: inner as int },
        ).push(Stretch { start: y as int, end: z as int, capture: outer as int }),
{
    let a = steps.push(HighlightStep::Start(outer));
    let b = a.push(HighlightStep::Start(inner));
    let c = b.push(HighlightStep::Source(x, y));
    let d = c.push(HighlightStep::End);
    lemma_marked_push(steps, HighlightStep::Start(outer), len);
    lemma_marked_push(a, HighlightStep::Start(inner), len);
    lemma_marked_push(b, HighlightStep::Source(x, y), len);
    lemma_marked_push(c, HighlightStep::End, len);
    lemma_marked_push(d, HighlightStep::Source(y, z), len);
    assert(syntax::marked(d, d.len() as int, len).1.last() == outer);
}

/// A stretch within a line is highlighted from the column of its first character to that
/// behind its last one.
pub proof fn law_stretches_within_a_line(s: Seq<char>, line: int, x: int, y: int, capture: usize)
    requires
        0 <= line < rope::line_count(s),
        s.len() <= usize::MAX,
        rope::line_start(s, line) <= x < y <= rope::line_start(s, line) + rope::line_len(s, line),
    ensures
        syntax::clipped(
            s,
            line,
            Stretch {
                start: rope::byte_of(s, x) as int,
                end: rope::byte_of(s, y) as int,
                capture: capture as int,
            },
        ) == Some(
            HighlightSpan {
                col_start: (x - rope::line_start(s, line)) as usize,
                col_end: (y - rope::line_start(s, line)) as usize,
                capture_idx: capture,
            },
        ),
{
    let start = rope::line_start(s, line);
    let past = rope::line_start(s, line + 1);
    rope::lemma_line_start(s, line);
    rope::lemma_line_start(s, line + 1);
    rope::lemma_line_start_monotone(s, line, line + 1);
    rope::laws::law_texts_of_lines(s, line);
    text::lemma_utf8_len_take(s, start, x);
    text::lemma_utf8_len_take(s, x, y);
    text::lemma_utf8_len_take(s, y, past);
    rope::laws::law_bytes_of_characters(s, x);
    text::lemma_utf8_len_take(s, x + 1, y);
    rope::law_byte_of_round_trips(s, x);
    rope::law_byte_of_round_trips(s, y);
}

/// A stretch over all of a line highlights every column, and one that lies before or
/// behind the line highlights none.
pub proof fn law_stretches_over_lines(s: Seq<char>, line: int, m: Stretch)
    requires
        0 <= line < rope::line_count(s),
        s.len() <= usize::MAX,
        0 <= m.capture <= usize::MAX,
    ensures
        ({
            let first = rope::byte_of(s, rope::line_start(s, line));
            let past = rope::byte_of(s, rope::line_start(s, line + 1));
            &&& m.end <= first || past <= m.start ==> syntax::clipped(s, line, m) is None
            &&& m.start <= first && past <= m.end && rope::line_len(s, line) > 0
                ==> syntax::clipped(s, line, m) == Some(
                HighlightSpan {
                    col_start: 0,
                    col_end: rope::line_len(s, line) as usize,
                    capture_idx: m.capture as usize,
                },
            )
        }),
{
    let start = rope::line_start(s, line);
    let past = rope::line_start(s, line + 1);
    rope::lemma_line_start(s, line);
    rope::lemma_line_start(s, line + 1);
    rope::lemma_line_start_monotone(s, line, line + 1);
    rope::laws::law_texts_of_lines(s, line);
    text::lemma_utf8_len_take(s, start, past);
    rope::law_byte_of_round_trips(s, start);
    rope::law_byte_of_round_trips(s, past);
    if rope::line_len(s, line) > 0 {
        rope::laws::law_bytes_of_characters(s, start);
        text::lemma_utf8_len_take(s, start + 1, past);
    }
}

/// The spans of a line are those of the stretches, in their order, without those that leave
/// nothing on it.
pub proof fn law_spans_of_a_line(s: Seq<char>, line: int, ms: Seq<Stretch>, m: Stretch)
    ensures
        syntax::spans_on(s, line, Seq::empty()) == Seq::<HighlightSpan>::empty(),
        match syntax::clipped(s, line, m) {
            Some(span) => syntax::spans_on(s, line, ms.push(m)) == syntax::spans_on(
                s,
                line,
                ms,
            ).push(span),
            None => syntax::spans_on(s, line, ms.push(m)) == syntax::spans_on(s, line, ms),
        },
{
    assert(ms.push(m).drop_last() =~= ms);
}

/// A name with parts is styled by its first one.
pub proof fn law_first_parts(name: Seq<char>, rest: Seq<char>)
    requires
        scan::laws::lacks(name, '.'),
    ensures
        syntax::primary(name + seq!['.'] + rest) == name,
        syntax::primary(name) == name,
{
    scan::laws::lemma_until_at(name, '.', rest);
    assert((name + seq!['.'] + rest).take(name.len() as int) =~= name);
    assert(name.take(name.len() as int) =~= name);
}

/// A text is looked at again exactly when its version is another one than before; what is
/// asked then is asked of that text.
pub proof fn law_refreshing(m: syntax::SyntaxModel, s: Seq<char>, version: u64, query: Seq<char>)
    ensures
        ({
            let after = syntax::after_refresh(m, s, version);
            &&& after.cached_version == Some(version)
            &&& m.cached_version == Some(version) ==> after == m
            &&& m.cached_version != Some(version) ==> {
                &&& after.spans.len() == rope::line_count(s)
                &&& after.parsed == Some(s)
                &&& text::utf8_len(s) <= 0xffff_ffff ==> (syntax::query_result(
                    after,
                    query,
                ) is Ok <==> syntax::rust_matches(s, query) is Some) && (syntax::rust_matches(
                    s,
                    query,
                ) is Some ==> syntax::query_result(after, query)->Ok_0 == syntax::rust_matches(
                    s,
                    query,
                )->Some_0)
            }
        }),
{
}

/// What a match says beyond the end of a text is cut off, and nothing else changes.
pub proof fn law_fitted_matches(ms: Seq<syntax::MatchModel>, s: Seq<char>, i: int)
    requires
        0 <= i < ms.len(),
    ensures
        ({
            let f = syntax::fitted(ms, s);
            let len = text::utf8_len(s) as int;
            &&& f.len() == ms.len()
            &&& f[i].capture == ms[i].capture && f[i].kind == ms[i].kind
            &&& f[i].start <= len && f[i].end <= len
            &&& ms[i].start <= len ==> f[i].start == ms[i].start
            &&& ms[i].start > len ==> f[i].start == len
            &&& ms[i].end <= len ==> f[i].end == ms[i].end
            &&& ms[i].end > len ==> f[i].end == len
        }),
{
}

/// Errors are red, warnings yellow, information cyan and hints violet; what has no such
/// severity is drawn like text.
pub proof fn law_colors_of_problems(severity: Option<u8>)
    ensures
        severity == Some(1u8) ==> theme::severity_color(severity) is SolarRed,
        severity == Some(2u8) ==> theme::severity_color(severity) is SolarYellow,
        severity == Some(3u8) ==> theme::severity_color(severity) is SolarCyan,
        severity == Some(4u8) ==> theme::severity_color(severity) is SolarViolet,
        severity is None || severity->Some_0 == 0 || severity->Some_0 > 4 ==> theme::severity_color(
            severity,
        ) is Base1,
{
}

} // verus!
