//! What stands in a context pack, seen from the text and the captures in it.

use vstd::prelude::*;

use crate::language;
use crate::language::Language;
use crate::protocol;
use crate::rope;
use crate::runtime;
use crate::runtime::insight;
use crate::scan;
use crate::syntax;
use crate::text;

verus! {

/// What a query finds in the syntax of an entry.
pub open spec fn found(e: runtime::EntryModel, query: Option<Seq<char>>) -> Seq<syntax::MatchModel> {
    match query {
        None => Seq::empty(),
        Some(q) => syntax::query_result(e.syntax->Some_0, q)->Ok_0,
    }
}

/// A query can be run, and the captures that it finds end no earlier than they start.
pub open spec fn answers(e: runtime::EntryModel, query: Option<Seq<char>>) -> bool {
    &&& query matches Some(q) ==> syntax::query_result(e.syntax->Some_0, q) is Ok
    &&& forall|i: int|
        0 <= i < found(e, query).len() ==> 0 <= (#[trigger] found(e, query)[i]).start
            <= found(e, query)[i].end
}

/// The place in a text of a byte; one past the end stands for the end.
pub open spec fn place(s: Seq<char>, byte: int) -> int {
    rope::char_of_byte(
        s,
        if byte <= text::utf8_len(s) {
            byte
        } else {
            text::utf8_len(s) as int
        },
    )
}

/// A slice holds the text from `a` to `z`, says where that is, and counts a token for every
/// four characters, and for what is left over.
pub open spec fn shows(s: Seq<char>, x: protocol::SliceModel, a: int, z: int) -> bool {
    &&& 0 <= a <= z <= s.len()
    &&& x.text == s.subrange(a, z)
    &&& x.range.start.line as int == rope::line_of(s, a)
    &&& x.range.start.character as int == a - rope::line_start(s, rope::line_of(s, a) as int)
    &&& x.range.end.line as int == rope::line_of(s, z)
    &&& x.range.end.character as int == z - rope::line_start(s, rope::line_of(s, z) as int)
    &&& 4 * x.tokens - 4 < z - a <= 4 * x.tokens
}

/// A capture of a function with the point in it.
pub open spec fn around(s: Seq<char>, m: syntax::MatchModel, point: int) -> bool {
    let len = text::utf8_len(s) as int;
    &&& m.capture == "fn"@
    &&& m.start <= point
    &&& point < m.end
    &&& point < len
}

/// How many bytes of a text a capture takes.
pub open spec fn extent(s: Seq<char>, m: syntax::MatchModel) -> int {
    let len = text::utf8_len(s) as int;
    (if m.end <= len {
        m.end
    } else {
        len
    }) - (if m.start <= len {
        m.start
    } else {
        len
    })
}

/// The slice of the function around the point: the smallest one.
pub open spec fn anchors(
    s: Seq<char>,
    fns: Seq<syntax::MatchModel>,
    point: int,
    x: protocol::SliceModel,
) -> bool {
    exists|k: int|
        {
            &&& 0 <= k < fns.len()
            &&& around(s, #[trigger] fns[k], point)
            &&& forall|j: int|
                0 <= j < fns.len() && around(s, #[trigger] fns[j], point) ==> extent(s, fns[k])
                    <= extent(s, fns[j])
            &&& shows(s, x, place(s, fns[k].start), place(s, fns[k].end))
        }
}

/// The slice of an import: the whole of it.
pub open spec fn imports(
    s: Seq<char>,
    ms: Seq<syntax::MatchModel>,
    x: protocol::SliceModel,
) -> bool {
    exists|k: int|
        {
            &&& 0 <= k < ms.len()
            &&& (#[trigger] ms[k]).capture == "import"@
            &&& shows(s, x, place(s, ms[k].start), place(s, ms[k].end))
        }
}

/// The slice of the signature of an item: from where the item starts up to its first line
/// feed, or all of it if it has none. It is no comment.
pub open spec fn signs_for(s: Seq<char>, m: syntax::MatchModel, x: protocol::SliceModel) -> bool {
    let a = place(s, m.start);
    let z = a + x.text.len();
    &&& m.capture == "item"@
    &&& !scan::contains(m.kind, "comment"@)
    &&& shows(s, x, a, z)
    &&& z <= place(s, m.end)
    &&& z < place(s, m.end) ==> s[z] == '\n'
    &&& forall|i: int| a <= i < z ==> #[trigger] s[i] != '\n'
}

/// The slice of the signature of one of the items.
pub open spec fn signs(
    s: Seq<char>,
    ms: Seq<syntax::MatchModel>,
    x: protocol::SliceModel,
) -> bool {
    exists|k: int| 0 <= k < ms.len() && signs_for(s, #[trigger] ms[k], x)
}

proof fn lemma_shows(
    s: Seq<char>,
    path: Option<Seq<char>>,
    start: int,
    end: int,
    reason: Seq<char>,
)
    requires
        0 <= start <= end <= text::utf8_len(s),
        s.len() <= u32::MAX,
    ensures
        shows(
            s,
            protocol::slice_of(s, path, start, end, reason),
            rope::char_of_byte(s, start),
            rope::char_of_byte(s, end),
        ),
{
    protocol::lemma_first_line_end(s, start, end);
    let a = rope::char_of_byte(s, start);
    let z = rope::char_of_byte(s, end);
    rope::lemma_char_of_byte(s, start);
    rope::lemma_line_of_bound(s, a);
    rope::lemma_line_of_bound(s, z);
    rope::lemma_line_of_monotone(s, a, s.len() as int);
    rope::lemma_line_of_monotone(s, z, s.len() as int);
    rope::lemma_line_of_position(s, rope::line_of(s, a) as int, a);
    rope::lemma_line_of_position(s, rope::line_of(s, z) as int, z);
    rope::lemma_line_start(s, rope::line_of(s, a) as int);
    rope::lemma_line_start(s, rope::line_of(s, z) as int);
}

/// What the search for the innermost function finds.
proof fn lemma_innermost(ms: Seq<syntax::MatchModel>, point: int, n: int)
    requires
        0 <= n <= ms.len(),
    ensures
        match insight::innermost(ms, point, n) {
            None => forall|j: int|
                0 <= j < n ==> !((#[trigger] ms[j]).capture == "fn"@ && ms[j].start <= point
                    < ms[j].end),
            Some(b) => {
                &&& exists|k: int| 0 <= k < n && #[trigger] ms[k] == b
                &&& b.capture == "fn"@ && b.start <= point < b.end
                &&& forall|j: int|
                    0 <= j < n && (#[trigger] ms[j]).capture == "fn"@ && ms[j].start <= point
                        < ms[j].end ==> b.end - b.start <= ms[j].end - ms[j].start
            },
        },
    decreases n,
{
    if n > 0 {
        lemma_innermost(ms, point, n - 1);
        assert(ms[n - 1] == ms[n - 1]);
    }
}

/// What the slices of imports are made of.
proof fn lemma_import_span(ms: Seq<syntax::MatchModel>, n: int, i: int) -> (k: int)
    requires
        0 <= n <= ms.len(),
        0 <= i < insight::import_spans(ms, n).len(),
    ensures
        0 <= k < n,
        ms[k].capture == "import"@,
        insight::import_spans(ms, n)[i] == (ms[k].start, ms[k].end),
    decreases n,
{
    if i < insight::import_spans(ms, n - 1).len() {
        lemma_import_span(ms, n - 1, i)
    } else {
        n - 1
    }
}

/// Every import has its slice.
proof fn lemma_every_import(ms: Seq<syntax::MatchModel>, n: int, k: int) -> (i: int)
    requires
        0 <= k < n <= ms.len(),
        ms[k].capture == "import"@,
    ensures
        0 <= i < insight::import_spans(ms, n).len(),
        insight::import_spans(ms, n)[i] == (ms[k].start, ms[k].end),
    decreases n,
{
    if k < n - 1 {
        lemma_every_import(ms, n - 1, k)
    } else {
        insight::import_spans(ms, n).len() - 1
    }
}

/// What the slices of signatures are made of.
proof fn lemma_siblings(
    s: Seq<char>,
    path: Option<Seq<char>>,
    ms: Seq<syntax::MatchModel>,
    anchor: Option<syntax::MatchModel>,
    covered: Seq<(int, int)>,
    n: int,
    i: int,
) -> (k: int)
    requires
        0 <= n <= ms.len(),
        0 <= i < insight::sibling_slices(s, path, ms, anchor, covered, n).len(),
    ensures
        0 <= k < n,
        insight::eligible(ms[k], anchor, covered),
        insight::sibling_slices(s, path, ms, anchor, covered, n)[i] == protocol::slice_of(
            s,
            path,
            ms[k].start,
            protocol::first_line_end(s, ms[k].start, ms[k].end),
            "sibling signature"@,
        ),
    decreases n,
{
    let before = insight::sibling_slices(s, path, ms, anchor, covered, n - 1);
    if i < before.len() {
        lemma_siblings(s, path, ms, anchor, covered, n - 1, i)
    } else {
        n - 1
    }
}

/// Every eligible item has its slice, as long as there are not too many.
proof fn lemma_every_sibling(
    s: Seq<char>,
    path: Option<Seq<char>>,
    ms: Seq<syntax::MatchModel>,
    anchor: Option<syntax::MatchModel>,
    covered: Seq<(int, int)>,
    n: int,
    k: int,
)
    requires
        0 <= k < n <= ms.len(),
        insight::sibling_slices(s, path, ms, anchor, covered, n).len() < 50,
        insight::eligible(ms[k], anchor, covered),
    ensures
        insight::sibling_slices(s, path, ms, anchor, covered, n).contains(
            protocol::slice_of(
                s,
                path,
                ms[k].start,
                protocol::first_line_end(s, ms[k].start, ms[k].end),
                "sibling signature"@,
            ),
        ),
    decreases n,
{
    let before = insight::sibling_slices(s, path, ms, anchor, covered, n - 1);
    let after = insight::sibling_slices(s, path, ms, anchor, covered, n);
    let x = protocol::slice_of(
        s,
        path,
        ms[k].start,
        protocol::first_line_end(s, ms[k].start, ms[k].end),
        "sibling signature"@,
    );
    if k < n - 1 {
        lemma_every_sibling(s, path, ms, anchor, covered, n - 1, k);
        let j = choose|j: int| 0 <= j < before.len() && before[j] == x;
        assert(after[j] == x);
    } else {
        assert(after[after.len() - 1] == x);
    }
}

/// The captures of a query, cut to the text, as a pack is made of them.
proof fn lemma_matches(e: runtime::EntryModel, query: Option<Seq<char>>)
    requires
        answers(e, query),
    ensures
        ({
            let ms = insight::optional_matches(e, query)->Ok_0;
            let s = e.buffer.text;
            &&& insight::optional_matches(e, query) is Ok
            &&& ms is None <==> query is None
            &&& ms matches Some(v) ==> {
                &&& v.len() == found(e, query).len()
                &&& forall|i: int|
                    0 <= i < v.len() ==> {
                        let m = found(e, query)[i];
                        &&& 0 <= (#[trigger] v[i]).start <= v[i].end <= text::utf8_len(s)
                        &&& v[i].capture == m.capture && v[i].kind == m.kind
                        &&& rope::char_of_byte(s, v[i].start) == place(s, m.start)
                        &&& rope::char_of_byte(s, v[i].end) == place(s, m.end)
                        &&& v[i].end - v[i].start == extent(s, m)
                    }
            }
        }),
{
    if let Some(v) = insight::optional_matches(e, query)->Ok_0 {
        assert forall|i: int| 0 <= i < v.len() implies {
            let m = found(e, query)[i];
            let s = e.buffer.text;
            &&& 0 <= (#[trigger] v[i]).start <= v[i].end <= text::utf8_len(s)
            &&& v[i].capture == m.capture && v[i].kind == m.kind
            &&& rope::char_of_byte(s, v[i].start) == place(s, m.start)
            &&& rope::char_of_byte(s, v[i].end) == place(s, m.end)
            &&& v[i].end - v[i].start == extent(s, m)
        } by {
            let m = found(e, query)[i];
            assert(0 <= m.start <= m.end);
            assert(v[i] == syntax::cut_to(m, e.buffer.text));
        }
    }
}

/// The byte that a pack is made around.
pub open spec fn point_of(s: Seq<char>, line: u32, character: u32) -> int {
    rope::byte_of(s, rope::line_start(s, line as int) + character) as int
}

/// A line and a character that are there in a text.
pub open spec fn there(s: Seq<char>, line: u32, character: u32) -> bool {
    &&& (line as int) < rope::line_count(s)
    &&& rope::line_start(s, line as int) + character <= rope::line_end(s, line as int)
}

proof fn lemma_point(s: Seq<char>, line: u32, character: u32)
    requires
        there(s, line, character),
    ensures
        protocol::lsp_position(s, line as int, character as int) == Ok::<
            int,
            crate::error::EditorError,
        >(rope::line_start(s, line as int) + character),
        0 <= point_of(s, line, character) <= text::utf8_len(s),
{
    rope::lemma_line_end(s, line as int);
    rope::lemma_line_start(s, line as int);
    rope::lemma_line_start(s, line + 1);
    let i = rope::line_start(s, line as int) + character;
    text::lemma_utf8_len_take(s, i, s.len() as int);
    assert(s.take(s.len() as int) =~= s);
}

/// What one candidate is.
pub open spec fn stands_for(
    e: runtime::EntryModel,
    l: Language,
    point: int,
    x: protocol::SliceModel,
) -> bool {
    let s = e.buffer.text;
    &&& x.path == e.buffer.path
    &&& {
        ||| x.reason == "anchor: enclosing function"@ && anchors(
            s,
            found(e, language::function_query_text(l)),
            point,
            x,
        )
        ||| x.reason == "import"@ && imports(s, found(e, language::import_query_text(l)), x)
        ||| x.reason == "sibling signature"@ && signs(
            s,
            found(e, language::module_items_query_text(l)),
            x,
        )
    }
}

proof fn lemma_anchor(e: runtime::EntryModel, l: Language, point: int)
    requires
        answers(e, language::function_query_text(l)),
        e.buffer.text.len() <= u32::MAX,
        0 <= point <= text::utf8_len(e.buffer.text),
    ensures
        ({
            let s = e.buffer.text;
            let raw = found(e, language::function_query_text(l));
            let fns = insight::optional_matches(e, language::function_query_text(l))->Ok_0;
            match insight::anchor_of(fns, point) {
                None => forall|k: int| 0 <= k < raw.len() ==> !around(s, #[trigger] raw[k], point),
                Some(a) => {
                    &&& 0 <= a.start <= a.end <= text::utf8_len(s)
                    &&& stands_for(
                        e,
                        l,
                        point,
                        protocol::slice_of(
                            s,
                            e.buffer.path,
                            a.start,
                            a.end,
                            "anchor: enclosing function"@,
                        ),
                    )
                },
            }
        }),
{
    let s = e.buffer.text;
    let query = language::function_query_text(l);
    let raw = found(e, query);
    let fns = insight::optional_matches(e, query)->Ok_0;
    lemma_matches(e, query);
    if let Some(v) = fns {
        lemma_innermost(v, point, v.len() as int);
        assert forall|k: int| 0 <= k < raw.len() implies around(s, #[trigger] raw[k], point) == (
        v[k].capture == "fn"@ && v[k].start <= point < v[k].end) by {
            assert(v[k] == syntax::cut_to(raw[k], s));
        }
        match insight::anchor_of(fns, point) {
            None => {
                assert forall|k: int| 0 <= k < raw.len() implies !around(
                    s,
                    #[trigger] raw[k],
                    point,
                ) by {
                    assert(v[k].capture == v[k].capture);
                }
            },
            Some(a) => {
                let k = choose|k: int| 0 <= k < v.len() && #[trigger] v[k] == a;
                let x = protocol::slice_of(
                    s,
                    e.buffer.path,
                    a.start,
                    a.end,
                    "anchor: enclosing function"@,
                );
                lemma_shows(s, e.buffer.path, a.start, a.end, "anchor: enclosing function"@);
                assert(around(s, raw[k], point));
                assert forall|j: int| 0 <= j < raw.len() && around(
                    s,
                    #[trigger] raw[j],
                    point,
                ) implies extent(s, raw[k]) <= extent(s, raw[j]) by {
                    assert(v[j].capture == "fn"@);
                }
                assert(anchors(s, raw, point, x));
            },
        }
    }
}

proof fn lemma_import(e: runtime::EntryModel, l: Language, point: int, i: int)
    requires
        answers(e, language::import_query_text(l)),
        e.buffer.text.len() <= u32::MAX,
        ({
            let ms = insight::optional_matches(e, language::import_query_text(l))->Ok_0;
            ms is Some && 0 <= i < insight::import_spans(ms->Some_0, ms->Some_0.len() as int).len()
        }),
    ensures
        ({
            let ms = insight::optional_matches(
                e,
                language::import_query_text(l),
            )->Ok_0->Some_0;
            let span = insight::import_spans(ms, ms.len() as int)[i];
            stands_for(
                e,
                l,
                point,
                protocol::slice_of(e.buffer.text, e.buffer.path, span.0, span.1, "import"@),
            )
        }),
{
    let s = e.buffer.text;
    let query = language::import_query_text(l);
    let raw = found(e, query);
    let ms = insight::optional_matches(e, query)->Ok_0->Some_0;
    lemma_matches(e, query);
    let k = lemma_import_span(ms, ms.len() as int, i);
    let span = insight::import_spans(ms, ms.len() as int)[i];
    let x = protocol::slice_of(s, e.buffer.path, span.0, span.1, "import"@);
    assert(0 <= ms[k].start <= ms[k].end <= text::utf8_len(s));
    lemma_shows(s, e.buffer.path, span.0, span.1, "import"@);
    assert(raw[k].capture == "import"@);
    assert(imports(s, raw, x));
}

proof fn lemma_signature(
    e: runtime::EntryModel,
    l: Language,
    point: int,
    anchor: Option<syntax::MatchModel>,
    covered: Seq<(int, int)>,
    k: int,
)
    requires
        answers(e, language::module_items_query_text(l)),
        e.buffer.text.len() <= u32::MAX,
        ({
            let ms = insight::optional_matches(e, language::module_items_query_text(l))->Ok_0;
            ms is Some && 0 <= k < ms->Some_0.len() && insight::eligible(
                ms->Some_0[k],
                anchor,
                covered,
            )
        }),
    ensures
        ({
            let s = e.buffer.text;
            let m = insight::optional_matches(
                e,
                language::module_items_query_text(l),
            )->Ok_0->Some_0[k];
            let x = protocol::slice_of(
                s,
                e.buffer.path,
                m.start,
                protocol::first_line_end(s, m.start, m.end),
                "sibling signature"@,
            );
            &&& stands_for(e, l, point, x)
            &&& signs_for(s, found(e, language::module_items_query_text(l))[k], x)
        }),
{
    let s = e.buffer.text;
    let query = language::module_items_query_text(l);
    let raw = found(e, query);
    let ms = insight::optional_matches(e, query)->Ok_0->Some_0;
    lemma_matches(e, query);
    let m = ms[k];
    assert(0 <= m.start <= m.end <= text::utf8_len(s));
    protocol::lemma_first_line_end(s, m.start, m.end);
    let end = protocol::first_line_end(s, m.start, m.end);
    let x = protocol::slice_of(s, e.buffer.path, m.start, end, "sibling signature"@);
    lemma_shows(s, e.buffer.path, m.start, end, "sibling signature"@);
    let a = rope::char_of_byte(s, m.start);
    let z = rope::char_of_byte(s, m.end);
    let t = protocol::span_text(s, m.start, m.end);
    let n = scan::until(t, '\n');
    scan::lemma_until(t, '\n');
    if n < t.len() {
        rope::law_byte_of_round_trips(s, a + n);
        assert(t[n] == s[a + n]);
    }
    let w = rope::char_of_byte(s, end);
    assert(w == a + n);
    assert forall|i: int| a <= i < w implies #[trigger] s[i] != '\n' by {
        assert(t[i - a] == s[i]);
    }
    assert(x.text.len() == w - a);
    assert(a == place(s, raw[k].start));
    assert(z == place(s, raw[k].end));
    assert(raw[k].capture == "item"@);
    assert(signs_for(s, raw[k], x));
    assert(signs(s, raw, x));
}

/// Each slice of a context pack is one of three things. The function around the point comes
/// first: the smallest one, and all of it. An import is there as a whole. Of another item
/// there is the first line, up to its first line feed, and no line feed.
pub proof fn law_slices_of_a_pack(
    e: runtime::EntryModel,
    l: Language,
    line: u32,
    character: u32,
    budget: int,
    i: int,
)
    requires
        there(e.buffer.text, line, character),
        answers(e, language::function_query_text(l)),
        answers(e, language::import_query_text(l)),
        answers(e, language::module_items_query_text(l)),
        e.buffer.text.len() <= u32::MAX,
        0 <= i < insight::pack_around(e, l, line, character, budget).slices.len(),
    ensures
        ({
            let p = insight::pack_around(e, l, line, character, budget);
            stands_for(e, l, point_of(e.buffer.text, line, character), p.slices[i])
        }),
{
    let s = e.buffer.text;
    let point = point_of(s, line, character);
    lemma_point(s, line, character);
    let fns = insight::optional_matches(e, language::function_query_text(l))->Ok_0;
    let ims = insight::optional_matches(e, language::import_query_text(l))->Ok_0;
    let items = insight::optional_matches(e, language::module_items_query_text(l))->Ok_0;
    let cands = insight::candidates(s, e.buffer.path, point, fns, ims, items);
    insight::law_packing(cands, budget);
    assert(insight::pack_around(e, l, line, character, budget).slices[i] == cands[i]);
    lemma_candidate(e, l, point, i);
}

proof fn lemma_candidate(e: runtime::EntryModel, l: Language, point: int, i: int)
    requires
        0 <= point <= text::utf8_len(e.buffer.text),
        answers(e, language::function_query_text(l)),
        answers(e, language::import_query_text(l)),
        answers(e, language::module_items_query_text(l)),
        e.buffer.text.len() <= u32::MAX,
        ({
            let fns = insight::optional_matches(e, language::function_query_text(l))->Ok_0;
            let ims = insight::optional_matches(e, language::import_query_text(l))->Ok_0;
            let items = insight::optional_matches(e, language::module_items_query_text(l))->Ok_0;
            0 <= i < insight::candidates(
                e.buffer.text,
                e.buffer.path,
                point,
                fns,
                ims,
                items,
            ).len()
        }),
    ensures
        ({
            let fns = insight::optional_matches(e, language::function_query_text(l))->Ok_0;
            let ims = insight::optional_matches(e, language::import_query_text(l))->Ok_0;
            let items = insight::optional_matches(e, language::module_items_query_text(l))->Ok_0;
            stands_for(
                e,
                l,
                point,
                insight::candidates(e.buffer.text, e.buffer.path, point, fns, ims, items)[i],
            )
        }),
{
    let s = e.buffer.text;
    let fns = insight::optional_matches(e, language::function_query_text(l))->Ok_0;
    let ims = insight::optional_matches(e, language::import_query_text(l))->Ok_0;
    let items = insight::optional_matches(e, language::module_items_query_text(l))->Ok_0;
    let cands = insight::candidates(s, e.buffer.path, point, fns, ims, items);
    let anchor = insight::anchor_of(fns, point);
    let first: int = if anchor is Some {
        1
    } else {
        0
    };
    let spans = match ims {
        Some(ms) => insight::import_spans(ms, ms.len() as int),
        None => Seq::empty(),
    };
    let covered = insight::covered_spans(anchor, ims);
    lemma_anchor(e, l, point);
    if i < first {
    } else if i < first + spans.len() {
        lemma_import(e, l, point, i - first);
        assert(cands[i] == protocol::slice_of(
            s,
            e.buffer.path,
            spans[i - first].0,
            spans[i - first].1,
            "import"@,
        ));
    } else {
        let ms = items->Some_0;
        let j = i - first - spans.len();
        let k = lemma_siblings(s, e.buffer.path, ms, anchor, covered, ms.len() as int, j);
        lemma_signature(e, l, point, anchor, covered, k);
        assert(cands[i] == insight::sibling_slices(
            s,
            e.buffer.path,
            ms,
            anchor,
            covered,
            ms.len() as int,
        )[j]);
    }
}

/// A pack that is not truncated leaves nothing out: the function around the point comes
/// first, if there is one, every import is there, and the order is that of the three kinds.
pub proof fn law_whole_packs(
    e: runtime::EntryModel,
    l: Language,
    line: u32,
    character: u32,
    budget: int,
    k: int,
)
    requires
        there(e.buffer.text, line, character),
        answers(e, language::function_query_text(l)),
        answers(e, language::import_query_text(l)),
        answers(e, language::module_items_query_text(l)),
        e.buffer.text.len() <= u32::MAX,
        !insight::pack_around(e, l, line, character, budget).truncated,
    ensures
        ({
            let s = e.buffer.text;
            let p = insight::pack_around(e, l, line, character, budget).slices;
            let fns = found(e, language::function_query_text(l));
            let ims = found(e, language::import_query_text(l));
            let point = point_of(s, line, character);
            &&& 0 <= k < fns.len() && around(s, fns[k], point) ==> p.len() > 0 && p[0].reason
                == "anchor: enclosing function"@
            &&& 0 <= k < ims.len() && ims[k].capture == "import"@ ==> exists|i: int|
                0 <= i < p.len() && (#[trigger] p[i]).reason == "import"@ && shows(
                    s,
                    p[i],
                    place(s, ims[k].start),
                    place(s, ims[k].end),
                )
        }),
{
    let s = e.buffer.text;
    let point = point_of(s, line, character);
    lemma_point(s, line, character);
    let fns = insight::optional_matches(e, language::function_query_text(l))->Ok_0;
    let ims = insight::optional_matches(e, language::import_query_text(l))->Ok_0;
    let items = insight::optional_matches(e, language::module_items_query_text(l))->Ok_0;
    let cands = insight::candidates(s, e.buffer.path, point, fns, ims, items);
    let p = insight::pack_around(e, l, line, character, budget).slices;
    insight::law_packing(cands, budget);
    assert(p =~= cands);
    let anchor = insight::anchor_of(fns, point);
    lemma_anchor(e, l, point);
    let raw = found(e, language::import_query_text(l));
    if 0 <= k < raw.len() && raw[k].capture == "import"@ {
        lemma_matches(e, language::import_query_text(l));
        let ms = ims->Some_0;
        let first: int = if anchor is Some {
            1
        } else {
            0
        };
        assert(ms[k].capture == "import"@);
        let i = lemma_every_import(ms, ms.len() as int, k);
        let span = insight::import_spans(ms, ms.len() as int)[i];
        lemma_shows(s, e.buffer.path, span.0, span.1, "import"@);
        assert(p[first + i] == protocol::slice_of(s, e.buffer.path, span.0, span.1, "import"@));
    }
}

/// With no function around the point, a pack that is not truncated has the signature of
/// every item, as long as it has fewer slices than there may be signatures. Comments and
/// imports are left out.
pub proof fn law_whole_packs_have_every_signature(
    e: runtime::EntryModel,
    l: Language,
    line: u32,
    character: u32,
    budget: int,
    k: int,
)
    requires
        there(e.buffer.text, line, character),
        answers(e, language::function_query_text(l)),
        answers(e, language::import_query_text(l)),
        answers(e, language::module_items_query_text(l)),
        e.buffer.text.len() <= u32::MAX,
        !insight::pack_around(e, l, line, character, budget).truncated,
        insight::pack_around(e, l, line, character, budget).slices.len() < 50,
        ({
            let s = e.buffer.text;
            let point = point_of(s, line, character);
            let fns = found(e, language::function_query_text(l));
            let ims = found(e, language::import_query_text(l));
            let items = found(e, language::module_items_query_text(l));
            let len = text::utf8_len(s);
            &&& forall|j: int| 0 <= j < fns.len() ==> !around(s, #[trigger] fns[j], point)
            &&& 0 <= k < items.len()
            &&& items[k].capture == "item"@
            &&& !scan::contains(items[k].kind, "comment"@)
            &&& items[k].start < len && items[k].end <= len
            &&& forall|j: int|
                0 <= j < ims.len() ==> (#[trigger] ims[j]).start != items[k].start
        }),
    ensures
        ({
            let s = e.buffer.text;
            let p = insight::pack_around(e, l, line, character, budget).slices;
            let items = found(e, language::module_items_query_text(l));
            exists|i: int|
                0 <= i < p.len() && (#[trigger] p[i]).reason == "sibling signature"@ && signs_for(
                    s,
                    items[k],
                    p[i],
                )
        }),
{
    let s = e.buffer.text;
    let point = point_of(s, line, character);
    lemma_point(s, line, character);
    let fns = insight::optional_matches(e, language::function_query_text(l))->Ok_0;
    let ims = insight::optional_matches(e, language::import_query_text(l))->Ok_0;
    let items = insight::optional_matches(e, language::module_items_query_text(l))->Ok_0;
    let cands = insight::candidates(s, e.buffer.path, point, fns, ims, items);
    let p = insight::pack_around(e, l, line, character, budget).slices;
    insight::law_packing(cands, budget);
    assert(p =~= cands);
    let anchor = insight::anchor_of(fns, point);
    lemma_anchor(e, l, point);
    lemma_matches(e, language::function_query_text(l));
    lemma_matches(e, language::import_query_text(l));
    lemma_matches(e, language::module_items_query_text(l));
    let raw = found(e, language::module_items_query_text(l));
    let ms = items->Some_0;
    let m = ms[k];
    assert(m == syntax::cut_to(raw[k], s));
    assert(anchor is None) by {
        if anchor is Some {
            let v = fns->Some_0;
            lemma_innermost(v, point, v.len() as int);
            let j = choose|j: int| 0 <= j < v.len() && #[trigger] v[j] == anchor->Some_0;
            assert(v[j] == syntax::cut_to(found(e, language::function_query_text(l))[j], s));
            assert(around(s, found(e, language::function_query_text(l))[j], point));
        }
    }
    let covered = insight::covered_spans(anchor, ims);
    assert(!covered.contains((m.start, m.end))) by {
        if covered.contains((m.start, m.end)) {
            let v = ims->Some_0;
            let i = choose|i: int| 0 <= i < covered.len() && covered[i] == (m.start, m.end);
            let j = lemma_import_span(v, v.len() as int, i);
            let was = found(e, language::import_query_text(l))[j];
            assert(v[j] == syntax::cut_to(was, s));
            assert(was.start == raw[k].start);
        }
    }
    assert(insight::eligible(m, anchor, covered));
    let n = ms.len() as int;
    let sibs = insight::sibling_slices(s, e.buffer.path, ms, anchor, covered, n);
    lemma_every_sibling(s, e.buffer.path, ms, anchor, covered, n, k);
    lemma_signature(e, l, point, anchor, covered, k);
    let x = protocol::slice_of(
        s,
        e.buffer.path,
        m.start,
        protocol::first_line_end(s, m.start, m.end),
        "sibling signature"@,
    );
    let i = choose|i: int| 0 <= i < sibs.len() && sibs[i] == x;
    let before = cands.len() - sibs.len();
    assert(cands[before + i] == x);
}

} // verus!
