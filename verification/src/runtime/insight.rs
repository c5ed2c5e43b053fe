//! What a buffer's text, its language server, its repository and its tests have
//! to say: queries, context packs, renames and the requests behind them.

use ropey::Rope;
use vstd::prelude::*;

use super::EditorCore;
use crate::buffer;
use crate::error::EditorError;
use crate::language;
use crate::language::Language;
use crate::lsp::{DocumentSymbol, Range};
use crate::protocol;
use crate::protocol::{
    byte_span_to_range,
    enclosing_symbols,
    first_line_end_byte,
    lsp_pos_to_char,
    make_context_slice,
    sibling_symbols,
    ContextSlice,
    ImportEntry,
    PackedContext,
    ScopeReport,
    CONTEXT_MAX_SIBLINGS,
};
use crate::rope;
use crate::rope::rope_slice;
use crate::runtime;
use crate::scan;
use crate::scan::text_contains;
use crate::syntax;
use crate::syntax::{fit, AstMatch};
use crate::text::same;

pub mod laws;

verus! {

// ------------------------------------------------------------------ AST queries

/// What a structural query finds in a buffer: the captures in the text that its
/// syntax is of.
pub open spec fn ast_result(m: runtime::CoreModel, id: u64, query: Seq<char>) -> Result<
    Seq<syntax::MatchModel>,
    EditorError,
> {
    match runtime::place_of(m.entries, id) {
        None => Err(EditorError::UnknownBuffer { id }),
        Some(k) => match m.entries[k].syntax {
            None => Err(EditorError::NoSyntax),
            Some(x) => syntax::query_result(x, query),
        },
    }
}

impl EditorCore {
    /// Runs a structural query on a buffer.
    pub fn ast_query(&self, buffer_id: u64, query: &str) -> (r: Result<Vec<AstMatch>, EditorError>)
        requires
            runtime::well_formed(self@),
        ensures
            match r {
                Ok(found) => ast_result(self@, buffer_id, query@) == Ok::<
                    Seq<syntax::MatchModel>,
                    EditorError,
                >(syntax::match_views(found@)),
                Err(e) => ast_result(self@, buffer_id, query@) == Err::<
                    Seq<syntax::MatchModel>,
                    _,
                >(e),
            },
    {
        match self.find(buffer_id) {
            None => Err(EditorError::UnknownBuffer { id: buffer_id }),
            Some(k) => {
                assert(self@.entries[k as int] == self.buffers@[k as int]@);
                assert(runtime::entry_ok(self@.entries[k as int]));
                match &self.buffers[k].syntax {
                    None => Err(EditorError::NoSyntax),
                    Some(syn) => syn.query(query),
                }
            },
        }
    }
}

// ---------------------------------------------------------------------- imports

/// The imports among the first `n` captures: their text and their line.
pub open spec fn imports_among(s: Seq<char>, ms: Seq<syntax::MatchModel>, n: int) -> Seq<
    (Seq<char>, int),
>
    decreases n,
{
    if n <= 0 {
        Seq::empty()
    } else {
        let before = imports_among(s, ms, n - 1);
        let m = ms[n - 1];
        if m.capture == "import"@ {
            before.push(
                (protocol::span_text(s, m.start, m.end), buffer::row_at_byte(s, m.start)),
            )
        } else {
            before
        }
    }
}

pub open spec fn import_views(v: Seq<ImportEntry>) -> Seq<(Seq<char>, int)> {
    Seq::new(v.len(), |i: int| (v[i].text@, v[i].line as int))
}

/// The imports of a buffer, or why they cannot be listed.
pub open spec fn imports_result(m: runtime::CoreModel, id: u64) -> Result<
    Seq<(Seq<char>, int)>,
    EditorError,
> {
    match runtime::place_of(m.entries, id) {
        None => Err(EditorError::UnknownBuffer { id }),
        Some(k) => {
            let e = m.entries[k];
            match e.language {
                None => Err(EditorError::NoLanguageForImports),
                Some(l) => match language::import_query_text(l) {
                    None => Err(EditorError::NoImportQuery { language: l }),
                    Some(q) => match e.syntax {
                        None => Err(EditorError::NoSyntax),
                        Some(x) => match syntax::query_result(x, q) {
                            Err(err) => Err(err),
                            Ok(ms) => Ok(
                                imports_among(
                                    e.buffer.text,
                                    syntax::fitted(ms, e.buffer.text),
                                    ms.len() as int,
                                ),
                            ),
                        },
                    },
                },
            }
        },
    }
}

fn fit_found(
    found: Vec<AstMatch>,
    rope: &Rope,
    Ghost(x): Ghost<syntax::SyntaxModel>,
) -> (r: Vec<AstMatch>)
    requires
        x.parsed is Some,
        syntax::within(syntax::match_views(found@), x.parsed->Some_0),
    ensures
        syntax::match_views(r@) == syntax::fitted(
            syntax::match_views(found@),
            rope::rope_chars(*rope),
        ),
        syntax::within(syntax::match_views(r@), rope::rope_chars(*rope)),
{
    assert forall|i: int| 0 <= i < found@.len() implies (#[trigger] found@[i]).byte_start
        <= found@[i].byte_end by {
        assert(syntax::match_views(found@)[i] == found@[i]@);
    }
    fit(found, rope)
}

/// The imports among the captures of a query on the text in `rope`.
pub fn imports_in(rope: &Rope, found: &Vec<AstMatch>) -> (r: Vec<ImportEntry>)
    requires
        syntax::within(syntax::match_views(found@), rope::rope_chars(*rope)),
    ensures
        import_views(r@) == imports_among(
            rope::rope_chars(*rope),
            syntax::match_views(found@),
            found@.len() as int,
        ),
{
    let ghost s = rope::rope_chars(*rope);
    let ghost ms = syntax::match_views(found@);
    let mut r: Vec<ImportEntry> = Vec::new();
    let mut i: usize = 0;
    assert(import_views(r@) =~= imports_among(s, ms, 0));
    while i < found.len()
        invariant
            s == rope::rope_chars(*rope),
            ms == syntax::match_views(found@),
            syntax::within(ms, s),
            i <= found@.len(),
            import_views(r@) == imports_among(s, ms, i as int),
        decreases found@.len() - i,
    {
        let m = &found[i];
        assert(ms[i as int] == m@);
        if same(&m.capture, "import") {
            let ghost before = import_views(r@);
            proof {
                protocol::lemma_first_line_end(s, m.byte_start as int, m.byte_end as int);
            }
            let text = rope_slice(
                rope,
                rope.byte_to_char(m.byte_start),
                rope.byte_to_char(m.byte_end),
            );
            let line: usize = rope.byte_to_line(m.byte_start);
            let ghost item = (text@, line as int);
            r.push(ImportEntry { text, line });
            assert(import_views(r@) =~= before.push(item));
        }
        i += 1;
    }
    r
}

impl EditorCore {
    /// The import declarations of a buffer, by a structural query.
    pub fn scope_imports(&self, buffer_id: u64) -> (r: Result<Vec<ImportEntry>, EditorError>)
        requires
            runtime::well_formed(self@),
        ensures
            match r {
                Ok(v) => imports_result(self@, buffer_id) == Ok::<
                    Seq<(Seq<char>, int)>,
                    EditorError,
                >(import_views(v@)),
                Err(e) => imports_result(self@, buffer_id) == Err::<Seq<(Seq<char>, int)>, _>(e),
            },
    {
        let k: usize = match self.find(buffer_id) {
            Some(k) => k,
            None => {
                return Err(EditorError::UnknownBuffer { id: buffer_id });
            },
        };
        assert(self@.entries[k as int] == self.buffers@[k as int]@);
        assert(runtime::entry_ok(self@.entries[k as int]));
        let language = match self.buffers[k].language {
            Some(l) => l,
            None => {
                return Err(EditorError::NoLanguageForImports);
            },
        };
        let query = match language.import_query() {
            Some(q) => q,
            None => {
                return Err(EditorError::NoImportQuery { language });
            },
        };
        let rope = self.buffers[k].buffer.rope();
        match &self.buffers[k].syntax {
            None => Err(EditorError::NoSyntax),
            Some(syn) => match syn.query(query) {
                Ok(found) => Ok(imports_in(rope, &fit_found(found, rope, Ghost(syn@)))),
                Err(e) => Err(e),
            },
        }
    }
}

/// What is visible at a point, from the imports and the document symbols.
pub fn scope_report(
    imports: Vec<ImportEntry>,
    symbols: &Vec<DocumentSymbol>,
    line: u32,
    character: u32,
) -> (r: ScopeReport)
    ensures
        r.imports == imports,
        protocol::symbol_views(r.enclosing@) == protocol::enclosing_of(
            symbols@,
            line as int,
            character as int,
        ),
        protocol::symbol_views(r.siblings@) == protocol::siblings_of(
            symbols@,
            line as int,
            character as int,
        ),
{
    ScopeReport {
        enclosing: enclosing_symbols(symbols, line, character),
        imports,
        siblings: sibling_symbols(symbols, line, character),
    }
}

// ---------------------------------------------------------------- context packs

/// A function around the point.
pub open spec fn surrounds(m: syntax::MatchModel, point: int) -> bool {
    m.capture == "fn"@ && m.start <= point < m.end
}

/// The smallest function around the point among the first `n` captures; the
/// first of those of equal size.
pub open spec fn innermost(ms: Seq<syntax::MatchModel>, point: int, n: int) -> Option<
    syntax::MatchModel,
>
    decreases n,
{
    if n <= 0 {
        None
    } else {
        let best = innermost(ms, point, n - 1);
        let m = ms[n - 1];
        if surrounds(m, point) && (best matches Some(b) ==> m.end - m.start < b.end - b.start) {
            Some(m)
        } else {
            best
        }
    }
}

/// The enclosing function of a point.
pub open spec fn anchor_of(fns: Option<Seq<syntax::MatchModel>>, point: int) -> Option<
    syntax::MatchModel,
> {
    match fns {
        Some(ms) => innermost(ms, point, ms.len() as int),
        None => None,
    }
}

/// The spans of the imports among the first `n` captures.
pub open spec fn import_spans(ms: Seq<syntax::MatchModel>, n: int) -> Seq<(int, int)>
    decreases n,
{
    if n <= 0 {
        Seq::empty()
    } else {
        let before = import_spans(ms, n - 1);
        if ms[n - 1].capture == "import"@ {
            before.push((ms[n - 1].start, ms[n - 1].end))
        } else {
            before
        }
    }
}

/// The slices of spans.
pub open spec fn span_slices(
    s: Seq<char>,
    path: Option<Seq<char>>,
    spans: Seq<(int, int)>,
    reason: Seq<char>,
) -> Seq<protocol::SliceModel> {
    Seq::new(
        spans.len(),
        |i: int| protocol::slice_of(s, path, spans[i].0, spans[i].1, reason),
    )
}

/// The spans that the anchor and the imports take.
pub open spec fn covered_spans(
    anchor: Option<syntax::MatchModel>,
    imports: Option<Seq<syntax::MatchModel>>,
) -> Seq<(int, int)> {
    let first = match anchor {
        Some(a) => seq![(a.start, a.end)],
        None => Seq::empty(),
    };
    match imports {
        Some(ms) => first + import_spans(ms, ms.len() as int),
        None => first,
    }
}

/// A top-level item whose signature is worth packing: no comment, not packed
/// already, not inside the anchor.
pub open spec fn eligible(
    m: syntax::MatchModel,
    anchor: Option<syntax::MatchModel>,
    covered: Seq<(int, int)>,
) -> bool {
    &&& m.capture == "item"@
    &&& !scan::contains(m.kind, "comment"@)
    &&& !covered.contains((m.start, m.end))
    &&& !(anchor matches Some(a) && m.start >= a.start && m.end <= a.end)
}

/// The signatures of the eligible items among the first `n` captures, as many as
/// are considered.
pub open spec fn sibling_slices(
    s: Seq<char>,
    path: Option<Seq<char>>,
    ms: Seq<syntax::MatchModel>,
    anchor: Option<syntax::MatchModel>,
    covered: Seq<(int, int)>,
    n: int,
) -> Seq<protocol::SliceModel>
    decreases n,
{
    if n <= 0 {
        Seq::empty()
    } else {
        let before = sibling_slices(s, path, ms, anchor, covered, n - 1);
        let m = ms[n - 1];
        if before.len() < CONTEXT_MAX_SIBLINGS && eligible(m, anchor, covered) {
            before.push(
                protocol::slice_of(
                    s,
                    path,
                    m.start,
                    protocol::first_line_end(s, m.start, m.end),
                    "sibling signature"@,
                ),
            )
        } else {
            before
        }
    }
}

/// The candidates for a pack in the order of their priority: the enclosing
/// function, the imports, the signatures of the other items.
pub open spec fn candidates(
    s: Seq<char>,
    path: Option<Seq<char>>,
    point: int,
    fns: Option<Seq<syntax::MatchModel>>,
    imports: Option<Seq<syntax::MatchModel>>,
    items: Option<Seq<syntax::MatchModel>>,
) -> Seq<protocol::SliceModel> {
    let anchor = anchor_of(fns, point);
    let first = match anchor {
        Some(a) => seq![
            protocol::slice_of(s, path, a.start, a.end, "anchor: enclosing function"@),
        ],
        None => Seq::empty(),
    };
    let second = match imports {
        Some(ms) => span_slices(s, path, import_spans(ms, ms.len() as int), "import"@),
        None => Seq::empty(),
    };
    let third = match items {
        Some(ms) => sibling_slices(
            s,
            path,
            ms,
            anchor,
            covered_spans(anchor, imports),
            ms.len() as int,
        ),
        None => Seq::empty(),
    };
    first + second + third
}

/// How many of the first `n` candidates a budget takes, and what they cost. The
/// first is always taken; the first later one that goes over the budget ends the
/// pack.
pub open spec fn packed(cands: Seq<protocol::SliceModel>, budget: int, n: int) -> (int, nat)
    decreases n,
{
    if n <= 0 {
        (0, 0)
    } else {
        let (count, total) = packed(cands, budget, n - 1);
        if count < n - 1 {
            (count, total)
        } else if n == 1 || total + cands[n - 1].tokens <= budget {
            (n, total + cands[n - 1].tokens)
        } else {
            (count, total)
        }
    }
}

/// The pack that is made of the given candidates.
pub open spec fn pack_of(
    anchor: Option<Range>,
    cands: Seq<protocol::SliceModel>,
    budget: int,
) -> protocol::PackModel {
    let (count, total) = packed(cands, budget, cands.len() as int);
    protocol::PackModel {
        anchor,
        slices: cands.take(count),
        tokens: total,
        truncated: count < cands.len(),
    }
}

/// The range of the enclosing function.
pub open spec fn anchor_range(s: Seq<char>, anchor: Option<syntax::MatchModel>) -> Option<Range> {
    match anchor {
        Some(a) => Some(protocol::range_of(s, a.start, a.end)),
        None => None,
    }
}

fn find_anchor(found: &Vec<AstMatch>, point: usize) -> (r: Option<usize>)
    ensures
        match r {
            Some(i) => i < found@.len() && innermost(
                syntax::match_views(found@),
                point as int,
                found@.len() as int,
            ) == Some(found@[i as int]@),
            None => innermost(
                syntax::match_views(found@),
                point as int,
                found@.len() as int,
            ) is None,
        },
{
    let ghost ms = syntax::match_views(found@);
    let mut best: Option<usize> = None;
    let mut i: usize = 0;
    while i < found.len()
        invariant
            ms == syntax::match_views(found@),
            i <= found@.len(),
            match best {
                Some(b) => b < found@.len() && innermost(ms, point as int, i as int) == Some(
                    found@[b as int]@,
                ) && found@[b as int].byte_start <= found@[b as int].byte_end,
                None => innermost(ms, point as int, i as int) is None,
            },
        decreases found@.len() - i,
    {
        let m = &found[i];
        assert(ms[i as int] == m@);
        if same(&m.capture, "fn") && m.byte_start <= point && point < m.byte_end {
            match best {
                Some(b) => {
                    if m.byte_end - m.byte_start < found[b].byte_end - found[b].byte_start {
                        best = Some(i);
                    }
                },
                None => {
                    best = Some(i);
                },
            }
        }
        i += 1;
    }
    best
}

fn spans_contain(spans: &Vec<(usize, usize)>, start: usize, end: usize) -> (r: bool)
    ensures
        r == span_pairs(spans@).contains((start as int, end as int)),
{
    let mut i: usize = 0;
    while i < spans.len()
        invariant
            i <= spans@.len(),
            forall|j: int|
                0 <= j < i ==> #[trigger] span_pairs(spans@)[j] != (start as int, end as int),
        decreases spans@.len() - i,
    {
        assert(span_pairs(spans@)[i as int] == (spans@[i as int].0 as int, spans@[i as int].1
            as int));
        if spans[i].0 == start && spans[i].1 == end {
            return true;
        }
        i += 1;
    }
    false
}

pub open spec fn span_pairs(v: Seq<(usize, usize)>) -> Seq<(int, int)> {
    Seq::new(v.len(), |i: int| (v[i].0 as int, v[i].1 as int))
}

fn copy_path(path: &Option<String>) -> (r: Option<String>)
    ensures
        buffer::option_view(r) == buffer::option_view(*path),
{
    match path {
        Some(p) => Some(p.clone()),
        None => None,
    }
}

fn add_imports(
    rope: &Rope,
    path: &Option<String>,
    found: &Vec<AstMatch>,
    covered: &mut Vec<(usize, usize)>,
    cands: &mut Vec<ContextSlice>,
)
    requires
        syntax::within(syntax::match_views(found@), rope::rope_chars(*rope)),
    ensures
        span_pairs(final(covered)@) == span_pairs(old(covered)@) + import_spans(
            syntax::match_views(found@),
            found@.len() as int,
        ),
        protocol::slice_views(final(cands)@) == protocol::slice_views(old(cands)@) + span_slices(
            rope::rope_chars(*rope),
            buffer::option_view(*path),
            import_spans(syntax::match_views(found@), found@.len() as int),
            "import"@,
        ),
{
    let ghost s = rope::rope_chars(*rope);
    let ghost p = buffer::option_view(*path);
    let ghost ms = syntax::match_views(found@);
    let ghost c0 = span_pairs(covered@);
    let ghost v0 = protocol::slice_views(cands@);
    let mut i: usize = 0;
    assert(c0 + import_spans(ms, 0) =~= c0);
    assert(v0 + span_slices(s, p, import_spans(ms, 0), "import"@) =~= v0);
    while i < found.len()
        invariant
            c0 == span_pairs(old(covered)@),
            v0 == protocol::slice_views(old(cands)@),
            s == rope::rope_chars(*rope),
            p == buffer::option_view(*path),
            ms == syntax::match_views(found@),
            syntax::within(ms, s),
            i <= found@.len(),
            span_pairs(covered@) == c0 + import_spans(ms, i as int),
            protocol::slice_views(cands@) == v0 + span_slices(
                s,
                p,
                import_spans(ms, i as int),
                "import"@,
            ),
        decreases found@.len() - i,
    {
        let m = &found[i];
        assert(ms[i as int] == m@);
        if same(&m.capture, "import") {
            let ghost before = span_pairs(covered@);
            let ghost slices = protocol::slice_views(cands@);
            covered.push((m.byte_start, m.byte_end));
            assert(span_pairs(covered@) =~= before.push((m.byte_start as int, m.byte_end as int)));
            assert(span_pairs(covered@) =~= c0 + import_spans(ms, i + 1));
            let slice = make_context_slice(
                rope,
                copy_path(path),
                m.byte_start,
                m.byte_end,
                "import",
            );
            let ghost item = slice@;
            cands.push(slice);
            assert(protocol::slice_views(cands@) =~= slices.push(item));
            assert(slices.push(item) =~= v0 + span_slices(
                s,
                p,
                import_spans(ms, i + 1),
                "import"@,
            ));
        }
        i += 1;
    }
}

fn add_siblings(
    rope: &Rope,
    path: &Option<String>,
    found: &Vec<AstMatch>,
    anchor: Option<(usize, usize)>,
    covered: &Vec<(usize, usize)>,
    cands: &mut Vec<ContextSlice>,
    Ghost(anchor_match): Ghost<Option<syntax::MatchModel>>,
)
    requires
        syntax::within(syntax::match_views(found@), rope::rope_chars(*rope)),
        match anchor {
            Some((a, z)) => anchor_match is Some && anchor_match->Some_0.start == a
                && anchor_match->Some_0.end == z,
            None => anchor_match is None,
        },
    ensures
        protocol::slice_views(final(cands)@) == protocol::slice_views(old(cands)@)
            + sibling_slices(
            rope::rope_chars(*rope),
            buffer::option_view(*path),
            syntax::match_views(found@),
            anchor_match,
            span_pairs(covered@),
            found@.len() as int,
        ),
{
    let ghost s = rope::rope_chars(*rope);
    let ghost p = buffer::option_view(*path);
    let ghost ms = syntax::match_views(found@);
    let ghost cs = span_pairs(covered@);
    let ghost v0 = protocol::slice_views(cands@);
    let mut i: usize = 0;
    let mut count: usize = 0;
    assert(v0 + sibling_slices(s, p, ms, anchor_match, cs, 0) =~= v0);
    while i < found.len()
        invariant
            v0 == protocol::slice_views(old(cands)@),
            s == rope::rope_chars(*rope),
            p == buffer::option_view(*path),
            ms == syntax::match_views(found@),
            cs == span_pairs(covered@),
            syntax::within(ms, s),
            match anchor {
                Some((a, z)) => anchor_match is Some && anchor_match->Some_0.start == a
                    && anchor_match->Some_0.end == z,
                None => anchor_match is None,
            },
            i <= found@.len(),
            count == sibling_slices(s, p, ms, anchor_match, cs, i as int).len(),
            count <= CONTEXT_MAX_SIBLINGS,
            protocol::slice_views(cands@) == v0 + sibling_slices(
                s,
                p,
                ms,
                anchor_match,
                cs,
                i as int,
            ),
        decreases found@.len() - i,
    {
        let m = &found[i];
        assert(ms[i as int] == m@);
        let in_anchor: bool = match anchor {
            Some((a, z)) => m.byte_start >= a && m.byte_end <= z,
            None => false,
        };
        if count < CONTEXT_MAX_SIBLINGS && same(&m.capture, "item") && !text_contains(
            &m.kind,
            "comment",
        ) && !spans_contain(covered, m.byte_start, m.byte_end) && !in_anchor {
            let ghost slices = protocol::slice_views(cands@);
            let end: usize = first_line_end_byte(rope, m.byte_start, m.byte_end);
            let slice = make_context_slice(
                rope,
                copy_path(path),
                m.byte_start,
                end,
                "sibling signature",
            );
            let ghost item = slice@;
            cands.push(slice);
            count += 1;
            assert(protocol::slice_views(cands@) =~= slices.push(item));
            assert(slices.push(item) =~= v0 + sibling_slices(
                s,
                p,
                ms,
                anchor_match,
                cs,
                i + 1,
            ));
        }
        i += 1;
    }
}

proof fn lemma_packed(cands: Seq<protocol::SliceModel>, budget: int, n: int)
    requires
        0 <= n,
    ensures
        0 <= packed(cands, budget, n).0 <= n,
        n >= 1 ==> packed(cands, budget, n).0 >= 1,
    decreases n,
{
    if n > 0 {
        lemma_packed(cands, budget, n - 1);
    }
}

proof fn lemma_pack_ended(cands: Seq<protocol::SliceModel>, budget: int, n: int, m: int)
    requires
        0 <= n <= m,
        packed(cands, budget, n).0 < n,
    ensures
        packed(cands, budget, m) == packed(cands, budget, n),
    decreases m - n,
{
    if n < m {
        lemma_pack_ended(cands, budget, n, m - 1);
    }
}

/// Takes candidates in order until one goes over the budget.
fn pack_candidates(anchor: Option<Range>, cands: Vec<ContextSlice>, budget: usize) -> (r:
    PackedContext)
    ensures
        r@ == pack_of(anchor, protocol::slice_views(cands@), budget as int),
{
    let ghost vs = protocol::slice_views(cands@);
    let mut rest = cands;
    let mut slices: Vec<ContextSlice> = Vec::new();
    let mut total: usize = 0;
    let mut n: usize = 0;
    let count: usize = rest.len();
    assert(rest@ =~= cands@.skip(0));
    assert(protocol::slice_views(slices@) =~= vs.take(0));
    while n < count
        invariant
            vs == protocol::slice_views(cands@),
            count == cands@.len() == vs.len(),
            n <= count,
            rest@ == cands@.skip(n as int),
            protocol::slice_views(slices@) == vs.take(n as int),
            packed(vs, budget as int, n as int) == (n as int, total as nat),
        decreases count - n,
    {
        let cand = rest.remove(0);
        assert(cand == cands@[n as int]);
        assert(vs[n as int] == cand@);
        let tokens: usize = cand.estimated_tokens;
        if n == 0 || (tokens <= budget && total <= budget - tokens) {
            total = if n == 0 {
                tokens
            } else {
                total + tokens
            };
            let ghost before = protocol::slice_views(slices@);
            slices.push(cand);
            assert(protocol::slice_views(slices@) =~= before.push(vs[n as int]));
            assert(vs.take(n + 1) =~= before.push(vs[n as int]));
            assert(rest@ =~= cands@.skip(n + 1));
            n += 1;
        } else {
            proof {
                assert(packed(vs, budget as int, n + 1) == (n as int, total as nat));
                lemma_pack_ended(vs, budget as int, n + 1, count as int);
            }
            return PackedContext { anchor, slices, estimated_tokens: total, truncated: true };
        }
    }
    assert(vs.take(n as int) =~= vs);
    PackedContext { anchor, slices, estimated_tokens: total, truncated: false }
}

/// Packs context around the byte `point` of the text in `rope`, given what the
/// queries for functions, imports and top-level items found in it.
pub fn pack_context(
    rope: &Rope,
    path: Option<String>,
    point: usize,
    fns: &Option<Vec<AstMatch>>,
    imports: &Option<Vec<AstMatch>>,
    items: &Option<Vec<AstMatch>>,
    budget: usize,
) -> (r: PackedContext)
    requires
        found_within(*fns, rope::rope_chars(*rope)),
        found_within(*imports, rope::rope_chars(*rope)),
        found_within(*items, rope::rope_chars(*rope)),
    ensures
        r@ == pack_of(
            anchor_range(rope::rope_chars(*rope), anchor_of(found_views(*fns), point as int)),
            candidates(
                rope::rope_chars(*rope),
                buffer::option_view(path),
                point as int,
                found_views(*fns),
                found_views(*imports),
                found_views(*items),
            ),
            budget as int,
        ),
{
    let ghost s = rope::rope_chars(*rope);
    let ghost p = buffer::option_view(path);
    let ghost anchor = anchor_of(found_views(*fns), point as int);
    let mut cands: Vec<ContextSlice> = Vec::new();
    let mut covered: Vec<(usize, usize)> = Vec::new();
    let mut span: Option<(usize, usize)> = None;
    let mut range: Option<Range> = None;
    if let Some(found) = fns {
        if let Some(i) = find_anchor(found, point) {
            let m = &found[i];
            assert(syntax::match_views(found@)[i as int] == m@);
            span = Some((m.byte_start, m.byte_end));
            range = Some(byte_span_to_range(rope, m.byte_start, m.byte_end));
            covered.push((m.byte_start, m.byte_end));
            cands.push(
                make_context_slice(
                    rope,
                    copy_path(&path),
                    m.byte_start,
                    m.byte_end,
                    "anchor: enclosing function",
                ),
            );
        }
    }
    let ghost first = match anchor {
        Some(a) => seq![
            protocol::slice_of(s, p, a.start, a.end, "anchor: enclosing function"@),
        ],
        None => Seq::empty(),
    };
    let ghost taken = match anchor {
        Some(a) => seq![(a.start, a.end)],
        None => Seq::empty(),
    };
    assert(protocol::slice_views(cands@) =~= first);
    assert(span_pairs(covered@) =~= taken);
    if let Some(found) = imports {
        add_imports(rope, &path, found, &mut covered, &mut cands);
    }
    let ghost second = match found_views(*imports) {
        Some(ms) => span_slices(s, p, import_spans(ms, ms.len() as int), "import"@),
        None => Seq::empty(),
    };
    assert(protocol::slice_views(cands@) =~= first + second);
    assert(span_pairs(covered@) =~= covered_spans(anchor, found_views(*imports)));
    if let Some(found) = items {
        add_siblings(rope, &path, found, span, &covered, &mut cands, Ghost(anchor));
    }
    assert(protocol::slice_views(cands@) =~= candidates(
        s,
        p,
        point as int,
        found_views(*fns),
        found_views(*imports),
        found_views(*items),
    ));
    pack_candidates(range, cands, budget)
}

pub open spec fn found_views(found: Option<Vec<AstMatch>>) -> Option<Seq<syntax::MatchModel>> {
    match found {
        Some(v) => Some(syntax::match_views(v@)),
        None => None,
    }
}

pub open spec fn found_within(found: Option<Vec<AstMatch>>, s: Seq<char>) -> bool {
    found matches Some(v) ==> syntax::within(syntax::match_views(v@), s)
}

/// What an optional query of an entry's syntax finds in its text.
pub open spec fn optional_matches(e: runtime::EntryModel, query: Option<Seq<char>>) -> Result<
    Option<Seq<syntax::MatchModel>>,
    EditorError,
> {
    match query {
        None => Ok(None),
        Some(q) => match syntax::query_result(e.syntax->Some_0, q) {
            Ok(ms) => Ok(Some(syntax::fitted(ms, e.buffer.text))),
            Err(e) => Err(e),
        },
    }
}

/// Why no context can be packed around a point of a buffer.
pub open spec fn pack_refusal(
    m: runtime::CoreModel,
    id: u64,
    line: u32,
    character: u32,
) -> Option<EditorError> {
    match runtime::place_of(m.entries, id) {
        None => Some(EditorError::UnknownBuffer { id }),
        Some(k) => {
            let e = m.entries[k];
            let s = e.buffer.text;
            match e.language {
                None => Some(EditorError::NoLanguageForContext),
                Some(l) => if e.syntax is None {
                    Some(EditorError::NoSyntax)
                } else {
                    match protocol::lsp_position(s, line as int, character as int) {
                        Err(err) => Some(err),
                        Ok(_) => match optional_matches(e, language::function_query_text(l)) {
                            Err(err) => Some(err),
                            Ok(_) => match optional_matches(
                                e,
                                language::import_query_text(l),
                            ) {
                                Err(err) => Some(err),
                                Ok(_) => match optional_matches(
                                    e,
                                    language::module_items_query_text(l),
                                ) {
                                    Err(err) => Some(err),
                                    Ok(_) => None,
                                },
                            },
                        },
                    }
                },
            }
        },
    }
}

/// The pack around a point of an entry whose language is `l`.
pub open spec fn pack_around(
    e: runtime::EntryModel,
    l: Language,
    line: u32,
    character: u32,
    budget: int,
) -> protocol::PackModel {
    let s = e.buffer.text;
    let point = rope::byte_of(
        s,
        protocol::lsp_position(s, line as int, character as int)->Ok_0,
    ) as int;
    let fns = optional_matches(e, language::function_query_text(l))->Ok_0;
    let imports = optional_matches(e, language::import_query_text(l))->Ok_0;
    let items = optional_matches(e, language::module_items_query_text(l))->Ok_0;
    pack_of(
        anchor_range(s, anchor_of(fns, point)),
        candidates(s, e.buffer.path, point, fns, imports, items),
        budget,
    )
}

impl EditorCore {
    fn run_query(&self, k: usize, query: Option<&'static str>) -> (r: Result<
        Option<Vec<AstMatch>>,
        EditorError,
    >)
        requires
            runtime::well_formed(self@),
            k < self@.entries.len(),
            self@.entries[k as int].syntax is Some,
        ensures
            match r {
                Ok(found) => {
                    &&& optional_matches(
                        self@.entries[k as int],
                        match query {
                            Some(q) => Some(q@),
                            None => None,
                        },
                    ) == Ok::<Option<Seq<syntax::MatchModel>>, EditorError>(found_views(found))
                    &&& found_within(found, self@.entries[k as int].buffer.text)
                },
                Err(e) => optional_matches(
                    self@.entries[k as int],
                    match query {
                        Some(q) => Some(q@),
                        None => None,
                    },
                ) == Err::<Option<Seq<syntax::MatchModel>>, _>(e),
            },
    {
        assert(self@.entries[k as int] == self.buffers@[k as int]@);
        assert(runtime::entry_ok(self@.entries[k as int]));
        match query {
            None => Ok(None),
            Some(q) => match &self.buffers[k].syntax {
                Some(syn) => match syn.query(q) {
                    Ok(found) => Ok(
                        Some(fit_found(found, self.buffers[k].buffer.rope(), Ghost(syn@))),
                    ),
                    Err(e) => Err(e),
                },
                None => Err(EditorError::NoSyntax),
            },
        }
    }

    /// Packs source context around a point into a budget of estimated tokens:
    /// the enclosing function first, then the imports, then the signatures of
    /// the other top-level items.
    pub fn context_pack(
        &self,
        buffer_id: u64,
        line: u32,
        character: u32,
        token_budget: usize,
    ) -> (r: Result<PackedContext, EditorError>)
        requires
            runtime::well_formed(self@),
        ensures
            match pack_refusal(self@, buffer_id, line, character) {
                Some(e) => r == Err::<PackedContext, _>(e),
                None => {
                    let e = self@.entries[runtime::place_of(self@.entries, buffer_id)->Some_0];
                    &&& r is Ok
                    &&& r->Ok_0@ == pack_around(
                        e,
                        e.language->Some_0,
                        line,
                        character,
                        token_budget as int,
                    )
                },
            },
    {
        let k: usize = match self.find(buffer_id) {
            Some(k) => k,
            None => {
                return Err(EditorError::UnknownBuffer { id: buffer_id });
            },
        };
        assert(self@.entries[k as int] == self.buffers@[k as int]@);
        let language = match self.buffers[k].language {
            Some(l) => l,
            None => {
                return Err(EditorError::NoLanguageForContext);
            },
        };
        if self.buffers[k].syntax.is_none() {
            return Err(EditorError::NoSyntax);
        }
        let buf = &self.buffers[k].buffer;
        let point_char: usize = match lsp_pos_to_char(buf, line, character) {
            Ok(p) => p,
            Err(e) => {
                return Err(e);
            },
        };
        let fns = match self.run_query(k, language.function_query()) {
            Ok(found) => found,
            Err(e) => {
                return Err(e);
            },
        };
        let imports = match self.run_query(k, language.import_query()) {
            Ok(found) => found,
            Err(e) => {
                return Err(e);
            },
        };
        let items = match self.run_query(k, language.module_items_query()) {
            Ok(found) => found,
            Err(e) => {
                return Err(e);
            },
        };
        let path = match buf.path() {
            Some(p) => Some(p.to_string()),
            None => None,
        };
        let point: usize = buf.rope().char_to_byte(point_char);
        Ok(pack_context(buf.rope(), path, point, &fns, &imports, &items, token_budget))
    }
}

/// A pack never drops its first candidate, says so when it drops others, and
/// otherwise stays within the budget.
pub proof fn law_packing(cands: Seq<protocol::SliceModel>, budget: int)
    ensures
        ({
            let (count, total) = packed(cands, budget, cands.len() as int);
            &&& 0 <= count <= cands.len()
            &&& cands.len() > 0 ==> count >= 1
            &&& count > 1 ==> total <= budget
            &&& total == token_sum(cands.take(count))
            &&& count < cands.len() ==> total + cands[count].tokens > budget
        }),
{
    let n = cands.len() as int;
    lemma_packed(cands, budget, n);
    lemma_packed_sum(cands, budget, n);
}

/// What `p`, the pack with a budget, has to do with `all`, the one with the largest
/// budget: its slices are the first ones of `all`, and at least one of them where
/// there is one. Two or more stay within the budget, and the next one would not have.
/// It says that it is truncated exactly when it has fewer slices; only where `all`
/// itself leaves something out, as the candidates are more tokens than a machine
/// number, does it say so in any case.
pub open spec fn tells_truncation(
    p: protocol::PackModel,
    all: protocol::PackModel,
    budget: int,
) -> bool {
    let n = p.slices.len() as int;
    &&& p.anchor == all.anchor
    &&& n <= all.slices.len()
    &&& p.slices == all.slices.take(n)
    &&& all.slices.len() > 0 ==> n > 0
    &&& p.tokens == token_sum(p.slices)
    &&& n >= 2 ==> p.tokens <= budget
    &&& p.truncated <==> n < all.slices.len() || all.truncated
    &&& n < all.slices.len() ==> p.tokens + all.slices[n].tokens > budget
}

/// A pack tells when it is truncated. The one with the largest budget is not, and
/// has all the candidates, as long as they are a machine number of tokens together.
pub proof fn law_truncation_is_told(
    anchor: Option<Range>,
    cands: Seq<protocol::SliceModel>,
    budget: usize,
)
    ensures
        ({
            let p = pack_of(anchor, cands, budget as int);
            let all = pack_of(anchor, cands, usize::MAX as int);
            &&& tells_truncation(p, all, budget as int)
            &&& token_sum(cands) <= usize::MAX ==> !all.truncated && all.slices == cands
        }),
{
    let n = cands.len() as int;
    law_packing(cands, budget as int);
    law_packing(cands, usize::MAX as int);
    lemma_packed_more(cands, budget as int, usize::MAX as int, n);
    let (few, _) = packed(cands, budget as int, n);
    let (most, _) = packed(cands, usize::MAX as int, n);
    assert(cands.take(most).take(few) =~= cands.take(few));
    if token_sum(cands) <= usize::MAX {
        lemma_packed_whole(cands, usize::MAX as int, n);
        assert(cands.take(n) =~= cands);
    }
}

/// A pack around a point tells when it is truncated.
pub proof fn law_context_packs_tell_truncation(
    e: runtime::EntryModel,
    l: Language,
    line: u32,
    character: u32,
    budget: usize,
)
    ensures
        tells_truncation(
            pack_around(e, l, line, character, budget as int),
            pack_around(e, l, line, character, usize::MAX as int),
            budget as int,
        ),
{
    let s = e.buffer.text;
    let point = rope::byte_of(
        s,
        protocol::lsp_position(s, line as int, character as int)->Ok_0,
    ) as int;
    let fns = optional_matches(e, language::function_query_text(l))->Ok_0;
    let imports = optional_matches(e, language::import_query_text(l))->Ok_0;
    let items = optional_matches(e, language::module_items_query_text(l))->Ok_0;
    law_truncation_is_told(
        anchor_range(s, anchor_of(fns, point)),
        candidates(s, e.buffer.path, point, fns, imports, items),
        budget,
    );
}

/// A larger budget takes no fewer candidates.
proof fn lemma_packed_more(cands: Seq<protocol::SliceModel>, less: int, more: int, n: int)
    requires
        0 <= n <= cands.len(),
        less <= more,
    ensures
        packed(cands, less, n).0 <= packed(cands, more, n).0,
    decreases n,
{
    if n > 0 {
        lemma_packed_more(cands, less, more, n - 1);
        lemma_packed_sum(cands, less, n - 1);
        lemma_packed_sum(cands, more, n - 1);
    }
}

/// A budget that covers all the candidates takes them all.
proof fn lemma_packed_whole(cands: Seq<protocol::SliceModel>, budget: int, n: int)
    requires
        0 <= n <= cands.len(),
        token_sum(cands) <= budget,
    ensures
        packed(cands, budget, n) == (n, token_sum(cands.take(n))),
    decreases n,
{
    if n > 0 {
        lemma_packed_whole(cands, budget, n - 1);
        assert(cands.take(n).drop_last() =~= cands.take(n - 1));
        lemma_token_sum_grows(cands, n);
    }
}

proof fn lemma_token_sum_grows(cands: Seq<protocol::SliceModel>, n: int)
    requires
        0 <= n <= cands.len(),
    ensures
        token_sum(cands.take(n)) <= token_sum(cands),
    decreases cands.len() - n,
{
    if n < cands.len() {
        lemma_token_sum_grows(cands, n + 1);
        assert(cands.take(n + 1).drop_last() =~= cands.take(n));
    } else {
        assert(cands.take(n) =~= cands);
    }
}

/// The tokens of slices together.
pub open spec fn token_sum(slices: Seq<protocol::SliceModel>) -> nat
    decreases slices.len(),
{
    if slices.len() == 0 {
        0
    } else {
        token_sum(slices.drop_last()) + slices.last().tokens
    }
}

proof fn lemma_packed_sum(cands: Seq<protocol::SliceModel>, budget: int, n: int)
    requires
        0 <= n <= cands.len(),
    ensures
        ({
            let (count, total) = packed(cands, budget, n);
            &&& 0 <= count <= n
            &&& total == token_sum(cands.take(count))
            &&& count > 1 ==> total <= budget
            &&& count < n ==> total + cands[count].tokens > budget
        }),
    decreases n,
{
    if n > 0 {
        lemma_packed(cands, budget, n - 1);
        lemma_packed_sum(cands, budget, n - 1);
        let (count, total) = packed(cands, budget, n - 1);
        if count >= n - 1 {
            assert(cands.take(n).drop_last() =~= cands.take(n - 1));
        }
    }
}

} // verus!
