//! What positions, scopes and inline tasks are, seen from the text that they are about.

use vstd::prelude::*;

use crate::error::EditorError;
use crate::lsp::{DocumentSymbol, Range};
use crate::order;
use crate::order::Ranked as _;
use crate::protocol;
use crate::protocol::{InlineTask, TaskModel};
use crate::rope;
use crate::scan;
use crate::search::found;
use crate::text;

verus! {

// ------------------------------------------------------------------- positions

/// A line and a character lead to the place that many characters behind the start of the
/// line. A line that is not there is refused, and so is a character past the end of its line.
pub proof fn law_positions(s: Seq<char>, line: int, character: int)
    requires
        0 <= line,
        0 <= character,
    ensures
        ({
            let r = protocol::lsp_position(s, line, character);
            let at = rope::line_start(s, line) + character;
            &&& line >= rope::line_count(s) ==> r is Err && r->Err_0 is LineOutOfBounds
            &&& line < rope::line_count(s) && at > rope::line_end(s, line) ==> r is Err
                && r->Err_0 is CharacterPastEnd
            &&& line < rope::line_count(s) && at <= rope::line_end(s, line) ==> r == Ok::<
                int,
                EditorError,
            >(at)
        }),
{
    rope::lemma_line_end(s, line);
}

// ---------------------------------------------------------------------- scopes

/// A line and a character lie within a range, its two ends included.
pub open spec fn lies_in(range: Range, line: int, character: int) -> bool {
    let (a, z) = (range.start, range.end);
    &&& a.line < line || (a.line == line && a.character <= character)
    &&& line < z.line || (line == z.line && character <= z.character)
}

proof fn lemma_covering(level: Seq<DocumentSymbol>, line: int, character: int)
    ensures
        match protocol::covering(level, line, character) {
            Some(k) => {
                &&& 0 <= k < level.len()
                &&& lies_in(level[k].range, line, character)
                &&& forall|j: int|
                    k < j < level.len() ==> !lies_in((#[trigger] level[j]).range, line, character)
            },
            None => forall|j: int|
                0 <= j < level.len() ==> !lies_in((#[trigger] level[j]).range, line, character),
        },
    decreases level.len(),
{
    if level.len() > 0 {
        lemma_covering(level.drop_last(), line, character);
        let last = level[level.len() - 1];
        if !protocol::covers(last.range, line, character) {
            let rest = level.drop_last();
            match protocol::covering(rest, line, character) {
                Some(k) => {
                    assert forall|j: int| k < j < level.len() implies !lies_in(
                        (#[trigger] level[j]).range,
                        line,
                        character,
                    ) by {
                        if j < rest.len() {
                            assert(rest[j] == level[j]);
                        }
                    }
                },
                None => {
                    assert forall|j: int| 0 <= j < level.len() implies !lies_in(
                        (#[trigger] level[j]).range,
                        line,
                        character,
                    ) by {
                        if j < rest.len() {
                            assert(rest[j] == level[j]);
                        }
                    }
                },
            }
        }
    }
}

/// What encloses a point is listed from the outside in: a symbol that the point lies in, the
/// last one of its level, and then what encloses the point among its children.
pub proof fn law_enclosing_symbols(level: Seq<DocumentSymbol>, line: int, character: int)
    ensures
        ({
            let r = protocol::enclosing_of(level, line, character);
            &&& r.len() == 0 <==> forall|j: int|
                0 <= j < level.len() ==> !lies_in((#[trigger] level[j]).range, line, character)
            &&& r.len() > 0 ==> exists|k: int|
                {
                    &&& 0 <= k < level.len()
                    &&& lies_in((#[trigger] level[k]).range, line, character)
                    &&& forall|j: int|
                        k < j < level.len() ==> !lies_in(
                            (#[trigger] level[j]).range,
                            line,
                            character,
                        )
                    &&& r[0].name == level[k].name@
                    &&& r[0].kind == level[k].kind
                    &&& r[0].range == level[k].range
                    &&& r.skip(1) == protocol::enclosing_of(level[k].children@, line, character)
                }
        }),
{
    lemma_covering(level, line, character);
    let r = protocol::enclosing_of(level, line, character);
    if let Some(k) = protocol::covering(level, line, character) {
        assert(r.skip(1) =~= protocol::enclosing_of(level[k].children@, line, character));
        assert(lies_in(level[k].range, line, character));
    }
}

/// The siblings at a point are the symbols of the level that the point does not lie in, in
/// their order.
pub proof fn law_sibling_symbols(
    level: Seq<DocumentSymbol>,
    s: DocumentSymbol,
    line: int,
    character: int,
)
    ensures
        ({
            let before = protocol::siblings_of(level, line, character);
            let after = protocol::siblings_of(level.push(s), line, character);
            &&& lies_in(s.range, line, character) ==> after == before
            &&& !lies_in(s.range, line, character) ==> {
                &&& after.len() == before.len() + 1
                &&& after.drop_last() == before
                &&& after.last().name == s.name@
                &&& after.last().kind == s.kind
                &&& after.last().range == s.range
            }
        }),
        protocol::siblings_of(Seq::empty(), line, character).len() == 0,
{
    assert(level.push(s).drop_last() =~= level);
    let before = protocol::siblings_of(level, line, character);
    let after = protocol::siblings_of(level.push(s), line, character);
    if !lies_in(s.range, line, character) {
        assert(after.drop_last() =~= before);
    }
}

// ----------------------------------------------------------------------- tasks

proof fn lemma_lower_join(a: Seq<char>, b: Seq<char>)
    ensures
        text::ascii_lower_all(a + b) == text::ascii_lower_all(a) + text::ascii_lower_all(b),
{
    assert(text::ascii_lower_all(a + b) =~= text::ascii_lower_all(a) + text::ascii_lower_all(b));
}

proof fn lemma_marks(who: Seq<char>)
    ensures
        text::ascii_lower_all("todo("@ + who + ")"@) == "todo("@ + text::ascii_lower_all(who)
            + ")"@,
        text::ascii_lower_all(who + ":"@) == text::ascii_lower_all(who) + ":"@,
{
    reveal_strlit("todo(");
    reveal_strlit(")");
    reveal_strlit(":");
    lemma_lower_join("todo("@ + who, ")"@);
    lemma_lower_join("todo("@, who);
    lemma_lower_join(who, ":"@);
    assert(text::ascii_lower_all("todo("@) =~= "todo("@);
    assert(text::ascii_lower_all(")"@) =~= ")"@);
    assert(text::ascii_lower_all(":"@) =~= ":"@);
}

/// The first place where a mark stands in a line, whatever the case of its letters.
pub open spec fn first_at(line: Seq<char>, mark: Seq<char>, p: int) -> bool {
    found::stands_at(line, mark, p) && forall|q: int|
        0 <= q < p ==> !#[trigger] found::stands_at(line, mark, q)
}

proof fn lemma_mark(line: Seq<char>, mark: Seq<char>)
    ensures
        match scan::find(text::ascii_lower_all(line), text::ascii_lower_all(mark)) {
            Some(i) => first_at(line, mark, i),
            None => forall|p: int| !#[trigger] found::stands_at(line, mark, p),
        },
{
    found::law_finding_ignores_case(line, mark);
}

/// `body` is a text without whitespace at either end, and without the colons and the
/// whitespace that it starts with.
pub open spec fn told_after(rest: Seq<char>, body: Seq<char>) -> bool {
    exists|n: int|
        {
            &&& 0 <= n <= rest.len()
            &&& forall|j: int| 0 <= j < n ==> rest[j] == ':' || text::whitespace(#[trigger] rest[j])
            &&& n < rest.len() ==> rest[n] != ':' && !text::whitespace(rest[n])
            &&& body == scan::trim(#[trigger] rest.skip(n))
        }
}

proof fn lemma_colons(rest: Seq<char>) -> (n: int)
    ensures
        0 <= n <= rest.len(),
        forall|j: int| 0 <= j < n ==> rest[j] == ':' || text::whitespace(#[trigger] rest[j]),
        n < rest.len() ==> rest[n] != ':' && !text::whitespace(rest[n]),
        protocol::skip_colons(rest) == rest.skip(n),
    decreases rest.len(),
{
    if rest.len() > 0 && (rest[0] == ':' || text::whitespace(rest[0])) {
        let m = lemma_colons(rest.skip(1));
        assert(rest.skip(1).skip(m) =~= rest.skip(m + 1));
        assert forall|j: int| 0 <= j < m + 1 implies rest[j] == ':' || text::whitespace(
            #[trigger] rest[j],
        ) by {
            if j > 0 {
                assert(rest.skip(1)[j - 1] == rest[j]);
            }
        }
        if m + 1 < rest.len() {
            assert(rest.skip(1)[m] == rest[m + 1]);
        }
        m + 1
    } else {
        assert(rest.skip(0) =~= rest);
        0
    }
}

/// A line holds a task for somebody where `todo(` with their name and a closing bracket
/// stands in it, or else their name with a colon, whatever the case of the letters. The task
/// is what follows the first such mark; a line without a mark holds none.
pub proof fn law_tasks_on_a_line(who: Seq<char>, line: Seq<char>)
    ensures
        ({
            let todo = "todo("@ + who + ")"@;
            let bare = who + ":"@;
            match protocol::task_of(who, line) {
                None => forall|p: int|
                    !#[trigger] found::stands_at(line, todo, p) && !found::stands_at(line, bare, p),
                Some((kind, body)) => {
                    ||| kind == "todo"@ && exists|p: int|
                        #[trigger] first_at(line, todo, p) && told_after(
                            line.skip(p + todo.len()),
                            body,
                        )
                    ||| kind == text::ascii_lower_all(who) && (forall|p: int|
                        !#[trigger] found::stands_at(line, todo, p)) && exists|p: int|
                        #[trigger] first_at(line, bare, p) && body == scan::trim(
                            line.skip(p + bare.len()),
                        )
                },
            }
        }),
{
    let todo = "todo("@ + who + ")"@;
    let bare = who + ":"@;
    lemma_marks(who);
    lemma_mark(line, todo);
    lemma_mark(line, bare);
    let low = text::ascii_lower_all(line);
    let (t, b) = (text::ascii_lower_all(todo), text::ascii_lower_all(bare));
    assert(t.len() == todo.len());
    assert(b.len() == bare.len());
    match scan::find(low, t) {
        Some(i) => {
            let rest = line.skip(i + todo.len());
            let n = lemma_colons(rest);
            assert(rest.skip(n) == rest.skip(n));
            assert(told_after(rest, scan::trim(protocol::skip_colons(rest))));
            assert(first_at(line, todo, i));
        },
        None => {
            if let Some(i) = scan::find(low, b) {
                assert(first_at(line, bare, i));
            } else {
                assert forall|p: int|
                    !#[trigger] found::stands_at(line, todo, p) && !found::stands_at(line, bare, p) by {}
            }
        },
    }
}

proof fn lemma_tasks(who: Seq<char>, path: Seq<char>, ls: Seq<Seq<char>>, n: int)
    requires
        0 <= n <= ls.len(),
    ensures
        ({
            let r = protocol::tasks_on(who, path, ls, n);
            &&& forall|i: int|
                0 <= i < r.len() ==> 0 <= (#[trigger] r[i]).line < n && r[i].path == path
                    && protocol::task_of(who, ls[r[i].line]) == Some((r[i].kind, r[i].text))
            &&& forall|i: int, j: int|
                0 <= i < j < r.len() ==> (#[trigger] r[i]).line < (#[trigger] r[j]).line
            &&& forall|k: int|
                0 <= k < n && protocol::task_of(who, #[trigger] ls[k]) is Some ==> exists|i: int|
                    0 <= i < r.len() && (#[trigger] r[i]).line == k
        }),
    decreases n,
{
    if n > 0 {
        lemma_tasks(who, path, ls, n - 1);
        let q = protocol::tasks_on(who, path, ls, n - 1);
        let r = protocol::tasks_on(who, path, ls, n);
        assert forall|i: int| 0 <= i < r.len() implies 0 <= (#[trigger] r[i]).line < n && r[i].path
            == path && protocol::task_of(who, ls[r[i].line]) == Some((r[i].kind, r[i].text)) by {
            if i < q.len() {
                assert(r[i] == q[i]);
            }
        }
        assert forall|k: int|
            0 <= k < n && protocol::task_of(who, #[trigger] ls[k]) is Some implies exists|i: int|
            0 <= i < r.len() && (#[trigger] r[i]).line == k by {
            if k < n - 1 {
                let i = choose|i: int| 0 <= i < q.len() && (#[trigger] q[i]).line == k;
                assert(r[i] == q[i]);
            } else {
                assert(r[r.len() - 1].line == k);
            }
        }
    }
}

/// The tasks of a file: one for each line that holds one, in the order of the lines, under
/// the number of the line.
pub proof fn law_tasks_of_a_file(who: Seq<char>, path: Seq<char>, contents: Seq<char>)
    ensures
        ({
            let ls = scan::lines(contents);
            let r = protocol::file_tasks(who, path, contents);
            &&& forall|i: int|
                0 <= i < r.len() ==> 0 <= (#[trigger] r[i]).line < ls.len() && r[i].path == path
                    && protocol::task_of(who, ls[r[i].line]) == Some((r[i].kind, r[i].text))
            &&& forall|i: int, j: int|
                0 <= i < j < r.len() ==> (#[trigger] r[i]).line < (#[trigger] r[j]).line
            &&& forall|k: int|
                0 <= k < ls.len() && protocol::task_of(who, #[trigger] ls[k]) is Some ==> exists|
                    i: int,
                |
                    0 <= i < r.len() && (#[trigger] r[i]).line == k
        }),
{
    let ls = scan::lines(contents);
    lemma_tasks(who, path, ls, ls.len() as int);
}

/// The tasks of several files are those of each, one file after the other, and at most a
/// thousand of them are kept, the first ones.
pub proof fn law_tasks_of_files(who: Seq<char>, files: Seq<(String, String)>, n: int)
    requires
        0 < n <= files.len(),
    ensures
        protocol::all_tasks(who, files, n) == protocol::all_tasks(who, files, n - 1)
            + protocol::file_tasks(who, files[n - 1].0@, files[n - 1].1@),
        protocol::all_tasks(who, files, 0).len() == 0,
        ({
            let all = protocol::all_tasks(who, files, n);
            let few = protocol::kept(all);
            &&& few.len() <= 1000
            &&& all.len() <= 1000 ==> few == all
            &&& all.len() > 1000 ==> few == all.take(1000)
        }),
{
}

/// The tasks are given by path, and those of one file by line.
pub proof fn law_tasks_are_in_order(hits: Seq<InlineTask>)
    ensures
        ({
            let r = order::stable_sorted(hits);
            &&& r.to_multiset() == hits.to_multiset()
            &&& forall|i: int, j: int|
                0 <= i < j < r.len() ==> (if (#[trigger] r[i]).path@ == (#[trigger] r[j]).path@ {
                    r[i].line <= r[j].line
                } else {
                    order::text_le(r[i].path@, r[j].path@)
                })
        }),
{
    assert forall|a: InlineTask, b: InlineTask| #[trigger] a.rank_le(b) || b.rank_le(a) by {
        order::lemma_text_le_total(a.path@, b.path@);
    }
    assert forall|a: InlineTask, b: InlineTask, c: InlineTask|
        #![trigger a.rank_le(b), b.rank_le(c)]
        a.rank_le(b) && b.rank_le(c) implies a.rank_le(c) by {
        if a.path@ != b.path@ && b.path@ != c.path@ {
            order::lemma_text_le_transitive(a.path@, b.path@, c.path@);
            order::lemma_text_le_total(a.path@, b.path@);
        }
    }
    order::law_sorting(hits);
    let r = order::stable_sorted(hits);
    assert forall|i: int, j: int| 0 <= i < j < r.len() implies (if (#[trigger] r[i]).path@ == (
    #[trigger] r[j]).path@ {
        r[i].line <= r[j].line
    } else {
        order::text_le(r[i].path@, r[j].path@)
    }) by {
        assert(r[i].rank_le(r[j]));
    }
}

/// A scan for tasks passes over the names that a search passes over.
pub proof fn law_scans_pass_over_names(name: Seq<char>)
    ensures
        protocol::scan_skips(name) == found::passed_over(name),
{
}

} // verus!
