//! What a search finds, seen from the texts and the names that it goes through.

use vstd::prelude::*;

use crate::order;
use crate::paths;
use crate::scan;
use crate::scan::laws;
use crate::search;
use crate::search::HitModel;
use crate::text;
use crate::tree;

verus! {

/// Two characters that differ at most in the case of an ASCII letter.
pub open spec fn same_letter(c: char, d: char) -> bool {
    ||| c == d
    ||| 'A' <= c <= 'Z' && d as int == c as int + 32
    ||| 'A' <= d <= 'Z' && c as int == d as int + 32
}

/// `needle` stands in a line at place `p`, whatever the case of its letters.
pub open spec fn stands_at(line: Seq<char>, needle: Seq<char>, p: int) -> bool {
    &&& 0 <= p <= line.len() - needle.len()
    &&& forall|j: int|
        0 <= j < needle.len() ==> same_letter(#[trigger] line[p + j], needle[j])
}

/// A hit tells of a line: its number, where the needle first stands, and the line as it is
/// shown, without whitespace at either end and cut to two hundred characters.
pub open spec fn tells_of(
    h: HitModel,
    path: Seq<char>,
    ls: Seq<Seq<char>>,
    needle: Seq<char>,
) -> bool {
    &&& h.path == path
    &&& h.line < ls.len()
    &&& stands_at(ls[h.line as int], needle, h.col as int)
    &&& forall|p: int| 0 <= p < h.col ==> !stands_at(ls[h.line as int], needle, p)
    &&& ({
        let t = scan::trim(ls[h.line as int]);
        h.preview == (if t.len() > 200 {
            t.take(200)
        } else {
            t
        })
    })
}

proof fn lemma_lower(c: char, d: char)
    ensures
        (text::ascii_lower(c) == text::ascii_lower(d)) == same_letter(c, d),
{
}

proof fn lemma_occurs(line: Seq<char>, needle: Seq<char>, p: int)
    ensures
        scan::occurs_at(text::ascii_lower_all(line), text::ascii_lower_all(needle), p)
            == stands_at(line, needle, p),
{
    let (s, q) = (text::ascii_lower_all(line), text::ascii_lower_all(needle));
    if 0 <= p <= line.len() - needle.len() {
        let part = s.subrange(p, p + q.len());
        if stands_at(line, needle, p) {
            assert forall|j: int| 0 <= j < q.len() implies part[j] == q[j] by {
                lemma_lower(line[p + j], needle[j]);
                assert(same_letter(line[p + j], needle[j]));
            }
            assert(part =~= q);
        } else {
            let j = choose|j: int|
                0 <= j < needle.len() && !same_letter(#[trigger] line[p + j], needle[j]);
            lemma_lower(line[p + j], needle[j]);
            assert(part[j] == text::ascii_lower(line[p + j]));
            assert(q[j] == text::ascii_lower(needle[j]));
            assert(part != q);
        }
    }
}

/// The first place where a needle stands in a line.
proof fn lemma_folded(line: Seq<char>, needle: Seq<char>)
    ensures
        match search::find_folded(line, needle) {
            Some(k) => stands_at(line, needle, k) && forall|p: int|
                0 <= p < k ==> !stands_at(line, needle, p),
            None => forall|p: int| !stands_at(line, needle, p),
        },
{
    let (s, q) = (text::ascii_lower_all(line), text::ascii_lower_all(needle));
    scan::lemma_find_from(s, q, 0);
    match search::find_folded(line, needle) {
        Some(k) => {
            lemma_occurs(line, needle, k);
            assert forall|p: int| 0 <= p < k implies !stands_at(line, needle, p) by {
                lemma_occurs(line, needle, p);
            }
        },
        None => {
            assert forall|p: int| !stands_at(line, needle, p) by {
                lemma_occurs(line, needle, p);
            }
        },
    }
}

/// A needle is found where it first stands, whatever the case of its letters, and nowhere
/// exactly where it stands nowhere.
pub proof fn law_finding_ignores_case(line: Seq<char>, needle: Seq<char>)
    ensures
        match search::find_folded(line, needle) {
            Some(k) => stands_at(line, needle, k) && forall|p: int|
                0 <= p < k ==> !stands_at(line, needle, p),
            None => forall|p: int| !stands_at(line, needle, p),
        },
{
    lemma_folded(line, needle);
}

proof fn lemma_hits(
    before: Seq<HitModel>,
    path: Seq<char>,
    ls: Seq<Seq<char>>,
    needle: Seq<char>,
    n: int,
)
    requires
        0 <= n <= ls.len(),
        before.len() + n <= 500,
    ensures
        ({
            let r = search::hits_upto(before, path, ls, needle, n);
            &&& before.len() <= r.len() <= before.len() + n
            &&& r.take(before.len() as int) == before
            &&& forall|i: int|
                before.len() <= i < r.len() ==> tells_of(#[trigger] r[i], path, ls, needle)
                    && r[i].line < n
            &&& forall|i: int, j: int|
                before.len() <= i < j < r.len() ==> (#[trigger] r[i]).line < (#[trigger] r[j]).line
            &&& forall|k: int, p: int|
                0 <= k < n && #[trigger] stands_at(ls[k], needle, p) ==> exists|i: int|
                    before.len() <= i < r.len() && (#[trigger] r[i]).line == k
        }),
    decreases n,
{
    if n <= 0 {
        assert(before.take(before.len() as int) =~= before);
    } else {
        lemma_hits(before, path, ls, needle, n - 1);
        lemma_folded(ls[n - 1], needle);
        let q = search::hits_upto(before, path, ls, needle, n - 1);
        let r = search::hits_upto(before, path, ls, needle, n);
        assert(r.take(before.len() as int) =~= q.take(before.len() as int));
        assert forall|i: int| before.len() <= i < r.len() implies tells_of(
            #[trigger] r[i],
            path,
            ls,
            needle,
        ) && r[i].line < n by {
            if i < q.len() {
                assert(r[i] == q[i]);
            }
        }
        assert forall|k: int, p: int|
            0 <= k < n && #[trigger] stands_at(ls[k], needle, p) implies exists|i: int|
            before.len() <= i < r.len() && (#[trigger] r[i]).line == k by {
            if k < n - 1 {
                let i = choose|i: int| before.len() <= i < q.len() && (#[trigger] q[i]).line == k;
                assert(r[i] == q[i]);
            } else {
                assert(r[r.len() - 1].line == k);
            }
        }
    }
}

/// A search adds one hit for each line of a file that holds the needle, whatever the case of
/// its letters, in the order of the lines, as long as there are not too many; and none for
/// any other line.
pub proof fn law_hits_of_a_file(
    before: Seq<HitModel>,
    root: Seq<char>,
    needle: Seq<char>,
    path: Seq<char>,
    bytes: u64,
    contents: Seq<char>,
)
    requires
        needle.len() > 0,
        bytes <= 1_000_000,
        before.len() < 500,
        before.len() + scan::lines(contents).len() <= 500,
    ensures
        ({
            let ls = scan::lines(contents);
            let r = search::file_hits(before, root, needle, path, bytes, contents);
            &&& before.len() <= r.len()
            &&& r.take(before.len() as int) == before
            &&& forall|i: int|
                before.len() <= i < r.len() ==> tells_of(
                    #[trigger] r[i],
                    paths::relative_to(path, root),
                    ls,
                    needle,
                )
            &&& forall|i: int, j: int|
                before.len() <= i < j < r.len() ==> (#[trigger] r[i]).line < (#[trigger] r[j]).line
            &&& forall|k: int, p: int|
                0 <= k < ls.len() && #[trigger] stands_at(ls[k], needle, p) ==> exists|i: int|
                    before.len() <= i < r.len() && (#[trigger] r[i]).line == k
        }),
{
    let ls = scan::lines(contents);
    lemma_hits(before, paths::relative_to(path, root), ls, needle, ls.len() as int);
}

/// A file that is too large, or a search for nothing, adds no hit.
pub proof fn law_large_files_are_passed_over(
    before: Seq<HitModel>,
    root: Seq<char>,
    needle: Seq<char>,
    path: Seq<char>,
    bytes: u64,
    contents: Seq<char>,
)
    requires
        bytes > 1_000_000 || needle.len() == 0,
    ensures
        search::file_hits(before, root, needle, path, bytes, contents) == before,
{
}

/// What the query has to do with a file: where its text first stands in the path, in bytes,
/// whatever the case of the letters.
pub open spec fn matches_at(path: Seq<char>, query: Seq<char>, at: int) -> bool {
    let (low, q) = (text::unicode_lower(path), text::unicode_lower(query));
    exists|p: int|
        {
            &&& 0 <= p <= low.len() - q.len()
            &&& #[trigger] low.subrange(p, p + q.len()) == q
            &&& forall|j: int| 0 <= j < p ==> #[trigger] low.subrange(j, j + q.len()) != q
            &&& at == text::utf8_len(low.take(p))
        }
}

proof fn lemma_score(path: Seq<char>, query: Seq<char>)
    ensures
        match search::score(path, query) {
            Some(at) => matches_at(path, query, at),
            None => forall|at: int| !matches_at(path, query, at),
        },
        forall|at: int| matches_at(path, query, at) ==> search::score(path, query) == Some(at),
{
    let (low, q) = (text::unicode_lower(path), text::unicode_lower(query));
    laws::law_finding(low, q, 0);
    match scan::find_from(low, q, 0) {
        Some(k) => {
            assert(low.subrange(k, k + q.len()) == q);
            assert(matches_at(path, query, text::utf8_len(low.take(k)) as int));
            assert forall|at: int| matches_at(path, query, at) implies search::score(path, query)
                == Some(at) by {
                let p = choose|p: int|
                    {
                        &&& 0 <= p <= low.len() - q.len()
                        &&& #[trigger] low.subrange(p, p + q.len()) == q
                        &&& forall|j: int|
                            0 <= j < p ==> #[trigger] low.subrange(j, j + q.len()) != q
                        &&& at == text::utf8_len(low.take(p))
                    };
                if p < k {
                    assert(low.subrange(p, p + q.len()) != q);
                }
                if k < p {
                    assert(low.subrange(k, k + q.len()) != q);
                }
            }
        },
        None => {
            assert forall|at: int| !matches_at(path, query, at) by {
                if matches_at(path, query, at) {
                    let p = choose|p: int|
                        {
                            &&& 0 <= p <= low.len() - q.len()
                            &&& #[trigger] low.subrange(p, p + q.len()) == q
                            &&& forall|j: int|
                                0 <= j < p ==> #[trigger] low.subrange(j, j + q.len()) != q
                            &&& at == text::utf8_len(low.take(p))
                        };
                    assert(low.subrange(p, p + q.len()) != q);
                }
            }
        },
    }
}

proof fn lemma_scored(files: Seq<Seq<char>>, query: Seq<char>, n: int)
    requires
        0 <= n <= files.len(),
    ensures
        ({
            let s = search::scored(files, query, n);
            &&& forall|i: int|
                0 <= i < s.len() ==> 0 <= (#[trigger] s[i]).0 < n && search::score(
                    files[s[i].0],
                    query,
                ) == Some(s[i].1)
            &&& forall|i: int, j: int| 0 <= i < j < s.len() ==> (#[trigger] s[i]).0 < (
                #[trigger] s[j]).0
            &&& forall|k: int|
                0 <= k < n && search::score(#[trigger] files[k], query) is Some ==> s.contains(
                    (k, search::score(files[k], query)->Some_0),
                )
        }),
    decreases n,
{
    if n > 0 {
        lemma_scored(files, query, n - 1);
        let q = search::scored(files, query, n - 1);
        let s = search::scored(files, query, n);
        assert forall|i: int| 0 <= i < s.len() implies 0 <= (#[trigger] s[i]).0 < n
            && search::score(files[s[i].0], query) == Some(s[i].1) by {
            if i < q.len() {
                assert(s[i] == q[i]);
            }
        }
        assert forall|k: int|
            0 <= k < n && search::score(#[trigger] files[k], query) is Some implies s.contains(
            (k, search::score(files[k], query)->Some_0),
        ) by {
            let want = (k, search::score(files[k], query)->Some_0);
            if k < n - 1 {
                let i = choose|i: int| 0 <= i < q.len() && q[i] == want;
                assert(s[i] == want);
            } else {
                assert(s[s.len() - 1] == want);
            }
        }
    }
}

/// The files that match a query: without a query all of them, as they are listed; with one,
/// those whose path holds it, whatever the case of the letters, those where it stands further
/// to the front first, and of two where it stands equally far the one that is listed first.
pub proof fn law_matching_files(files: Seq<Seq<char>>, query: Seq<char>)
    ensures
        ({
            let r = search::matching(files, query);
            &&& query.len() == 0 ==> r == Seq::new(files.len(), |i: int| i)
            &&& query.len() > 0 ==> {
                &&& forall|i: int|
                    0 <= i < r.len() ==> 0 <= #[trigger] r[i] < files.len() && exists|at: int|
                        matches_at(files[r[i]], query, at)
                &&& forall|k: int, at: int|
                    0 <= k < files.len() && #[trigger] matches_at(files[k], query, at)
                        ==> r.contains(k)
                &&& forall|i: int, j: int, x: int, y: int|
                    0 <= i < j < r.len() && #[trigger] matches_at(files[r[i]], query, x)
                        && #[trigger] matches_at(files[r[j]], query, y) ==> x < y || (x == y
                        && r[i] < r[j])
            }
        }),
{
    if query.len() > 0 {
        let n = files.len() as int;
        let s = search::scored(files, query, n);
        lemma_scored(files, query, n);
        let le = |a: (int, int), b: (int, int)| a.1 <= b.1;
        let before = |a: (int, int), b: (int, int)| a.0 < b.0;
        assert forall|i: int, j: int| 0 <= i < j < s.len() implies before(
            #[trigger] s[i],
            #[trigger] s[j],
        ) by {}
        order::laws::law_sorting_is_stable(s, le, before);
        order::law_sorting_by(s, le);
        let t = order::sorted_by(s, le);
        let r = search::matching(files, query);
        assert(r == search::firsts(t));
        assert forall|i: int| 0 <= i < t.len() implies 0 <= (#[trigger] t[i]).0 < n
            && search::score(files[t[i].0], query) == Some(t[i].1) by {
            assert(s.contains(t[i]));
            let k = choose|k: int| 0 <= k < s.len() && s[k] == t[i];
            assert(0 <= s[k].0 < n);
        }
        assert forall|i: int| 0 <= i < r.len() implies 0 <= #[trigger] r[i] < files.len()
            && exists|at: int| matches_at(files[r[i]], query, at) by {
            assert(r[i] == t[i].0);
            lemma_score(files[r[i]], query);
            assert(matches_at(files[r[i]], query, t[i].1));
        }
        assert forall|k: int, at: int|
            0 <= k < files.len() && #[trigger] matches_at(files[k], query, at) implies r.contains(
            k,
        ) by {
            lemma_score(files[k], query);
            let want = (k, search::score(files[k], query)->Some_0);
            assert(s.contains(want));
            let i = choose|i: int| 0 <= i < s.len() && s[i] == want;
            assert(t.contains(s[i]));
            let j = choose|j: int| 0 <= j < t.len() && t[j] == want;
            assert(r[j] == k);
        }
        assert forall|i: int, j: int, x: int, y: int|
            0 <= i < j < r.len() && #[trigger] matches_at(files[r[i]], query, x)
                && #[trigger] matches_at(files[r[j]], query, y) implies x < y || (x == y && r[i]
            < r[j]) by {
            lemma_score(files[r[i]], query);
            lemma_score(files[r[j]], query);
            assert(r[i] == t[i].0 && r[j] == t[j].0);
            assert(t[i].1 == x && t[j].1 == y);
            assert(le(t[i], t[j]));
            if x == y {
                assert(le(t[j], t[i]));
                assert(before(t[i], t[j]));
            }
        }
    }
}

/// A name that a search does not go into: one that starts with a dot, or that of a directory
/// of what was built or fetched.
pub open spec fn passed_over(name: Seq<char>) -> bool {
    ||| name.len() > 0 && name[0] == '.'
    ||| name == "target"@
    ||| name == "node_modules"@
    ||| name == "dist"@
    ||| name == "build"@
    ||| name == "vendor"@
    ||| name == "venv"@
    ||| name == "__pycache__"@
}

/// Of what a directory holds, a search keeps the files, or the directories, that are not to
/// be passed over, in their order, under their full paths.
pub proof fn law_kept_items(dir: Seq<char>, items: Seq<tree::ItemModel>, item: tree::ItemModel, dirs: bool)
    ensures
        search::kept(dir, items.push(item), dirs) == (if item.1 == dirs && !passed_over(item.0) {
            search::kept(dir, items, dirs).push(paths::join(dir, item.0))
        } else {
            search::kept(dir, items, dirs)
        }),
        search::kept(dir, Seq::empty(), dirs) == Seq::<Seq<char>>::empty(),
{
    assert(items.push(item).drop_last() =~= items);
}

} // verus!
