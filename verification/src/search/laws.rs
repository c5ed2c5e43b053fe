//! What whole walks and searches come to.

use vstd::prelude::*;

use crate::order;
use crate::paths;
use crate::scan;
use crate::search;
use crate::search::{
    HitModel, TEXT_SEARCH_MAX_FILE_BYTES, TEXT_SEARCH_MAX_HITS, WALK_MAX_FILES,
};
use crate::tree;

verus! {

// ----------------------------------------------------------------------- walking

/// A directory that a walk looked at, and what was in it.
pub struct Visit {
    pub dir: Seq<char>,
    pub items: Seq<tree::ItemModel>,
}

/// The directories that a walk from `root` has yet to look at after some visits, each
/// of the directory that was to be looked at next.
pub open spec fn pending(root: Seq<char>, visits: Seq<Visit>) -> Seq<Seq<char>>
    decreases visits.len(),
{
    if visits.len() == 0 {
        seq![root]
    } else {
        let before = pending(root, visits.drop_last());
        before.drop_last() + search::kept(visits.last().dir, visits.last().items, true)
    }
}

/// The visits are those of a walk from `root`: each is of the directory that was to
/// be looked at next.
pub open spec fn walks(root: Seq<char>, visits: Seq<Visit>) -> bool {
    forall|i: int|
        #![trigger visits[i]]
        0 <= i < visits.len() ==> ({
            let before = pending(root, visits.take(i));
            before.len() > 0 && visits[i].dir == before.last()
        })
}

/// The files that a walk has after some visits, one after the other.
pub open spec fn gathered(root: Seq<char>, visits: Seq<Visit>) -> Seq<Seq<char>>
    decreases visits.len(),
{
    if visits.len() == 0 {
        Seq::empty()
    } else {
        search::capped(
            gathered(root, visits.drop_last()) + search::relative_all(
                search::kept(visits.last().dir, visits.last().items, false),
                root,
            ),
        )
    }
}

/// The files in the directories that were visited, in the order of the visits.
pub open spec fn files_under(root: Seq<char>, visits: Seq<Visit>) -> Seq<Seq<char>>
    decreases visits.len(),
{
    if visits.len() == 0 {
        Seq::empty()
    } else {
        files_under(root, visits.drop_last()) + search::relative_all(
            search::kept(visits.last().dir, visits.last().items, false),
            root,
        )
    }
}

proof fn lemma_gathered(root: Seq<char>, visits: Seq<Visit>)
    ensures
        gathered(root, visits) == search::capped(files_under(root, visits)),
    decreases visits.len(),
{
    if visits.len() > 0 {
        lemma_gathered(root, visits.drop_last());
        let all = files_under(root, visits.drop_last());
        let new = search::relative_all(
            search::kept(visits.last().dir, visits.last().items, false),
            root,
        );
        assert(search::capped(search::capped(all) + new) =~= search::capped(all + new));
    }
}

/// A walk gives the first files of the directories that it visited, no more than it
/// may gather, in the order of paths.
pub proof fn law_walks_give_the_first_files(root: Seq<char>, visits: Seq<Visit>)
    ensures
        ({
            let found = search::sorted_paths(gathered(root, visits));
            let all = files_under(root, visits);
            &&& found == search::sorted_paths(search::capped(all))
            &&& all.len() <= WALK_MAX_FILES ==> found == search::sorted_paths(all)
            &&& found.to_multiset() == search::capped(all).to_multiset()
            &&& order::ordered_by(found, |a: Seq<char>, b: Seq<char>| search::path_le(a, b))
        }),
{
    lemma_gathered(root, visits);
    search::law_paths_are_sorted(gathered(root, visits));
}

proof fn lemma_reached(root: Seq<char>, visits: Seq<Visit>, i: int, n: int, d: Seq<char>)
    requires
        walks(root, visits),
        0 <= i < n <= visits.len(),
        search::kept(visits[i].dir, visits[i].items, true).contains(d),
    ensures
        pending(root, visits.take(n)).contains(d) || exists|j: int|
            i < j < n && (#[trigger] visits[j]).dir == d,
    decreases n,
{
    let now = visits.take(n);
    let new = search::kept(visits[n - 1].dir, visits[n - 1].items, true);
    let before = pending(root, visits.take(n - 1));
    assert(now.drop_last() =~= visits.take(n - 1));
    assert(now.last() == visits[n - 1]);
    assert(pending(root, now) == before.drop_last() + new);
    if n == i + 1 {
        let k = choose|k: int| 0 <= k < new.len() && new[k] == d;
        assert(before.len() > 0);
        assert((before.drop_last() + new)[before.drop_last().len() + k] == d);
    } else {
        lemma_reached(root, visits, i, n - 1, d);
        if before.contains(d) {
            let k = choose|k: int| 0 <= k < before.len() && before[k] == d;
            if k == before.len() - 1 {
                assert(visits[n - 1].dir == d);
            } else {
                assert((before.drop_last() + new)[k] == d);
            }
        } else {
            let j = choose|j: int| i < j < n - 1 && (#[trigger] visits[j]).dir == d;
            assert(visits[j].dir == d);
        }
    }
}

/// The directory is the root of a walk, or was found on one of the first `n` visits.
pub open spec fn come_upon(root: Seq<char>, visits: Seq<Visit>, n: int, d: Seq<char>) -> bool {
    d == root || exists|i: int|
        0 <= i < n && search::kept((#[trigger] visits[i]).dir, visits[i].items, true).contains(d)
}

proof fn lemma_pending_found(root: Seq<char>, visits: Seq<Visit>, n: int, k: int)
    requires
        walks(root, visits),
        0 <= n <= visits.len(),
        0 <= k < pending(root, visits.take(n)).len(),
    ensures
        come_upon(root, visits, n, pending(root, visits.take(n))[k]),
    decreases n,
{
    if n > 0 {
        let now = visits.take(n);
        let new = search::kept(visits[n - 1].dir, visits[n - 1].items, true);
        let before = pending(root, visits.take(n - 1));
        assert(now.drop_last() =~= visits.take(n - 1));
        assert(now.last() == visits[n - 1]);
        let d = pending(root, now)[k];
        if k < before.drop_last().len() {
            assert(d == before[k]);
            lemma_pending_found(root, visits, n - 1, k);
        } else {
            assert(d == new[k - before.drop_last().len()]);
            assert(new.contains(d));
            assert(visits[n - 1] == visits[n - 1]);
        }
    }
}

/// A walk starts at its root and looks only at directories that it has come upon. One
/// that has nothing left to look at has looked at every directory that it came upon.
pub proof fn law_walks_visit_every_directory(
    root: Seq<char>,
    visits: Seq<Visit>,
    i: int,
    d: Seq<char>,
)
    requires
        walks(root, visits),
        0 <= i < visits.len(),
    ensures
        visits[0].dir == root,
        come_upon(root, visits, i, visits[i].dir),
        pending(root, visits).len() == 0 && search::kept(
            visits[i].dir,
            visits[i].items,
            true,
        ).contains(d) ==> exists|j: int|
            i < j < visits.len() && (#[trigger] visits[j]).dir == d,
{
    let n = visits.len() as int;
    assert(visits.take(0) =~= Seq::<Visit>::empty());
    assert(visits[0].dir == pending(root, visits.take(0)).last());
    let before = pending(root, visits.take(i));
    assert(visits[i].dir == before.last());
    lemma_pending_found(root, visits, i, before.len() - 1);
    if search::kept(visits[i].dir, visits[i].items, true).contains(d) {
        lemma_reached(root, visits, i, n, d);
        assert(visits.take(n) =~= visits);
    }
}

// --------------------------------------------------------------------- searching

/// A file that a search looks at.
pub struct Searched {
    pub path: Seq<char>,
    pub bytes: u64,
    pub contents: Seq<char>,
}

/// The hits of a search after some files, one after the other.
pub open spec fn searched(root: Seq<char>, needle: Seq<char>, files: Seq<Searched>) -> Seq<
    HitModel,
>
    decreases files.len(),
{
    if files.len() == 0 {
        Seq::empty()
    } else {
        let f = files.last();
        search::file_hits(
            searched(root, needle, files.drop_last()),
            root,
            needle,
            f.path,
            f.bytes,
            f.contents,
        )
    }
}

/// The hits on the first `n` lines of a file.
pub open spec fn line_hits(path: Seq<char>, ls: Seq<Seq<char>>, needle: Seq<char>, n: int) -> Seq<
    HitModel,
>
    decreases n,
{
    if n <= 0 {
        Seq::empty()
    } else {
        let before = line_hits(path, ls, needle, n - 1);
        match search::find_folded(ls[n - 1], needle) {
            Some(col) => before.push(
                HitModel {
                    path,
                    line: (n - 1) as nat,
                    col: col as nat,
                    preview: search::preview_of(ls[n - 1]),
                },
            ),
            None => before,
        }
    }
}

/// The hits in a file: none in one that is too large, and none of nothing.
pub open spec fn hits_in(root: Seq<char>, needle: Seq<char>, f: Searched) -> Seq<HitModel> {
    if f.bytes > TEXT_SEARCH_MAX_FILE_BYTES || needle.len() == 0 {
        Seq::empty()
    } else {
        let ls = scan::lines(f.contents);
        line_hits(paths::relative_to(f.path, root), ls, needle, ls.len() as int)
    }
}

/// The hits in the files, in the order of the files.
pub open spec fn all_hits(root: Seq<char>, needle: Seq<char>, files: Seq<Searched>) -> Seq<
    HitModel,
>
    decreases files.len(),
{
    if files.len() == 0 {
        Seq::empty()
    } else {
        all_hits(root, needle, files.drop_last()) + hits_in(root, needle, files.last())
    }
}

/// The first hits, no more than are listed.
pub open spec fn first_hits(hits: Seq<HitModel>) -> Seq<HitModel> {
    if hits.len() > TEXT_SEARCH_MAX_HITS {
        hits.take(TEXT_SEARCH_MAX_HITS as int)
    } else {
        hits
    }
}

proof fn lemma_hits_upto(
    before: Seq<HitModel>,
    path: Seq<char>,
    ls: Seq<Seq<char>>,
    needle: Seq<char>,
    n: int,
)
    requires
        before.len() <= TEXT_SEARCH_MAX_HITS,
    ensures
        search::hits_upto(before, path, ls, needle, n) == first_hits(
            before + line_hits(path, ls, needle, n),
        ),
    decreases n,
{
    let now = before + line_hits(path, ls, needle, n);
    if n <= 0 {
        assert(now =~= before);
    } else {
        lemma_hits_upto(before, path, ls, needle, n - 1);
        let last = before + line_hits(path, ls, needle, n - 1);
        if last.len() >= TEXT_SEARCH_MAX_HITS {
            assert(now.take(TEXT_SEARCH_MAX_HITS as int) =~= last.take(
                TEXT_SEARCH_MAX_HITS as int,
            ));
            assert(last.len() == TEXT_SEARCH_MAX_HITS ==> last.take(TEXT_SEARCH_MAX_HITS as int)
                =~= last);
            assert(now.len() == TEXT_SEARCH_MAX_HITS ==> now =~= last);
        } else {
            assert(search::hits_upto(before, path, ls, needle, n) =~= now);
        }
    }
}

proof fn lemma_searched(root: Seq<char>, needle: Seq<char>, files: Seq<Searched>)
    ensures
        searched(root, needle, files) == first_hits(all_hits(root, needle, files)),
    decreases files.len(),
{
    if files.len() > 0 {
        lemma_searched(root, needle, files.drop_last());
        let f = files.last();
        let all = all_hits(root, needle, files.drop_last());
        let new = hits_in(root, needle, f);
        let before = first_hits(all);
        if f.bytes > TEXT_SEARCH_MAX_FILE_BYTES || needle.len() == 0 {
            assert(all + new =~= all);
        } else if before.len() < TEXT_SEARCH_MAX_HITS {
            let ls = scan::lines(f.contents);
            lemma_hits_upto(
                before,
                paths::relative_to(f.path, root),
                ls,
                needle,
                ls.len() as int,
            );
        } else {
            assert(before =~= all.take(TEXT_SEARCH_MAX_HITS as int));
            assert((all + new).take(TEXT_SEARCH_MAX_HITS as int) =~= before);
            assert(all + new =~= before || (all + new).len() > TEXT_SEARCH_MAX_HITS);
        }
    }
}

proof fn lemma_hit_order(a: HitModel, b: HitModel, c: HitModel)
    ensures
        search::hit_le(a, b) || search::hit_le(b, a),
        search::hit_le(a, b) && search::hit_le(b, c) ==> search::hit_le(a, c),
{
    search::lemma_path_order(a.path, b.path, c.path);
    search::lemma_path_order(b.path, a.path, c.path);
    search::lemma_path_order(c.path, a.path, b.path);
    search::lemma_path_order(b.path, c.path, a.path);
    search::lemma_path_order(c.path, b.path, a.path);
}

/// A search lists the first hits in the files that it looked at, no more than are
/// listed, by path and then by line; it says so when there are as many as that.
pub proof fn law_searches_list_the_first_hits(
    root: Seq<char>,
    needle: Seq<char>,
    files: Seq<Searched>,
)
    ensures
        ({
            let hits = searched(root, needle, files);
            let all = all_hits(root, needle, files);
            &&& search::sorted_hits(hits) == search::sorted_hits(first_hits(all))
            &&& hits.len() >= TEXT_SEARCH_MAX_HITS <==> all.len() >= TEXT_SEARCH_MAX_HITS
            &&& all.len() <= TEXT_SEARCH_MAX_HITS ==> search::sorted_hits(hits)
                == search::sorted_hits(all)
            &&& search::sorted_hits(hits).to_multiset() == first_hits(all).to_multiset()
            &&& order::ordered_by(
                search::sorted_hits(hits),
                |a: HitModel, b: HitModel| search::hit_le(a, b),
            )
        }),
{
    lemma_searched(root, needle, files);
    let le = |a: HitModel, b: HitModel| search::hit_le(a, b);
    assert forall|a: HitModel, b: HitModel| #[trigger] le(a, b) || le(b, a) by {
        lemma_hit_order(a, b, a);
    }
    assert forall|a: HitModel, b: HitModel, c: HitModel|
        #![trigger le(a, b), le(b, c)]
        le(a, b) && le(b, c) implies le(a, c) by {
        lemma_hit_order(a, b, c);
    }
    order::law_sorting_by(searched(root, needle, files), le);
}

} // verus!
