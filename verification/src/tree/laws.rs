//! What the rows of the tree are, and what opening and closing a directory does to them.

use vstd::prelude::*;

use crate::order;
use crate::paths;
use crate::text;
use crate::tree;
use crate::tree::{Activation, ItemModel, Listing, RowModel, TreeModel};

verus! {

/// The row of an item of a directory: closed, under its name.
pub open spec fn row_of(r: RowModel, dir: Seq<char>, depth: int, item: ItemModel) -> bool {
    &&& r.name == item.0
    &&& r.is_dir == item.1
    &&& r.path == paths::join(dir, item.0)
    &&& r.depth == depth
    &&& !r.expanded
    &&& !r.is_parent_link
}

/// The row of one of the items that are shown.
pub open spec fn row_of_some(r: RowModel, dir: Seq<char>, depth: int, items: Seq<ItemModel>) -> bool {
    exists|k: int|
        0 <= k < items.len() && !unseen((#[trigger] items[k]).0) && row_of(r, dir, depth, items[k])
}

/// A name that is not shown.
pub open spec fn unseen(name: Seq<char>) -> bool {
    name.len() > 0 && name[0] == '.'
}

proof fn lemma_shown(dir: Seq<char>, depth: int, items: Seq<ItemModel>)
    ensures
        ({
            let s = tree::shown(dir, depth, items);
            &&& forall|i: int|
                0 <= i < s.len() ==> row_of_some(#[trigger] s[i], dir, depth, items)
            &&& forall|k: int|
                0 <= k < items.len() && !unseen((#[trigger] items[k]).0) ==> exists|i: int|
                    0 <= i < s.len() && row_of(#[trigger] s[i], dir, depth, items[k])
            &&& s.len() <= items.len()
        }),
    decreases items.len(),
{
    if items.len() > 0 {
        let rest = items.drop_last();
        lemma_shown(dir, depth, rest);
        let p = tree::shown(dir, depth, rest);
        let s = tree::shown(dir, depth, items);
        assert forall|i: int| 0 <= i < s.len() implies row_of_some(#[trigger] s[i], dir, depth, items) by {
            if i < p.len() {
                assert(s[i] == p[i]);
                assert(row_of_some(p[i], dir, depth, rest));
                let k = choose|k: int|
                    0 <= k < rest.len() && !unseen((#[trigger] rest[k]).0) && row_of(
                        p[i],
                        dir,
                        depth,
                        rest[k],
                    );
                assert(items[k] == rest[k]);
            } else {
                assert(!unseen(items[items.len() - 1].0));
            }
        }
        assert forall|k: int|
            0 <= k < items.len() && !unseen((#[trigger] items[k]).0) implies exists|i: int|
            0 <= i < s.len() && row_of(#[trigger] s[i], dir, depth, items[k]) by {
            if k < rest.len() {
                assert(rest[k] == items[k]);
                let i = choose|i: int|
                    0 <= i < p.len() && row_of(#[trigger] p[i], dir, depth, rest[k]);
                assert(s[i] == p[i]);
            } else {
                assert(row_of(s[s.len() - 1], dir, depth, items[k]));
            }
        }
    }
}

/// The rows of a directory: one for each item that is not hidden, the directories first,
/// and each kind by name, whatever the case of the letters.
pub proof fn law_rows_of_a_directory(dir: Seq<char>, depth: int, items: Seq<ItemModel>)
    ensures
        ({
            let rows = tree::dir_rows(dir, depth, items);
            &&& rows.len() <= items.len()
            &&& forall|i: int|
                0 <= i < rows.len() ==> row_of_some(#[trigger] rows[i], dir, depth, items)
            &&& forall|k: int|
                0 <= k < items.len() && !unseen((#[trigger] items[k]).0) ==> exists|i: int|
                    0 <= i < rows.len() && row_of(#[trigger] rows[i], dir, depth, items[k])
            &&& forall|i: int, j: int|
                0 <= i < j < rows.len() && (#[trigger] rows[j]).is_dir ==> (#[trigger] rows[i]).is_dir
            &&& forall|i: int, j: int|
                0 <= i < j < rows.len() && (#[trigger] rows[i]).is_dir == (#[trigger] rows[j]).is_dir
                    ==> order::text_le(
                    text::unicode_lower(rows[i].name),
                    text::unicode_lower(rows[j].name),
                )
        }),
{
    let le = |a: RowModel, b: RowModel| tree::row_le(a, b);
    let any = |a: RowModel, b: RowModel| true;
    let s = tree::shown(dir, depth, items);
    let rows = tree::dir_rows(dir, depth, items);
    lemma_shown(dir, depth, items);
    assert forall|a: RowModel, b: RowModel| #[trigger] le(a, b) || le(b, a) by {
        order::lemma_text_le_total(text::unicode_lower(a.name), text::unicode_lower(b.name));
    }
    assert forall|a: RowModel, b: RowModel, c: RowModel|
        #![trigger le(a, b), le(b, c)]
        le(a, b) && le(b, c) implies le(a, c) by {
        if a.is_dir == b.is_dir && b.is_dir == c.is_dir {
            order::lemma_text_le_transitive(
                text::unicode_lower(a.name),
                text::unicode_lower(b.name),
                text::unicode_lower(c.name),
            );
        }
    }
    order::law_sorting_by(s, le);
    order::laws::law_sorting_is_stable(s, le, any);
    assert forall|i: int| 0 <= i < rows.len() implies row_of_some(#[trigger] rows[i], dir, depth, items) by {
        assert(s.contains(rows[i]));
        let n = choose|n: int| 0 <= n < s.len() && s[n] == rows[i];
        assert(row_of_some(s[n], dir, depth, items));
    }
    assert forall|k: int|
        0 <= k < items.len() && !unseen((#[trigger] items[k]).0) implies exists|i: int|
        0 <= i < rows.len() && row_of(#[trigger] rows[i], dir, depth, items[k]) by {
        let n = choose|n: int| 0 <= n < s.len() && row_of(#[trigger] s[n], dir, depth, items[k]);
        assert(rows.contains(s[n]));
        let i = choose|i: int| 0 <= i < rows.len() && rows[i] == s[n];
        assert(row_of(rows[i], dir, depth, items[k]));
    }
    assert forall|i: int, j: int| 0 <= i < j < rows.len() implies tree::row_le(
        #[trigger] rows[i],
        #[trigger] rows[j],
    ) by {
        assert(le(rows[i], rows[j]));
    }
}

/// Opening the directory under the cursor puts its rows, one level deeper, right below it;
/// nothing else changes but that it is open.
pub proof fn law_opening_a_directory(t: TreeModel, items: Seq<ItemModel>)
    requires
        0 <= t.cursor < t.rows.len(),
        t.rows[t.cursor].is_dir,
        !t.rows[t.cursor].is_parent_link,
        !t.rows[t.cursor].expanded,
    ensures
        ({
            let r = tree::activated(t, items);
            let row = t.rows[t.cursor];
            let rows = tree::dir_rows(row.path, row.depth + 1, items);
            &&& r.cursor == t.cursor && r.root == t.root && r.top == t.top && r.focused
                == t.focused
            &&& r.rows.len() == t.rows.len() + rows.len()
            &&& r.rows.take(t.cursor) == t.rows.take(t.cursor)
            &&& r.rows[t.cursor] == (RowModel { expanded: true, ..row })
            &&& r.rows.subrange(t.cursor + 1, t.cursor + 1 + rows.len()) == rows
            &&& r.rows.skip(t.cursor + 1 + rows.len()) == t.rows.skip(t.cursor + 1)
        }),
{
    let r = tree::activated(t, items).rows;
    let row = t.rows[t.cursor];
    let rows = tree::dir_rows(row.path, row.depth + 1, items);
    assert(r.take(t.cursor) =~= t.rows.take(t.cursor));
    assert(r.subrange(t.cursor + 1, t.cursor + 1 + rows.len()) =~= rows);
    assert(r.skip(t.cursor + 1 + rows.len()) =~= t.rows.skip(t.cursor + 1));
}

proof fn lemma_past_deeper(rows: Seq<RowModel>, depth: int) -> (n: int)
    ensures
        0 <= n <= rows.len(),
        tree::past_deeper(rows, depth) == rows.skip(n),
        forall|i: int| 0 <= i < n ==> (#[trigger] rows[i]).depth > depth,
        n < rows.len() ==> rows[n].depth <= depth,
    decreases rows.len(),
{
    if rows.len() > 0 && rows[0].depth > depth {
        let m = lemma_past_deeper(rows.skip(1), depth);
        assert(rows.skip(1).skip(m) =~= rows.skip(m + 1));
        assert forall|i: int| 0 <= i < m + 1 implies (#[trigger] rows[i]).depth > depth by {
            if i > 0 {
                assert(rows.skip(1)[i - 1] == rows[i]);
            }
        }
        if m + 1 < rows.len() {
            assert(rows.skip(1)[m] == rows[m + 1]);
        }
        m + 1
    } else {
        assert(rows.skip(0) =~= rows);
        0
    }
}

/// Closing the directory under the cursor takes away the rows below it that lie deeper, up
/// to the first that does not; nothing else changes but that it is closed.
pub proof fn law_closing_a_directory(t: TreeModel, items: Seq<ItemModel>)
    requires
        0 <= t.cursor < t.rows.len(),
        t.rows[t.cursor].is_dir,
        !t.rows[t.cursor].is_parent_link,
        t.rows[t.cursor].expanded,
    ensures
        ({
            let r = tree::activated(t, items);
            let k = t.cursor;
            exists|n: int|
                {
                    &&& k < n <= t.rows.len()
                    &&& forall|i: int|
                        k < i < n ==> (#[trigger] t.rows[i]).depth > t.rows[k].depth
                    &&& n < t.rows.len() ==> t.rows[n].depth <= t.rows[k].depth
                    &&& r.rows == t.rows.take(k) + seq![
                        RowModel { expanded: false, ..t.rows[k] },
                    ] + #[trigger] t.rows.skip(n)
                    &&& r == (TreeModel { rows: r.rows, ..t })
                }
        }),
{
    let k = t.cursor;
    let rest = t.rows.skip(k + 1);
    let m = lemma_past_deeper(rest, t.rows[k].depth);
    let n = k + 1 + m;
    assert(rest.skip(m) =~= t.rows.skip(n));
    assert forall|i: int| k < i < n implies (#[trigger] t.rows[i]).depth > t.rows[k].depth by {
        assert(rest[i - k - 1] == t.rows[i]);
    }
    if n < t.rows.len() {
        assert(rest[m] == t.rows[n]);
    }
    assert(t.rows.skip(n) == t.rows.skip(n));
}

/// What activating the row under the cursor leaves to be done: a file is to be opened, the
/// `..` row leads up, and with a directory all is done.
pub proof fn law_activating_a_row(t: TreeModel, a: Activation, items: Seq<ItemModel>)
    requires
        0 <= t.cursor < t.rows.len(),
        tree::activation(t, a),
    ensures
        ({
            let row = t.rows[t.cursor];
            &&& row.is_parent_link ==> a is Ascend && tree::activated(t, items) == t
            &&& !row.is_parent_link && !row.is_dir ==> a is Open && a->Open_0@ == row.path
                && tree::activated(t, items) == t
            &&& !row.is_parent_link && row.is_dir ==> a is Nothing
        }),
{
}

/// Going up roots the tree in the directory that holds its root, with a row that leads
/// further up, if there is a directory there, and the rows of the new root.
pub proof fn law_going_up(t: TreeModel, items: Seq<ItemModel>)
    ensures
        ({
            let r = tree::ascended(t, items);
            match paths::parent(t.root) {
                None => r == t,
                Some(p) => {
                    &&& r.root == p
                    &&& r.cursor == 0
                    &&& r.top == 0
                    &&& r.focused == t.focused
                    &&& match paths::parent(p) {
                        None => r.rows == tree::dir_rows(p, 0, items),
                        Some(q) => {
                            &&& r.rows.len() == 1 + tree::dir_rows(p, 0, items).len()
                            &&& r.rows[0].is_parent_link
                            &&& r.rows[0].path == q
                            &&& r.rows[0].name == ".."@
                            &&& r.rows.skip(1) == tree::dir_rows(p, 0, items)
                        },
                    }
                },
            }
        }),
{
    if let Some(p) = paths::parent(t.root) {
        if let Some(q) = paths::parent(p) {
            assert(tree::ascended(t, items).rows.skip(1) =~= tree::dir_rows(p, 0, items));
        }
    }
}

proof fn lemma_place(rows: Seq<RowModel>, path: Seq<char>, dirs: bool, i: int)
    requires
        0 <= i,
    ensures
        match tree::place_from(rows, path, dirs, i) {
            Some(k) => {
                &&& i <= k < rows.len()
                &&& !rows[k].is_parent_link
                &&& dirs ==> rows[k].is_dir
                &&& paths::components(rows[k].path) == paths::components(path)
            },
            None => forall|k: int|
                i <= k < rows.len() && !(#[trigger] rows[k]).is_parent_link && (rows[k].is_dir
                    || !dirs) ==> paths::components(rows[k].path) != paths::components(path),
        },
    decreases rows.len() - i,
{
    if i < rows.len() {
        lemma_place(rows, path, dirs, i + 1);
    }
}

/// The path of the directory that `n` names lead to.
pub open spec fn led_to(root: Seq<char>, names: Seq<Seq<char>>, n: int) -> Seq<char>
    decreases n,
{
    if n <= 0 {
        root
    } else {
        paths::join(led_to(root, names, n - 1), names[n - 1])
    }
}

proof fn lemma_walked(
    rows: Seq<RowModel>,
    ls: Seq<Listing>,
    root: Seq<char>,
    names: Seq<Seq<char>>,
    n: int,
)
    ensures
        tree::walked(rows, ls, root, names, n).2 ==> tree::walked(rows, ls, root, names, n).1
            == led_to(root, names, n),
    decreases n,
{
    if n > 0 {
        lemma_walked(rows, ls, root, names, n - 1);
    }
}

/// A file that is revealed is under the cursor, by the names that lead to it from the root;
/// one outside the root is never revealed, and changes nothing.
pub proof fn law_revealing_a_file(t: TreeModel, target: Seq<char>, ls: Seq<Listing>)
    ensures
        ({
            let (r, found) = tree::revealed(t, target, ls);
            let (p, b) = (paths::components(target), paths::components(t.root));
            let inside = b.len() < p.len() && p.take(b.len() as int) == b;
            &&& !inside ==> !found && r == t
            &&& found ==> {
                let names = p.skip(b.len() as int);
                &&& 0 <= r.cursor < r.rows.len()
                &&& !r.rows[r.cursor].is_parent_link
                &&& paths::components(r.rows[r.cursor].path) == paths::components(
                    led_to(t.root, names, names.len() as int),
                )
            }
            &&& !found ==> r.cursor == t.cursor
            &&& r.root == t.root && r.focused == t.focused && r.top == t.top
        }),
{
    if let Some(names) = paths::below(target, t.root) {
        if names.len() > 0 {
            let n = names.len() - 1;
            lemma_walked(t.rows, ls, t.root, names, n);
            let (rows, at, found) = tree::walked(t.rows, ls, t.root, names, n);
            lemma_place(rows, paths::join(at, names.last()), false, 0);
        }
    }
}

} // verus!
