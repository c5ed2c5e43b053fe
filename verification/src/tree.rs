//! The file tree in the sidebar.
//!
//! The visible rows are one flat list: the rows of an expanded directory stand
//! right behind its own. What a directory holds is handed in when it is needed.
//! Items whose name starts with a dot are not shown.

use vstd::prelude::*;

use crate::order;
use crate::order::{chars_le, sort, Ranked};
use crate::paths;
use crate::paths::{components_below, find_marked, is_same_path, join_paths, parent_of};
use crate::scan;
use crate::text;
use crate::text::{owned, to_chars, to_text};

pub mod laws;
pub mod ways;

verus! {

/// One item of a directory.
#[derive(Debug)]
pub struct DirItem {
    pub name: String,
    pub is_dir: bool,
}

/// What a directory holds.
#[derive(Debug)]
pub struct Listing {
    pub dir: String,
    pub items: Vec<DirItem>,
}

/// One row.
#[derive(Debug)]
pub struct TreeEntry {
    pub path: String,
    pub name: String,
    pub depth: usize,
    pub is_dir: bool,
    pub expanded: bool,
    /// The `..` row at the top, which leads to the directory that holds the root.
    pub is_parent_link: bool,
}

/// What came of activating a row.
#[derive(Debug)]
pub enum Activation {
    /// Nothing is left to do.
    Nothing,
    /// A file is to be opened.
    Open(String),
    /// The tree is to be rooted one level up.
    Ascend,
}

pub struct FileTree {
    pub root: String,
    pub entries: Vec<TreeEntry>,
    pub cursor: usize,
    pub top: usize,
    /// The tree is shown and takes the keys.
    pub focused: bool,
}

// ---------------------------------------------------------------------- models

/// What a row is.
#[verifier::ext_equal]
pub struct RowModel {
    pub path: Seq<char>,
    pub name: Seq<char>,
    pub depth: int,
    pub is_dir: bool,
    pub expanded: bool,
    pub is_parent_link: bool,
}

/// What the tree is.
#[verifier::ext_equal]
pub struct TreeModel {
    pub root: Seq<char>,
    pub rows: Seq<RowModel>,
    pub cursor: int,
    pub top: int,
    pub focused: bool,
}

/// What an item is: its name, and whether it is a directory.
pub type ItemModel = (Seq<char>, bool);

impl View for TreeEntry {
    type V = RowModel;

    open spec fn view(&self) -> RowModel {
        RowModel {
            path: self.path@,
            name: self.name@,
            depth: self.depth as int,
            is_dir: self.is_dir,
            expanded: self.expanded,
            is_parent_link: self.is_parent_link,
        }
    }
}

impl View for FileTree {
    type V = TreeModel;

    open spec fn view(&self) -> TreeModel {
        TreeModel {
            root: self.root@,
            rows: order::views_of(self.entries@),
            cursor: self.cursor as int,
            top: self.top as int,
            focused: self.focused,
        }
    }
}

pub open spec fn item_views(v: Seq<DirItem>) -> Seq<ItemModel> {
    Seq::new(v.len(), |i: int| (v[i].name@, v[i].is_dir))
}

/// The items of a directory, going by the listings; a directory that is not
/// listed has none.
pub open spec fn listed_items(ls: Seq<Listing>, dir: Seq<char>) -> Seq<ItemModel>
    decreases ls.len(),
{
    if ls.len() == 0 {
        Seq::empty()
    } else if ls[0].dir@ == dir {
        item_views(ls[0].items@)
    } else {
        listed_items(ls.skip(1), dir)
    }
}

/// Directories come before files; among either, names in alphabetical order
/// without regard to case.
pub open spec fn row_le(a: RowModel, b: RowModel) -> bool {
    if a.is_dir != b.is_dir {
        a.is_dir
    } else {
        order::text_le(text::unicode_lower(a.name), text::unicode_lower(b.name))
    }
}

impl Ranked for TreeEntry {
    open spec fn rank_le(self, other: TreeEntry) -> bool {
        row_le(self@, other@)
    }

    fn ranks_before(&self, other: &TreeEntry) -> bool {
        if self.is_dir != other.is_dir {
            self.is_dir
        } else {
            chars_le(
                &to_chars(&self.name.to_lowercase()),
                &to_chars(&other.name.to_lowercase()),
            )
        }
    }
}

/// A name that is not shown.
pub open spec fn hidden(name: Seq<char>) -> bool {
    name.len() > 0 && name[0] == '.'
}

/// The row of an item.
pub open spec fn item_row(dir: Seq<char>, depth: int, item: ItemModel) -> RowModel {
    RowModel {
        path: paths::join(dir, item.0),
        name: item.0,
        depth,
        is_dir: item.1,
        expanded: false,
        is_parent_link: false,
    }
}

/// The rows of the items that are shown.
pub open spec fn shown(dir: Seq<char>, depth: int, items: Seq<ItemModel>) -> Seq<RowModel>
    decreases items.len(),
{
    if items.len() == 0 {
        Seq::empty()
    } else {
        let before = shown(dir, depth, items.drop_last());
        if hidden(items.last().0) {
            before
        } else {
            before.push(item_row(dir, depth, items.last()))
        }
    }
}

/// The rows of a directory, in order.
pub open spec fn dir_rows(dir: Seq<char>, depth: int, items: Seq<ItemModel>) -> Seq<RowModel> {
    order::sorted_by(shown(dir, depth, items), |a: RowModel, b: RowModel| row_le(a, b))
}

/// The `..` row.
pub open spec fn parent_row(parent: Seq<char>) -> RowModel {
    RowModel {
        path: parent,
        name: ".."@,
        depth: 0,
        is_dir: true,
        expanded: false,
        is_parent_link: true,
    }
}

/// The rows of a tree that nothing is expanded in.
pub open spec fn root_rows(root: Seq<char>, items: Seq<ItemModel>) -> Seq<RowModel> {
    match paths::parent(root) {
        Some(p) => seq![parent_row(p)] + dir_rows(root, 0, items),
        None => dir_rows(root, 0, items),
    }
}

/// The rows with directory `k` expanded.
pub open spec fn expanded_at(rows: Seq<RowModel>, k: int, items: Seq<ItemModel>) -> Seq<RowModel> {
    rows.take(k) + seq![RowModel { expanded: true, ..rows[k] }] + dir_rows(
        rows[k].path,
        rows[k].depth + 1,
        items,
    ) + rows.skip(k + 1)
}

/// The rows without those at the front that are deeper than `depth`.
pub open spec fn past_deeper(rows: Seq<RowModel>, depth: int) -> Seq<RowModel>
    decreases rows.len(),
{
    if rows.len() > 0 && rows[0].depth > depth {
        past_deeper(rows.skip(1), depth)
    } else {
        rows
    }
}

/// The rows with directory `k` collapsed.
pub open spec fn collapsed_at(rows: Seq<RowModel>, k: int) -> Seq<RowModel> {
    rows.take(k) + seq![RowModel { expanded: false, ..rows[k] }] + past_deeper(
        rows.skip(k + 1),
        rows[k].depth,
    )
}

/// The first row is at the top level, and a row is deeper than the one before it
/// only if that one is expanded, and then by one.
pub open spec fn stepwise(rows: Seq<RowModel>) -> bool {
    &&& rows.len() > 0 ==> rows[0].depth == 0
    &&& forall|i: int, j: int|
        #![trigger rows[i], rows[j]]
        0 <= i && j == i + 1 && j < rows.len() ==> rows[j].depth <= rows[i].depth + (
        if rows[i].expanded {
            1int
        } else {
            0
        })
    &&& forall|i: int| 0 <= i < rows.len() ==> (#[trigger] rows[i]).depth >= 0
}

/// The rows are stepwise, and the cursor is on one of them if there is any.
pub open spec fn tree_ok(t: TreeModel) -> bool {
    &&& stepwise(t.rows)
    &&& 0 <= t.cursor
    &&& t.cursor < t.rows.len() || t.cursor == 0
    &&& t.top >= 0
}

// ---------------------------------------------------------------------- lemmas

proof fn lemma_depth_bound(rows: Seq<RowModel>, k: int)
    requires
        stepwise(rows),
        0 <= k < rows.len(),
    ensures
        rows[k].depth <= k,
    decreases k,
{
    if k > 0 {
        lemma_depth_bound(rows, k - 1);
        assert(rows[k - 1].depth >= 0);
    }
}

/// Every row of a directory is at its depth and not expanded.
proof fn lemma_dir_rows(dir: Seq<char>, depth: int, items: Seq<ItemModel>)
    ensures
        forall|i: int|
            #![trigger dir_rows(dir, depth, items)[i]]
            0 <= i < dir_rows(dir, depth, items).len() ==> {
                &&& dir_rows(dir, depth, items)[i].depth == depth
                &&& !dir_rows(dir, depth, items)[i].expanded
            },
{
    lemma_shown(dir, depth, items);
    lemma_sorted_keeps(shown(dir, depth, items), depth);
}

spec fn flat(rows: Seq<RowModel>, depth: int) -> bool {
    forall|i: int|
        0 <= i < rows.len() ==> (#[trigger] rows[i]).depth == depth && !rows[i].expanded
}

proof fn lemma_shown(dir: Seq<char>, depth: int, items: Seq<ItemModel>)
    ensures
        flat(shown(dir, depth, items), depth),
    decreases items.len(),
{
    if items.len() > 0 {
        lemma_shown(dir, depth, items.drop_last());
    }
}

proof fn lemma_insert_keeps(rows: Seq<RowModel>, x: RowModel, depth: int)
    requires
        flat(rows, depth),
        x.depth == depth && !x.expanded,
    ensures
        flat(order::insert_by(rows, x, |a: RowModel, b: RowModel| row_le(a, b)), depth),
    decreases rows.len(),
{
    if rows.len() > 0 && !row_le(rows.last(), x) {
        lemma_insert_keeps(rows.drop_last(), x, depth);
    }
}

proof fn lemma_sorted_keeps(rows: Seq<RowModel>, depth: int)
    requires
        flat(rows, depth),
    ensures
        flat(order::sorted_by(rows, |a: RowModel, b: RowModel| row_le(a, b)), depth),
    decreases rows.len(),
{
    if rows.len() > 0 {
        lemma_sorted_keeps(rows.drop_last(), depth);
        lemma_insert_keeps(
            order::sorted_by(rows.drop_last(), |a: RowModel, b: RowModel| row_le(a, b)),
            rows.last(),
            depth,
        );
    }
}

proof fn lemma_root_rows(root: Seq<char>, items: Seq<ItemModel>)
    ensures
        stepwise(root_rows(root, items)),
{
    lemma_dir_rows(root, 0, items);
    let rows = root_rows(root, items);
    assert(flat(rows, 0)) by {
        let rest = dir_rows(root, 0, items);
        assert forall|i: int| 0 <= i < rows.len() implies (#[trigger] rows[i]).depth == 0
            && !rows[i].expanded by {
            if paths::parent(root) is Some {
                if i > 0 {
                    assert(rows[i] == rest[i - 1]);
                }
            } else {
                assert(rows[i] == rest[i]);
            }
        }
    }
}

proof fn lemma_expanded(rows: Seq<RowModel>, k: int, items: Seq<ItemModel>)
    requires
        stepwise(rows),
        0 <= k < rows.len(),
        !rows[k].expanded,
    ensures
        stepwise(expanded_at(rows, k, items)),
        expanded_at(rows, k, items).len() >= rows.len(),
{
    let mid = dir_rows(rows[k].path, rows[k].depth + 1, items);
    lemma_dir_rows(rows[k].path, rows[k].depth + 1, items);
    let r = expanded_at(rows, k, items);
    let n = mid.len();
    assert(r.len() == rows.len() + n);
    assert forall|i: int| 0 <= i < r.len() implies (#[trigger] r[i]).depth >= 0 by {
        if i < k {
            assert(r[i] == rows[i]);
        } else if i == k {
            assert(r[i].depth == rows[k].depth);
        } else if i <= k + n {
            assert(r[i] == mid[i - k - 1]);
        } else {
            assert(r[i] == rows[i - n]);
        }
    }
    assert forall|i: int, j: int|
        #![trigger r[i], r[j]]
        0 <= i && j == i + 1 && j < r.len() implies r[j].depth <= r[i].depth + (if r[i].expanded {
        1int
    } else {
        0
    }) by {
        if i + 1 < k {
            assert(r[i] == rows[i] && r[i + 1] == rows[i + 1]);
        } else if i + 1 == k {
            assert(r[i] == rows[i] && r[i + 1].depth == rows[i + 1].depth);
        } else if i == k {
            if n > 0 {
                assert(r[i + 1] == mid[0]);
            } else {
                assert(r[i + 1] == rows[i + 1]);
                assert(rows[k].depth >= rows[k + 1].depth);
            }
        } else if i < k + n {
            assert(r[i] == mid[i - k - 1] && r[i + 1] == mid[i - k]);
        } else if i == k + n {
            assert(r[i] == mid[n - 1]);
            assert(r[i + 1] == rows[k + 1]);
            assert(rows[k].depth >= rows[k + 1].depth);
        } else {
            assert(r[i] == rows[i - n] && r[i + 1] == rows[i - n + 1]);
        }
    }
    if k > 0 {
        assert(r[0] == rows[0]);
    }
}

proof fn lemma_past_deeper(rows: Seq<RowModel>, depth: int)
    ensures
        past_deeper(rows, depth).len() <= rows.len(),
        past_deeper(rows, depth) == rows.skip(rows.len() - past_deeper(rows, depth).len()),
        past_deeper(rows, depth).len() > 0 ==> past_deeper(rows, depth)[0].depth <= depth,
        forall|i: int|
            0 <= i < rows.len() - past_deeper(rows, depth).len() ==> (#[trigger] rows[i]).depth
                > depth,
    decreases rows.len(),
{
    if rows.len() > 0 && rows[0].depth > depth {
        let rest = rows.skip(1);
        lemma_past_deeper(rest, depth);
        let n = past_deeper(rows, depth).len();
        assert(rest.skip(rest.len() - n) =~= rows.skip(rows.len() - n));
        assert forall|i: int| 0 <= i < rows.len() - n implies (#[trigger] rows[i]).depth
            > depth by {
            if i > 0 {
                assert(rest[i - 1] == rows[i]);
            }
        }
    } else {
        assert(rows.skip(0) =~= rows);
    }
}

proof fn lemma_collapsed(rows: Seq<RowModel>, k: int)
    requires
        stepwise(rows),
        0 <= k < rows.len(),
    ensures
        stepwise(collapsed_at(rows, k)),
        k < collapsed_at(rows, k).len() <= rows.len(),
{
    let tail = rows.skip(k + 1);
    let kept = past_deeper(tail, rows[k].depth);
    lemma_past_deeper(tail, rows[k].depth);
    let r = collapsed_at(rows, k);
    let d = rows.len() - r.len();
    assert forall|i: int| k < i < r.len() implies #[trigger] r[i] == rows[i + d] by {
        assert(r[i] == kept[i - k - 1]);
    }
    assert forall|i: int| 0 <= i < r.len() implies (#[trigger] r[i]).depth >= 0 by {
        if i < k {
            assert(r[i] == rows[i]);
        } else if i == k {
            assert(rows[k].depth >= 0);
        } else {
            assert(rows[i + d].depth >= 0);
        }
    }
    assert forall|i: int, j: int|
        #![trigger r[i], r[j]]
        0 <= i && j == i + 1 && j < r.len() implies r[j].depth <= r[i].depth + (if r[i].expanded {
        1int
    } else {
        0
    }) by {
        if i + 1 < k {
            assert(r[i] == rows[i] && r[i + 1] == rows[i + 1]);
        } else if i + 1 == k {
            assert(r[i] == rows[i] && r[i + 1].depth == rows[i + 1].depth);
        } else if i == k {
            assert(r[i + 1] == kept[0]);
        } else {
            assert(r[i] == rows[i + d] && r[i + 1] == rows[i + 1 + d]);
            assert(rows[i + d].depth >= 0);
        }
    }
    if k > 0 {
        assert(r[0] == rows[0]);
    }
}

/// Collapsing a directory that was just expanded brings the rows back.
pub proof fn law_collapse_undoes_expand(rows: Seq<RowModel>, k: int, items: Seq<ItemModel>)
    requires
        stepwise(rows),
        0 <= k < rows.len(),
        !rows[k].expanded,
    ensures
        collapsed_at(expanded_at(rows, k, items), k) == rows,
{
    let mid = dir_rows(rows[k].path, rows[k].depth + 1, items);
    lemma_dir_rows(rows[k].path, rows[k].depth + 1, items);
    let r = expanded_at(rows, k, items);
    let tail = r.skip(k + 1);
    let rest = rows.skip(k + 1);
    assert(tail =~= mid + rest);
    lemma_past_deeper(tail, rows[k].depth);
    let n = tail.len() - past_deeper(tail, rows[k].depth).len();
    if n < mid.len() {
        assert(past_deeper(tail, rows[k].depth)[0] == mid[n]);
        assert(false);
    }
    if n > mid.len() {
        assert(tail[mid.len() as int] == rest[0]);
        assert(rest[0] == rows[k + 1]);
        assert(rows[k].depth >= rows[k + 1].depth);
        assert(false);
    }
    assert(tail.skip(n) =~= rest);
    assert(collapsed_at(r, k) =~= rows);
}

/// Expanding and collapsing keep the rows stepwise.
pub proof fn law_rows_stay_stepwise(rows: Seq<RowModel>, k: int, items: Seq<ItemModel>)
    requires
        stepwise(rows),
        0 <= k < rows.len(),
    ensures
        !rows[k].expanded ==> stepwise(expanded_at(rows, k, items)),
        stepwise(collapsed_at(rows, k)),
{
    if !rows[k].expanded {
        lemma_expanded(rows, k, items);
    }
    lemma_collapsed(rows, k);
}

// --------------------------------------------------------------------- listing

fn list_dir(dir: &str, depth: usize, items: &Vec<DirItem>) -> (r: Vec<TreeEntry>)
    ensures
        order::views_of(r@) == dir_rows(dir@, depth as int, item_views(items@)),
{
    let mut r: Vec<TreeEntry> = Vec::new();
    let ghost all = item_views(items@);
    let mut i: usize = 0;
    assert(order::views_of(r@) =~= shown(dir@, depth as int, all.take(0)));
    while i < items.len()
        invariant
            all == item_views(items@),
            i <= items@.len(),
            order::views_of(r@) == shown(dir@, depth as int, all.take(i as int)),
        decreases items@.len() - i,
    {
        let item = &items[i];
        let cs = to_chars(&item.name);
        let ghost before = order::views_of(r@);
        if cs.len() == 0 || cs[0] != '.' {
            r.push(
                TreeEntry {
                    path: join_paths(dir, &item.name),
                    name: owned(&item.name),
                    depth,
                    is_dir: item.is_dir,
                    expanded: false,
                    is_parent_link: false,
                },
            );
            assert(order::views_of(r@) =~= before.push(
                item_row(dir@, depth as int, all[i as int]),
            ));
        }
        i += 1;
        assert(all.take(i as int).drop_last() =~= all.take(i - 1));
    }
    assert(all.take(i as int) =~= all);
    proof {
        order::lemma_sorted_views(r@, |a: RowModel, b: RowModel| row_le(a, b));
    }
    sort(r)
}

fn entries_for(root: &str, items: &Vec<DirItem>) -> (r: Vec<TreeEntry>)
    ensures
        order::views_of(r@) == root_rows(root@, item_views(items@)),
{
    let mut listed = list_dir(root, 0, items);
    let mut r: Vec<TreeEntry> = Vec::new();
    match parent_of(root) {
        Some(p) => {
            r.push(
                TreeEntry {
                    path: p,
                    name: owned(".."),
                    depth: 0,
                    is_dir: true,
                    expanded: false,
                    is_parent_link: true,
                },
            );
        },
        None => {},
    }
    let ghost (a, b) = (r@, listed@);
    r.append(&mut listed);
    assert(order::views_of(r@) =~= order::views_of(a) + order::views_of(b));
    assert(order::views_of(r@) =~= root_rows(root@, item_views(items@)));
    r
}

fn find_listing(ls: &Vec<Listing>, dir: &str) -> (r: Option<usize>)
    ensures
        match r {
            Some(k) => k < ls@.len() && listed_items(ls@, dir@) == item_views(
                ls@[k as int].items@,
            ),
            None => listed_items(ls@, dir@) == Seq::<ItemModel>::empty(),
        },
{
    let mut i: usize = 0;
    assert(ls@.skip(0) =~= ls@);
    while i < ls.len()
        invariant
            i <= ls@.len(),
            listed_items(ls@, dir@) == listed_items(ls@.skip(i as int), dir@),
        decreases ls@.len() - i,
    {
        assert(ls@.skip(i as int)[0] == ls@[i as int]);
        if text::same(&ls[i].dir, dir) {
            return Some(i);
        }
        assert(ls@.skip(i as int).skip(1) =~= ls@.skip(i + 1));
        i += 1;
    }
    None
}

// ------------------------------------------------------------------------ tree

/// The row of a directory with a path.
pub open spec fn dir_place(rows: Seq<RowModel>, path: Seq<char>) -> Option<int> {
    place_from(rows, path, true, 0)
}

/// The first row from `i` on with a path, and a directory if `dirs` says so.
pub open spec fn place_from(rows: Seq<RowModel>, path: Seq<char>, dirs: bool, i: int) -> Option<int>
    decreases rows.len() - i,
{
    if i < 0 || i >= rows.len() {
        None
    } else if !rows[i].is_parent_link && (rows[i].is_dir || !dirs) && paths::same_path(
        rows[i].path,
        path,
    ) {
        Some(i)
    } else {
        place_from(rows, path, dirs, i + 1)
    }
}

/// The rows after a directory was expanded, where it is there, and whether it is.
#[verifier::opaque]
pub open spec fn entered(rows: Seq<RowModel>, ls: Seq<Listing>, dir: Seq<char>) -> (
    Seq<RowModel>,
    bool,
) {
    match dir_place(rows, dir) {
        None => (rows, false),
        Some(k) => (
            if rows[k].expanded {
                rows
            } else {
                expanded_at(rows, k, listed_items(ls, rows[k].path))
            },
            true,
        ),
    }
}

proof fn lemma_entered(rows: Seq<RowModel>, ls: Seq<Listing>, dir: Seq<char>)
    requires
        stepwise(rows),
    ensures
        stepwise(entered(rows, ls, dir).0),
        entered(rows, ls, dir).0.len() >= rows.len(),
{
    reveal(entered);
    lemma_place_from(rows, dir, true, 0);
    match dir_place(rows, dir) {
        Some(k) => {
            if !rows[k].expanded {
                lemma_expanded(rows, k, listed_items(ls, rows[k].path));
            }
        },
        None => {},
    }
}

/// The rows after the directories on the way to a file were expanded as far as
/// they are there, the path of the last one that was looked for, and whether all
/// of the first `n` were there.
pub open spec fn walked(
    rows: Seq<RowModel>,
    ls: Seq<Listing>,
    root: Seq<char>,
    names: Seq<Seq<char>>,
    n: int,
) -> (Seq<RowModel>, Seq<char>, bool)
    decreases n,
{
    if n <= 0 {
        (rows, root, true)
    } else {
        let (rs, at, found) = walked(rows, ls, root, names, n - 1);
        if !found {
            (rs, at, false)
        } else {
            let dir = paths::join(at, names[n - 1]);
            let (after, entered) = entered(rs, ls, dir);
            (after, dir, entered)
        }
    }
}

/// The tree after a file was looked for in it, and whether it was found.
pub open spec fn revealed(t: TreeModel, target: Seq<char>, ls: Seq<Listing>) -> (TreeModel, bool) {
    match paths::below(target, t.root) {
        None => (t, false),
        Some(names) => if names.len() == 0 {
            (t, false)
        } else {
            let (rows, at, found) = walked(t.rows, ls, t.root, names, names.len() - 1);
            if !found {
                (TreeModel { rows, ..t }, false)
            } else {
                match place_from(rows, paths::join(at, names.last()), false, 0) {
                    Some(k) => (TreeModel { rows, cursor: k, ..t }, true),
                    None => (TreeModel { rows, ..t }, false),
                }
            }
        },
    }
}

proof fn lemma_place_from(rows: Seq<RowModel>, path: Seq<char>, dirs: bool, i: int)
    requires
        0 <= i <= rows.len(),
    ensures
        place_from(rows, path, dirs, i) matches Some(k) ==> i <= k < rows.len()
            && !rows[k].is_parent_link && (rows[k].is_dir || !dirs),
    decreases rows.len() - i,
{
    if i < rows.len() {
        lemma_place_from(rows, path, dirs, i + 1);
    }
}

proof fn lemma_walked(
    rows: Seq<RowModel>,
    ls: Seq<Listing>,
    root: Seq<char>,
    names: Seq<Seq<char>>,
    n: int,
)
    requires
        stepwise(rows),
    ensures
        stepwise(walked(rows, ls, root, names, n).0),
        walked(rows, ls, root, names, n).0.len() >= rows.len(),
    decreases n,
{
    if n > 0 {
        lemma_walked(rows, ls, root, names, n - 1);
        let (rs, at, found) = walked(rows, ls, root, names, n - 1);
        if found {
            lemma_entered(rs, ls, paths::join(at, names[n - 1]));
        }
    }
}

/// What activating the row under the cursor does to the tree.
pub open spec fn activated(t: TreeModel, items: Seq<ItemModel>) -> TreeModel {
    if t.cursor >= t.rows.len() {
        t
    } else {
        let row = t.rows[t.cursor];
        if row.is_parent_link || !row.is_dir {
            t
        } else if row.expanded {
            TreeModel { rows: collapsed_at(t.rows, t.cursor), ..t }
        } else {
            TreeModel { rows: expanded_at(t.rows, t.cursor, items), ..t }
        }
    }
}

/// What is left to do once the row under the cursor is activated.
pub open spec fn activation(t: TreeModel, a: Activation) -> bool {
    if t.cursor >= t.rows.len() {
        a is Nothing
    } else {
        let row = t.rows[t.cursor];
        if row.is_parent_link {
            a is Ascend
        } else if !row.is_dir {
            a matches Activation::Open(p) && p@ == row.path
        } else {
            a is Nothing
        }
    }
}

/// The tree one level up.
pub open spec fn ascended(t: TreeModel, items: Seq<ItemModel>) -> TreeModel {
    match paths::parent(t.root) {
        Some(p) => TreeModel { root: p, rows: root_rows(p, items), cursor: 0, top: 0, ..t },
        None => t,
    }
}

/// The first visible row once the row under the cursor has to be visible.
pub open spec fn row_scrolled(top: int, cursor: int, viewport: int) -> int {
    if viewport == 0 {
        top
    } else if cursor < top {
        cursor
    } else if cursor >= top + viewport {
        cursor + 1 - viewport
    } else {
        top
    }
}

impl FileTree {
    /// The tree of a directory, given its absolute path and what it holds.
    pub fn new(root: String, items: &Vec<DirItem>) -> (r: FileTree)
        ensures
            tree_ok(r@),
            r@ == (TreeModel {
                root: root@,
                rows: root_rows(root@, item_views(items@)),
                cursor: 0,
                top: 0,
                focused: false,
            }),
    {
        proof {
            lemma_root_rows(root@, item_views(items@));
        }
        let entries = entries_for(&root, items);
        FileTree { root, entries, cursor: 0, top: 0, focused: false }
    }

    pub fn move_up(&mut self)
        requires
            tree_ok(old(self)@),
        ensures
            tree_ok(final(self)@),
            final(self)@ == (TreeModel {
                cursor: if old(self)@.cursor > 0 {
                    old(self)@.cursor - 1
                } else {
                    0
                },
                ..old(self)@
            }),
    {
        if self.cursor > 0 {
            self.cursor -= 1;
        }
    }

    pub fn move_down(&mut self)
        requires
            tree_ok(old(self)@),
        ensures
            tree_ok(final(self)@),
            final(self)@ == (TreeModel {
                cursor: if old(self)@.cursor + 1 < old(self)@.rows.len() {
                    old(self)@.cursor + 1
                } else {
                    old(self)@.cursor
                },
                ..old(self)@
            }),
    {
        if self.cursor < self.entries.len() && self.cursor + 1 < self.entries.len() {
            self.cursor += 1;
        }
    }

    /// The directory whose items `activate` needs: the one under the cursor, if
    /// it is to be expanded.
    pub fn dir_to_expand(&self) -> (r: Option<String>)
        ensures
            match r {
                Some(p) => {
                    &&& self@.cursor < self@.rows.len()
                    &&& p@ == self@.rows[self@.cursor].path
                    &&& !self@.rows[self@.cursor].is_parent_link
                    &&& self@.rows[self@.cursor].is_dir
                    &&& !self@.rows[self@.cursor].expanded
                },
                None => self@.cursor < self@.rows.len() ==> {
                    ||| self@.rows[self@.cursor].is_parent_link
                    ||| !self@.rows[self@.cursor].is_dir
                    ||| self@.rows[self@.cursor].expanded
                },
            },
    {
        if self.cursor >= self.entries.len() {
            return None;
        }
        assert(self@.rows[self.cursor as int] == self.entries@[self.cursor as int]@);
        let e = &self.entries[self.cursor];
        if e.is_parent_link || !e.is_dir || e.expanded {
            None
        } else {
            Some(owned(&e.path))
        }
    }

    /// Activates the row under the cursor: a directory is expanded or collapsed.
    /// `items` is what it holds.
    pub fn activate(&mut self, items: &Vec<DirItem>) -> (r: Activation)
        requires
            tree_ok(old(self)@),
        ensures
            tree_ok(final(self)@),
            final(self)@ == activated(old(self)@, item_views(items@)),
            activation(old(self)@, r),
    {
        if self.cursor >= self.entries.len() {
            return Activation::Nothing;
        }
        let k: usize = self.cursor;
        assert(self@.rows[k as int] == self.entries@[k as int]@);
        if self.entries[k].is_parent_link {
            return Activation::Ascend;
        }
        if !self.entries[k].is_dir {
            return Activation::Open(owned(&self.entries[k].path));
        }
        if self.entries[k].expanded {
            proof {
                lemma_collapsed(self@.rows, k as int);
            }
            self.collapse_at(k);
        } else {
            proof {
                lemma_expanded(self@.rows, k as int, item_views(items@));
            }
            self.expand_at(k, items);
        }
        Activation::Nothing
    }

    fn expand_at(&mut self, idx: usize, items: &Vec<DirItem>)
        requires
            stepwise(old(self)@.rows),
            idx < old(self)@.rows.len(),
        ensures
            final(self)@ == (TreeModel {
                rows: expanded_at(old(self)@.rows, idx as int, item_views(items@)),
                ..old(self)@
            }),
    {
        let ghost rows = self@.rows;
        let len: usize = self.entries.len();
        proof {
            lemma_depth_bound(rows, idx as int);
            assert(rows[idx as int] == self.entries@[idx as int]@);
            assert(idx < len);
        }
        let depth: usize = self.entries[idx].depth;
        let mut children = list_dir(&self.entries[idx].path, depth + 1, items);
        let ghost mid = order::views_of(children@);
        self.entries[idx].expanded = true;
        let ghost held = self.entries@;
        assert(order::views_of(held) =~= rows.update(
            idx as int,
            RowModel { expanded: true, ..rows[idx as int] },
        ));
        let mut tail = self.entries.split_off(idx + 1);
        let ghost (a, b, c) = (self.entries@, children@, tail@);
        self.entries.append(&mut children);
        self.entries.append(&mut tail);
        assert(order::views_of(self.entries@) =~= order::views_of(a) + mid + order::views_of(c));
        assert(order::views_of(a) =~= rows.take(idx as int) + seq![
            RowModel { expanded: true, ..rows[idx as int] },
        ]);
        assert(order::views_of(c) =~= rows.skip(idx + 1));
        assert(self@.rows =~= expanded_at(rows, idx as int, item_views(items@)));
    }

    fn collapse_at(&mut self, idx: usize)
        requires
            idx < old(self)@.rows.len(),
        ensures
            final(self)@ == (TreeModel {
                rows: collapsed_at(old(self)@.rows, idx as int),
                ..old(self)@
            }),
    {
        let ghost rows = self@.rows;
        let len: usize = self.entries.len();
        assert(idx < len);
        assert(rows[idx as int] == self.entries@[idx as int]@);
        let depth: usize = self.entries[idx].depth;
        self.entries[idx].expanded = false;
        let ghost held = self.entries@;
        let ghost front = rows.take(idx as int) + seq![
            RowModel { expanded: false, ..rows[idx as int] },
        ];
        assert(order::views_of(held) =~= front + rows.skip(idx + 1));
        let mut j: usize = idx + 1;
        while j < self.entries.len() && self.entries[j].depth > depth
            invariant
                idx < j <= self.entries@.len(),
                held == self.entries@,
                self.root@ == old(self).root@,
                self.cursor == old(self).cursor,
                self.top == old(self).top,
                self.focused == old(self).focused,
                rows == old(self)@.rows,
                rows.len() == held.len(),
                depth == rows[idx as int].depth,
                front == rows.take(idx as int) + seq![
                    RowModel { expanded: false, ..rows[idx as int] },
                ],
                order::views_of(held) == front + rows.skip(idx + 1),
                past_deeper(rows.skip(idx + 1), depth as int) == past_deeper(
                    rows.skip(j as int),
                    depth as int,
                ),
            decreases self.entries@.len() - j,
        {
            assert(order::views_of(held)[j as int] == held[j as int]@);
            assert(rows.skip(j as int)[0] == rows[j as int]);
            assert((front + rows.skip(idx + 1))[j as int] == rows[j as int]);
            assert(rows.skip(j as int).skip(1) =~= rows.skip(j + 1));
            j += 1;
        }
        proof {
            if j < held.len() {
                assert(order::views_of(held)[j as int] == held[j as int]@);
                assert((front + rows.skip(idx + 1))[j as int] == rows[j as int]);
                assert(rows.skip(j as int)[0] == rows[j as int]);
            }
            assert(past_deeper(rows.skip(idx + 1), depth as int) == rows.skip(j as int));
        }
        let mut tail = self.entries.split_off(j);
        let _ = self.entries.split_off(idx + 1);
        let ghost (a, c) = (self.entries@, tail@);
        self.entries.append(&mut tail);
        assert(order::views_of(self.entries@) =~= order::views_of(a) + order::views_of(c));
        assert(order::views_of(a) =~= front) by {
            assert forall|i: int| 0 <= i < front.len() implies order::views_of(a)[i]
                == front[i] by {
                assert(a[i] == held[i]);
                assert(order::views_of(held)[i] == held[i]@);
            }
        }
        assert(order::views_of(c) =~= rows.skip(j as int)) by {
            assert forall|i: int| 0 <= i < c.len() implies order::views_of(c)[i] == rows.skip(
                j as int,
            )[i] by {
                assert(c[i] == held[j + i]);
                assert(order::views_of(held)[j + i] == held[j + i]@);
                assert((front + rows.skip(idx + 1))[j + i] == rows[j + i]);
            }
        }
        assert(self@.rows =~= collapsed_at(rows, idx as int));
    }

    fn find_row(&self, path: &str, dirs: bool) -> (r: Option<usize>)
        ensures
            match r {
                Some(k) => place_from(self@.rows, path@, dirs, 0) == Some(k as int) && k
                    < self@.rows.len(),
                None => place_from(self@.rows, path@, dirs, 0) is None,
            },
    {
        let mut i: usize = 0;
        while i < self.entries.len()
            invariant
                i <= self.entries@.len(),
                place_from(self@.rows, path@, dirs, 0) == place_from(
                    self@.rows,
                    path@,
                    dirs,
                    i as int,
                ),
            decreases self.entries@.len() - i,
        {
            assert(self@.rows[i as int] == self.entries@[i as int]@);
            let e = &self.entries[i];
            if !e.is_parent_link && (e.is_dir || !dirs) && is_same_path(&e.path, path) {
                return Some(i);
            }
            i += 1;
        }
        None
    }

    fn enter(&mut self, dir: &str, listings: &Vec<Listing>) -> (r: bool)
        requires
            stepwise(old(self)@.rows),
        ensures
            (final(self)@.rows, r) == entered(old(self)@.rows, listings@, dir@),
            final(self)@ == (TreeModel { rows: final(self)@.rows, ..old(self)@ }),
    {
        reveal(entered);
        match self.find_row(dir, true) {
            None => false,
            Some(k) => {
                assert(self@.rows[k as int] == self.entries@[k as int]@);
                if !self.entries[k].expanded {
                    match find_listing(listings, &self.entries[k].path) {
                        Some(l) => self.expand_at(k, &listings[l].items),
                        None => {
                            let none: Vec<DirItem> = Vec::new();
                            assert(item_views(none@) =~= Seq::empty());
                            self.expand_at(k, &none)
                        },
                    }
                }
                true
            },
        }
    }

    /// Expands the directories on the way to `target`, an absolute path, and puts
    /// the cursor on its row. Says whether the row was found. `listings` is what
    /// the directories on the way hold.
    pub fn reveal_path(&mut self, target: &str, listings: &Vec<Listing>) -> (r: bool)
        requires
            tree_ok(old(self)@),
        ensures
            tree_ok(final(self)@),
            (final(self)@, r) == revealed(old(self)@, target@, listings@),
    {
        let names = match components_below(target, &self.root) {
            Some(names) => names,
            None => {
                return false;
            },
        };
        if names.len() == 0 {
            return false;
        }
        let ghost start = self@;
        let ghost all = scan::views(names@);
        let mut at = owned(&self.root);
        let last: usize = names.len() - 1;
        let mut i: usize = 0;
        while i < last
            invariant
                i <= last,
                last == names@.len() - 1,
                all == scan::views(names@),
                start == old(self)@,
                tree_ok(start),
                paths::below(target@, start.root) == Some(all),
                walked(start.rows, listings@, start.root, all, i as int) == (
                    self@.rows,
                    at@,
                    true,
                ),
                stepwise(self@.rows),
                self@ == (TreeModel { rows: self@.rows, ..start }),
                self@.rows.len() >= start.rows.len(),
            decreases last - i,
        {
            let name = to_text(&names[i]);
            assert(name@ == all[i as int]);
            at = join_paths(&at, &name);
            let ghost before = self@;
            proof {
                lemma_entered(before.rows, listings@, at@);
            }
            let found = self.enter(&at, listings);
            assert(walked(start.rows, listings@, start.root, all, i + 1) == (
                self@.rows,
                at@,
                found,
            ));
            if !found {
                proof {
                    lemma_walked_fails(start.rows, listings@, start.root, all, i + 1, last as int);
                }
                return false;
            }
            i += 1;
        }
        let name = to_text(&names[last]);
        assert(name@ == all.last());
        at = join_paths(&at, &name);
        proof {
            lemma_place_from(self@.rows, at@, false, 0);
        }
        match self.find_row(&at, false) {
            Some(k) => {
                self.cursor = k;
                true
            },
            None => false,
        }
    }

    /// Roots the tree one level up; `items` is what the directory there holds.
    pub fn ascend(&mut self, items: &Vec<DirItem>)
        requires
            tree_ok(old(self)@),
        ensures
            tree_ok(final(self)@),
            final(self)@ == ascended(old(self)@, item_views(items@)),
    {
        match parent_of(&self.root) {
            Some(p) => {
                proof {
                    lemma_root_rows(p@, item_views(items@));
                }
                self.entries = entries_for(&p, items);
                self.root = p;
                self.cursor = 0;
                self.top = 0;
            },
            None => {},
        }
    }

    /// Scrolls until the cursor is among the visible rows.
    pub fn scroll_into_view(&mut self, viewport: usize)
        requires
            tree_ok(old(self)@),
        ensures
            tree_ok(final(self)@),
            final(self)@ == (TreeModel {
                top: row_scrolled(old(self)@.top, old(self)@.cursor, viewport as int),
                ..old(self)@
            }),
    {
        if viewport == 0 {
            return;
        }
        if self.cursor < self.top {
            self.top = self.cursor;
        } else if self.cursor - self.top >= viewport {
            self.top = self.cursor - (viewport - 1);
        }
    }
}

/// Looking for a file keeps the tree in order.
pub proof fn lemma_revealed_ok(t: TreeModel, target: Seq<char>, ls: Seq<Listing>)
    requires
        tree_ok(t),
    ensures
        tree_ok(revealed(t, target, ls).0),
{
    match paths::below(target, t.root) {
        None => {},
        Some(names) => {
            if names.len() > 0 {
                lemma_walked(t.rows, ls, t.root, names, names.len() - 1);
                let (rows, at, found) = walked(t.rows, ls, t.root, names, names.len() - 1);
                lemma_place_from(rows, paths::join(at, names.last()), false, 0);
            }
        },
    }
}

/// A tree that nothing is expanded in is in order.
pub proof fn lemma_fresh_ok(root: Seq<char>, items: Seq<ItemModel>)
    ensures
        stepwise(root_rows(root, items)),
{
    lemma_root_rows(root, items);
}

/// The tree of a directory, going by the listings.
pub fn tree_from(root: String, listings: &Vec<Listing>) -> (r: FileTree)
    ensures
        tree_ok(r@),
        r@ == (TreeModel {
            root: root@,
            rows: root_rows(root@, listed_items(listings@, root@)),
            cursor: 0,
            top: 0,
            focused: false,
        }),
{
    match find_listing(listings, &root) {
        Some(k) => FileTree::new(root, &listings[k].items),
        None => {
            let none: Vec<DirItem> = Vec::new();
            assert(item_views(none@) =~= Seq::empty());
            FileTree::new(root, &none)
        },
    }
}

proof fn lemma_walked_fails(
    rows: Seq<RowModel>,
    ls: Seq<Listing>,
    root: Seq<char>,
    names: Seq<Seq<char>>,
    i: int,
    n: int,
)
    requires
        0 < i <= n,
        !walked(rows, ls, root, names, i).2,
    ensures
        walked(rows, ls, root, names, n) == walked(rows, ls, root, names, i),
    decreases n - i,
{
    if i < n {
        lemma_walked_fails(rows, ls, root, names, i, n - 1);
    }
}

/// The directories that lie on the way from the root to a file.
pub open spec fn dirs_between(root: Seq<char>, names: Seq<Seq<char>>, n: int) -> Seq<Seq<char>>
    decreases n,
{
    if n <= 0 {
        Seq::empty()
    } else {
        let before = dirs_between(root, names, n - 1);
        before.push(
            paths::join(
                if n == 1 {
                    root
                } else {
                    before.last()
                },
                names[n - 1],
            ),
        )
    }
}

/// The directories that `reveal_path` may expand on its way to `target`.
pub fn dirs_on_the_way(root: &str, target: &str) -> (r: Vec<String>)
    ensures
        scan::string_views(r@) == (match paths::below(target@, root@) {
            Some(names) => dirs_between(root@, names, names.len() - 1),
            None => Seq::empty(),
        }),
{
    let mut r: Vec<String> = Vec::new();
    assert(scan::string_views(r@) =~= Seq::empty());
    match components_below(target, root) {
        None => r,
        Some(names) => {
            let ghost all = scan::views(names@);
            let mut i: usize = 0;
            while i < names.len() && i + 1 < names.len()
                invariant
                    i <= names@.len(),
                    i + 1 <= names@.len() || names@.len() == 0,
                    all == scan::views(names@),
                    r@.len() == i,
                    scan::string_views(r@) == dirs_between(root@, all, i as int),
                decreases names@.len() - i,
            {
                let name = to_text(&names[i]);
                assert(name@ == all[i as int]);
                let ghost before = scan::string_views(r@);
                let next = if i == 0 {
                    join_paths(root, &name)
                } else {
                    assert(before.last() == r@[i - 1]@);
                    join_paths(&r[i - 1], &name)
                };
                r.push(next);
                assert(scan::string_views(r@) =~= before.push(next@));
                i += 1;
            }
            r
        },
    }
}

/// Where a project that `start`, an absolute path, lies in has its root: the
/// nearest directory with a `.git`, or `start` itself.
pub open spec fn project_root(start: Seq<char>, existing: Seq<Seq<char>>) -> Seq<char> {
    match paths::nearest_marked(start, seq![".git"], existing) {
        Some(d) => d,
        None => start,
    }
}

/// The root of the project that `start` lies in, going by the paths that exist.
pub fn project_root_for(start: &str, existing: &Vec<String>) -> (r: String)
    ensures
        r@ == project_root(start@, scan::string_views(existing@)),
{
    let markers: Vec<&'static str> = vec![".git"];
    assert(markers@ =~= seq![".git"]);
    match find_marked(start, &markers, existing) {
        Some(d) => d,
        None => owned(start),
    }
}

} // verus!
