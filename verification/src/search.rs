//! Finding files and lines under a directory: what is skipped, what matches, and
//! in which order the finds are listed.

use vstd::prelude::*;

use crate::order;
use crate::order::{chars_le, sort, Ranked};
use crate::paths;
use crate::paths::{components_of, join_paths, relative_path};
use crate::scan;
use crate::scan::{find_chars, split_lines, trim_bounds};
use crate::text;
use crate::text::{byte_len, lower_ascii_chars, owned, same, substring, to_chars};
use crate::tree;
use crate::tree::DirItem;

pub mod found;
pub mod laws;

verus! {

/// The most hits that a text search lists.
pub const TEXT_SEARCH_MAX_HITS: usize = 500;

/// The largest file that a text search looks into.
pub const TEXT_SEARCH_MAX_FILE_BYTES: u64 = 1_000_000;

/// The most characters of a line that are shown.
pub const TEXT_SEARCH_PREVIEW_CHARS: usize = 200;

/// The most files that a walk gathers.
pub const WALK_MAX_FILES: usize = 20_000;

// ------------------------------------------------------------------ path order

/// The rank of a component: the root, then `.`, then `..`, then names.
pub open spec fn component_rank(c: Seq<char>) -> int {
    if c == "/"@ {
        0
    } else if c == "."@ {
        1
    } else if c == ".."@ {
        2
    } else {
        3
    }
}

pub open spec fn component_le(a: Seq<char>, b: Seq<char>) -> bool {
    if component_rank(a) != component_rank(b) {
        component_rank(a) < component_rank(b)
    } else {
        order::text_le(a, b)
    }
}

/// Component by component, the shorter before the longer.
pub open spec fn components_le(a: Seq<Seq<char>>, b: Seq<Seq<char>>) -> bool
    decreases a.len(),
{
    if a.len() == 0 {
        true
    } else if b.len() == 0 {
        false
    } else if a[0] == b[0] {
        components_le(a.skip(1), b.skip(1))
    } else {
        component_le(a[0], b[0])
    }
}

/// Path `a` may stand before path `b`.
pub open spec fn path_le(a: Seq<char>, b: Seq<char>) -> bool {
    components_le(paths::components(a), paths::components(b))
}

fn rank_component(c: &[char]) -> (r: u8)
    ensures
        r == component_rank(c@),
{
    proof {
        reveal_strlit("/");
        reveal_strlit(".");
        reveal_strlit("..");
    }
    if c.len() == 1 && c[0] == '/' {
        assert(c@ =~= "/"@);
        0
    } else if c.len() == 1 && c[0] == '.' {
        assert(c@ =~= "."@);
        1
    } else if c.len() == 2 && c[0] == '.' && c[1] == '.' {
        assert(c@ =~= ".."@);
        2
    } else {
        3
    }
}

/// Path `a` may stand before path `b`.
pub fn path_before(a: &str, b: &str) -> (r: bool)
    ensures
        r == path_le(a@, b@),
{
    let x = components_of(a);
    let y = components_of(b);
    let ghost (p, q) = (paths::components(a@), paths::components(b@));
    let mut i: usize = 0;
    assert(p.skip(0) =~= p && q.skip(0) =~= q);
    while i < x.len() && i < y.len()
        invariant
            i <= x@.len(),
            i <= y@.len(),
            p == scan::views(x@),
            q == scan::views(y@),
            p == paths::components(a@),
            q == paths::components(b@),
            components_le(p, q) == components_le(p.skip(i as int), q.skip(i as int)),
        decreases x@.len() - i,
    {
        assert(p.skip(i as int)[0] == x@[i as int]@);
        assert(q.skip(i as int)[0] == y@[i as int]@);
        if !text::same_chars(&x[i], &y[i]) {
            let (m, n) = (rank_component(&x[i]), rank_component(&y[i]));
            return if m != n {
                m < n
            } else {
                chars_le(&x[i], &y[i])
            };
        }
        assert(p.skip(i as int).skip(1) =~= p.skip(i + 1));
        assert(q.skip(i as int).skip(1) =~= q.skip(i + 1));
        i += 1;
    }
    i == x.len()
}

// -------------------------------------------------------------------- walking

/// The directories that a walk leaves out, besides hidden ones.
pub open spec fn junk(name: Seq<char>) -> bool {
    ||| name == "target"@
    ||| name == "node_modules"@
    ||| name == "dist"@
    ||| name == "build"@
    ||| name == "vendor"@
    ||| name == "venv"@
    ||| name == "__pycache__"@
}

/// A walk leaves out items with this name.
pub open spec fn left_out(name: Seq<char>) -> bool {
    tree::hidden(name) || junk(name)
}

/// Says whether a walk leaves out items with a name.
pub fn is_left_out(name: &str) -> (r: bool)
    ensures
        r == left_out(name@),
{
    let cs = to_chars(name);
    (cs.len() > 0 && cs[0] == '.') || same(name, "target") || same(name, "node_modules") || same(
        name,
        "dist",
    ) || same(name, "build") || same(name, "vendor") || same(name, "venv") || same(
        name,
        "__pycache__",
    )
}

/// The paths of a directory's items of one sort, without those left out.
pub open spec fn kept(dir: Seq<char>, items: Seq<tree::ItemModel>, dirs: bool) -> Seq<Seq<char>>
    decreases items.len(),
{
    if items.len() == 0 {
        Seq::empty()
    } else {
        let before = kept(dir, items.drop_last(), dirs);
        if items.last().1 == dirs && !left_out(items.last().0) {
            before.push(paths::join(dir, items.last().0))
        } else {
            before
        }
    }
}

/// A walk over the directories under a root. The directory that was found last is
/// looked at next.
pub struct Walk {
    pub root: String,
    pub stack: Vec<String>,
}

impl Walk {
    /// A walk that is to start at `root`.
    pub fn new(root: &str) -> (r: Walk)
        ensures
            r.root@ == root@,
            scan::string_views(r.stack@) == seq![root@],
    {
        let stack = vec![owned(root)];
        assert(scan::string_views(stack@) =~= seq![root@]);
        Walk { root: owned(root), stack }
    }

    /// The directory to look at next.
    pub fn next_dir(&mut self) -> (r: Option<String>)
        ensures
            final(self).root@ == old(self).root@,
            match r {
                Some(d) => {
                    let before = scan::string_views(old(self).stack@);
                    &&& before.len() > 0
                    &&& d@ == before.last()
                    &&& scan::string_views(final(self).stack@) == before.drop_last()
                },
                None => {
                    &&& old(self).stack@.len() == 0
                    &&& final(self).stack@ == old(self).stack@
                },
            },
    {
        let ghost before = scan::string_views(self.stack@);
        let r = self.stack.pop();
        assert(r is Some ==> scan::string_views(self.stack@) =~= before.drop_last());
        r
    }

    /// Takes note of what a directory holds, and gives the paths of its files.
    pub fn visit(&mut self, dir: &str, items: &Vec<DirItem>) -> (r: Vec<String>)
        ensures
            final(self).root@ == old(self).root@,
            scan::string_views(r@) == kept(dir@, tree::item_views(items@), false),
            scan::string_views(final(self).stack@) == scan::string_views(old(self).stack@) + kept(
                dir@,
                tree::item_views(items@),
                true,
            ),
    {
        let ghost all = tree::item_views(items@);
        let ghost held = scan::string_views(self.stack@);
        let mut files: Vec<String> = Vec::new();
        let mut i: usize = 0;
        assert(scan::string_views(files@) =~= kept(dir@, all.take(0), false));
        assert(scan::string_views(self.stack@) =~= held + kept(dir@, all.take(0), true));
        while i < items.len()
            invariant
                all == tree::item_views(items@),
                held == scan::string_views(old(self).stack@),
                self.root@ == old(self).root@,
                i <= items@.len(),
                scan::string_views(files@) == kept(dir@, all.take(i as int), false),
                scan::string_views(self.stack@) == held + kept(dir@, all.take(i as int), true),
            decreases items@.len() - i,
        {
            let item = &items[i];
            let ghost (fs, ds) = (scan::string_views(files@), scan::string_views(self.stack@));
            assert(all.take(i + 1).drop_last() =~= all.take(i as int));
            assert(all.take(i + 1).last() == (item.name@, item.is_dir));
            if !is_left_out(&item.name) {
                let path = join_paths(dir, &item.name);
                let ghost p = path@;
                if item.is_dir {
                    self.stack.push(path);
                    assert(scan::string_views(self.stack@) =~= ds.push(p));
                    assert(ds.push(p) =~= held + kept(dir@, all.take(i + 1), true));
                } else {
                    files.push(path);
                    assert(scan::string_views(files@) =~= fs.push(p));
                }
            }
            i += 1;
        }
        assert(all.take(i as int) =~= all);
        files
    }
}

// ------------------------------------------------------------------------ files

/// A path that sorts as one.
pub struct PathText {
    pub path: String,
}

impl View for PathText {
    type V = Seq<char>;

    open spec fn view(&self) -> Seq<char> {
        self.path@
    }
}

impl Ranked for PathText {
    open spec fn rank_le(self, other: PathText) -> bool {
        path_le(self@, other@)
    }

    fn ranks_before(&self, other: &PathText) -> bool {
        path_before(&self.path, &other.path)
    }
}

/// Paths in the order of paths.
pub open spec fn sorted_paths(ps: Seq<Seq<char>>) -> Seq<Seq<char>> {
    order::sorted_by(ps, |a: Seq<char>, b: Seq<char>| path_le(a, b))
}

proof fn lemma_component_order(a: Seq<char>, b: Seq<char>, c: Seq<char>)
    ensures
        component_le(a, b) || component_le(b, a),
        component_le(a, b) && component_le(b, a) ==> a == b,
        component_le(a, b) && component_le(b, c) ==> component_le(a, c),
{
    order::lemma_text_le_total(a, b);
    if order::text_le(a, b) && order::text_le(b, c) {
        order::lemma_text_le_transitive(a, b, c);
    }
}

proof fn lemma_components_order(a: Seq<Seq<char>>, b: Seq<Seq<char>>, c: Seq<Seq<char>>)
    ensures
        components_le(a, b) || components_le(b, a),
        components_le(a, b) && components_le(b, c) ==> components_le(a, c),
    decreases a.len() + b.len() + c.len(),
{
    if a.len() > 0 && b.len() > 0 {
        let z = if c.len() > 0 {
            c.skip(1)
        } else {
            c
        };
        lemma_components_order(a.skip(1), b.skip(1), z);
        lemma_component_order(a[0], b[0], c[0]);
    }
}

/// The order of paths is total and transitive.
pub proof fn lemma_path_order(a: Seq<char>, b: Seq<char>, c: Seq<char>)
    ensures
        path_le(a, b) || path_le(b, a),
        path_le(a, b) && path_le(b, c) ==> path_le(a, c),
{
    lemma_components_order(paths::components(a), paths::components(b), paths::components(c));
}

/// Sorted paths stand in the order of paths, component by component, and are the
/// paths that there were.
pub proof fn law_paths_are_sorted(ps: Seq<Seq<char>>)
    ensures
        order::ordered_by(sorted_paths(ps), |a: Seq<char>, b: Seq<char>| path_le(a, b)),
        sorted_paths(ps).to_multiset() == ps.to_multiset(),
{
    let le = |a: Seq<char>, b: Seq<char>| path_le(a, b);
    assert forall|a: Seq<char>, b: Seq<char>| #[trigger] le(a, b) || le(b, a) by {
        lemma_path_order(a, b, a);
    }
    assert forall|a: Seq<char>, b: Seq<char>, c: Seq<char>|
        #![trigger le(a, b), le(b, c)]
        le(a, b) && le(b, c) implies le(a, c) by {
        lemma_path_order(a, b, c);
    }
    order::law_sorting_by(ps, le);
}

/// Sorts paths.
pub fn sort_paths(ps: Vec<String>) -> (r: Vec<String>)
    ensures
        scan::string_views(r@) == sorted_paths(scan::string_views(ps@)),
{
    let ghost all = scan::string_views(ps@);
    let mut held: Vec<PathText> = Vec::new();
    let mut rest = ps;
    while rest.len() > 0
        invariant
            rest@.len() <= all.len(),
            held@.len() == all.len() - rest@.len(),
            forall|i: int| 0 <= i < rest@.len() ==> (#[trigger] rest@[i])@ == all[i
                + held@.len()],
            order::views_of(held@) == all.take(held@.len() as int),
        decreases rest@.len(),
    {
        let ghost before = order::views_of(held@);
        let ghost old_rest = rest@;
        let p = rest.remove(0);
        let ghost k = held@.len() as int;
        held.push(PathText { path: p });
        assert(order::views_of(held@) =~= before.push(all[k as int]));
        assert(all.take(k + 1) =~= before.push(all[k as int]));
        assert forall|i: int| 0 <= i < rest@.len() implies (#[trigger] rest@[i])@ == all[i + k
            + 1] by {
            assert(rest@[i] == old_rest[i + 1]);
        }
    }
    assert(all.take(all.len() as int) =~= all);
    proof {
        order::lemma_sorted_views(held@, |a: Seq<char>, b: Seq<char>| path_le(a, b));
    }
    let mut sorted = sort(held);
    let ghost goal = order::views_of(sorted@);
    let mut r: Vec<String> = Vec::new();
    while sorted.len() > 0
        invariant
            sorted@.len() <= goal.len(),
            r@.len() == goal.len() - sorted@.len(),
            forall|i: int| 0 <= i < sorted@.len() ==> (#[trigger] sorted@[i])@ == goal[i + r@.len()],
            scan::string_views(r@) == goal.take(r@.len() as int),
        decreases sorted@.len(),
    {
        let ghost before = scan::string_views(r@);
        let ghost old_sorted = sorted@;
        let p = sorted.remove(0);
        let ghost k = r@.len() as int;
        r.push(p.path);
        assert(scan::string_views(r@) =~= before.push(goal[k as int]));
        assert(goal.take(k + 1) =~= before.push(goal[k as int]));
        assert forall|i: int| 0 <= i < sorted@.len() implies (#[trigger] sorted@[i])@ == goal[i + k
            + 1] by {
            assert(sorted@[i] == old_sorted[i + 1]);
        }
    }
    assert(goal.take(goal.len() as int) =~= goal);
    r
}

/// Paths relative to a root.
pub open spec fn relative_all(ps: Seq<Seq<char>>, root: Seq<char>) -> Seq<Seq<char>> {
    Seq::new(ps.len(), |i: int| paths::relative_to(ps[i], root))
}

/// The first paths of a list, no more than a walk may gather.
pub open spec fn capped(ps: Seq<Seq<char>>) -> Seq<Seq<char>> {
    if ps.len() > WALK_MAX_FILES {
        ps.take(WALK_MAX_FILES as int)
    } else {
        ps
    }
}

/// The files that a walk has come upon, relative to its root.
pub struct FileWalk {
    pub walk: Walk,
    pub files: Vec<String>,
}

impl FileWalk {
    /// There are no more files than a walk may gather.
    pub open spec fn bounded(&self) -> bool {
        self.files@.len() <= WALK_MAX_FILES
    }

    pub fn new(root: &str) -> (r: FileWalk)
        ensures
            r.walk.root@ == root@,
            scan::string_views(r.walk.stack@) == seq![root@],
            r.files@.len() == 0,
            r.bounded(),
    {
        FileWalk { walk: Walk::new(root), files: Vec::new() }
    }

    /// The directory to look at next; none once there are enough files.
    pub fn next_dir(&mut self) -> (r: Option<String>)
        requires
            old(self).bounded(),
        ensures
            final(self).bounded(),
            final(self).files@ == old(self).files@,
            final(self).walk.root@ == old(self).walk.root@,
            ({
                let before = scan::string_views(old(self).walk.stack@);
                &&& scan::string_views(final(self).walk.stack@) == (if before.len() == 0 {
                    before
                } else {
                    before.drop_last()
                })
                &&& match r {
                    Some(d) => {
                        &&& before.len() > 0
                        &&& old(self).files@.len() < WALK_MAX_FILES
                        &&& d@ == before.last()
                    },
                    None => before.len() == 0 || old(self).files@.len() == WALK_MAX_FILES,
                }
            }),
    {
        match self.walk.next_dir() {
            Some(d) => if self.files.len() >= WALK_MAX_FILES {
                None
            } else {
                Some(d)
            },
            None => None,
        }
    }

    /// Takes note of what a directory holds, until there are enough files.
    pub fn visit(&mut self, dir: &str, items: &Vec<DirItem>)
        requires
            old(self).bounded(),
        ensures
            final(self).bounded(),
            final(self).walk.root@ == old(self).walk.root@,
            scan::string_views(final(self).files@) == capped(
                scan::string_views(old(self).files@) + relative_all(
                    kept(dir@, tree::item_views(items@), false),
                    old(self).walk.root@,
                ),
            ),
            scan::string_views(final(self).walk.stack@) == scan::string_views(
                old(self).walk.stack@,
            ) + kept(dir@, tree::item_views(items@), true),
    {
        let found = self.walk.visit(dir, items);
        let ghost goal = relative_all(scan::string_views(found@), self.walk.root@);
        let ghost held = scan::string_views(self.files@);
        let mut i: usize = 0;
        assert(held =~= held + goal.take(0));
        while i < found.len() && self.files.len() < WALK_MAX_FILES
            invariant
                i <= found@.len(),
                self.bounded(),
                goal == relative_all(scan::string_views(found@), self.walk.root@),
                scan::string_views(self.files@) == held + goal.take(i as int),
                self.walk.root@ == old(self).walk.root@,
                scan::string_views(self.walk.stack@) == scan::string_views(old(self).walk.stack@)
                    + kept(dir@, tree::item_views(items@), true),
            decreases found@.len() - i,
        {
            let ghost before = scan::string_views(self.files@);
            self.files.push(relative_path(&found[i], &self.walk.root));
            assert(scan::string_views(self.files@) =~= before.push(goal[i as int]));
            i += 1;
            assert(before.push(goal[i - 1]) =~= held + goal.take(i as int));
        }
        if i == found.len() {
            assert(goal.take(i as int) =~= goal);
        } else {
            assert((held + goal).take(WALK_MAX_FILES as int) =~= held + goal.take(i as int));
        }
        assert(scan::string_views(self.files@) =~= capped(held + goal));
    }

    /// The files, in the order of paths, no more than a walk may gather.
    pub fn finish(self) -> (r: Vec<String>)
        requires
            self.bounded(),
        ensures
            r@.len() <= WALK_MAX_FILES,
            scan::string_views(r@) == sorted_paths(scan::string_views(self.files@)),
    {
        let ghost held = scan::string_views(self.files@);
        let r = sort_paths(self.files);
        proof {
            order::lemma_sorted_by_len(held, |a: Seq<char>, b: Seq<char>| path_le(a, b));
            assert(scan::string_views(r@).len() == r@.len());
        }
        r
    }
}

/// A file by its place in a list, and where the query stands in its path.
#[derive(Clone, Copy)]
pub struct Scored {
    pub index: usize,
    pub at: usize,
}

impl View for Scored {
    type V = (int, int);

    open spec fn view(&self) -> (int, int) {
        (self.index as int, self.at as int)
    }
}

impl Ranked for Scored {
    open spec fn rank_le(self, other: Scored) -> bool {
        self.at <= other.at
    }

    fn ranks_before(&self, other: &Scored) -> bool {
        self.at <= other.at
    }
}

/// Where `query` stands in `path`, in bytes, without regard to case.
pub open spec fn score(path: Seq<char>, query: Seq<char>) -> Option<int> {
    let low = text::unicode_lower(path);
    match scan::find(low, text::unicode_lower(query)) {
        Some(i) => Some(text::utf8_len(low.take(i)) as int),
        None => None,
    }
}

/// The files among the first `n` that hold the query, with their scores.
pub open spec fn scored(files: Seq<Seq<char>>, query: Seq<char>, n: int) -> Seq<(int, int)>
    decreases n,
{
    if n <= 0 {
        Seq::empty()
    } else {
        let before = scored(files, query, n - 1);
        match score(files[n - 1], query) {
            Some(at) => before.push((n - 1, at)),
            None => before,
        }
    }
}

pub open spec fn firsts(s: Seq<(int, int)>) -> Seq<int> {
    Seq::new(s.len(), |i: int| s[i].0)
}

/// The files that hold the query, those that hold it earlier first; without a
/// query all of them.
pub open spec fn matching(files: Seq<Seq<char>>, query: Seq<char>) -> Seq<int> {
    if query.len() == 0 {
        Seq::new(files.len(), |i: int| i)
    } else {
        firsts(
            order::sorted_by(
                scored(files, query, files.len() as int),
                |a: (int, int), b: (int, int)| a.1 <= b.1,
            ),
        )
    }
}

pub open spec fn index_ints(v: Seq<usize>) -> Seq<int> {
    Seq::new(v.len(), |i: int| v[i] as int)
}

spec fn all_below(s: Seq<(int, int)>, n: int) -> bool {
    forall|i: int| 0 <= i < s.len() ==> 0 <= (#[trigger] s[i]).0 < n
}

proof fn lemma_scored_bound(files: Seq<Seq<char>>, query: Seq<char>, n: int)
    ensures
        n >= 0 ==> all_below(scored(files, query, n), n),
    decreases n,
{
    if n > 0 {
        lemma_scored_bound(files, query, n - 1);
    }
}

proof fn lemma_insert_below(s: Seq<(int, int)>, x: (int, int), n: int)
    requires
        all_below(s, n),
        0 <= x.0 < n,
    ensures
        all_below(order::insert_by(s, x, |a: (int, int), b: (int, int)| a.1 <= b.1), n),
    decreases s.len(),
{
    if s.len() > 0 && !(s.last().1 <= x.1) {
        lemma_insert_below(s.drop_last(), x, n);
    }
}

proof fn lemma_sorted_below(s: Seq<(int, int)>, n: int)
    requires
        all_below(s, n),
    ensures
        all_below(order::sorted_by(s, |a: (int, int), b: (int, int)| a.1 <= b.1), n),
    decreases s.len(),
{
    if s.len() > 0 {
        lemma_sorted_below(s.drop_last(), n);
        lemma_insert_below(
            order::sorted_by(s.drop_last(), |a: (int, int), b: (int, int)| a.1 <= b.1),
            s.last(),
            n,
        );
    }
}

/// Every match is a file of the list.
pub proof fn law_matches_are_files(files: Seq<Seq<char>>, query: Seq<char>)
    ensures
        forall|i: int|
            0 <= i < matching(files, query).len() ==> 0 <= #[trigger] matching(files, query)[i]
                < files.len(),
{
    let n = files.len() as int;
    if query.len() > 0 {
        lemma_scored_bound(files, query, n);
        lemma_sorted_below(scored(files, query, n), n);
    }
}

fn score_of(path: &str, query: &str) -> (r: Option<usize>)
    ensures
        match r {
            Some(at) => score(path@, query@) == Some(at as int),
            None => score(path@, query@) is None,
        },
{
    let low = path.to_lowercase();
    let cs = to_chars(&low);
    let q = to_chars(&query.to_lowercase());
    match find_chars(&cs, &q, 0) {
        Some(i) => {
            let head = substring(&cs, 0, i);
            assert(head@ =~= low@.take(i as int));
            Some(byte_len(&head))
        },
        None => None,
    }
}

/// The files that hold a query, best first.
pub fn filter_files(files: &Vec<String>, query: &str) -> (r: Vec<usize>)
    ensures
        index_ints(r@) == matching(scan::string_views(files@), query@),
{
    let ghost all = scan::string_views(files@);
    let none = to_chars(query).len() == 0;
    let mut r: Vec<usize> = Vec::new();
    let mut i: usize = 0;
    if none {
        while i < files.len()
            invariant
                i <= files@.len(),
                r@.len() == i,
                forall|k: int| 0 <= k < i ==> r@[k] == k,
            decreases files@.len() - i,
        {
            r.push(i);
            i += 1;
        }
        assert(index_ints(r@) =~= matching(all, query@));
        return r;
    }
    let mut found: Vec<Scored> = Vec::new();
    assert(order::views_of(found@) =~= scored(all, query@, 0));
    while i < files.len()
        invariant
            all == scan::string_views(files@),
            i <= files@.len(),
            order::views_of(found@) == scored(all, query@, i as int),
        decreases files@.len() - i,
    {
        let ghost before = order::views_of(found@);
        match score_of(&files[i], query) {
            Some(at) => {
                found.push(Scored { index: i, at });
                assert(order::views_of(found@) =~= before.push((i as int, at as int)));
            },
            None => {},
        }
        i += 1;
    }
    proof {
        order::lemma_sorted_views(found@, |a: (int, int), b: (int, int)| a.1 <= b.1);
    }
    let sorted = sort(found);
    let ghost pairs = order::views_of(sorted@);
    i = 0;
    while i < sorted.len()
        invariant
            i <= sorted@.len(),
            pairs == order::views_of(sorted@),
            index_ints(r@) == firsts(pairs).take(i as int),
        decreases sorted@.len() - i,
    {
        let ghost before = index_ints(r@);
        r.push(sorted[i].index);
        assert(index_ints(r@) =~= before.push(pairs[i as int].0));
        i += 1;
        assert(firsts(pairs).take(i as int) =~= before.push(pairs[i - 1].0));
    }
    assert(firsts(pairs).take(i as int) =~= firsts(pairs));
    r
}

// ------------------------------------------------------------------------ lines

/// One line that holds what was searched for.
#[derive(Debug)]
pub struct TextHit {
    /// The file, relative to where the search started.
    pub path: String,
    /// The line, counted from zero.
    pub line: usize,
    /// The column of the first occurrence.
    pub col: usize,
    /// The line as it is shown.
    pub preview: String,
}

/// What a hit is.
pub struct HitModel {
    pub path: Seq<char>,
    pub line: nat,
    pub col: nat,
    pub preview: Seq<char>,
}

impl View for TextHit {
    type V = HitModel;

    open spec fn view(&self) -> HitModel {
        HitModel {
            path: self.path@,
            line: self.line as nat,
            col: self.col as nat,
            preview: self.preview@,
        }
    }
}

impl TextHit {
    /// A copy.
    pub fn duplicate(&self) -> (r: TextHit)
        ensures
            r@ == self@,
    {
        TextHit {
            path: owned(&self.path),
            line: self.line,
            col: self.col,
            preview: owned(&self.preview),
        }
    }
}

/// By path, then by line.
pub open spec fn hit_le(a: HitModel, b: HitModel) -> bool {
    if path_le(a.path, b.path) && path_le(b.path, a.path) {
        a.line <= b.line
    } else {
        path_le(a.path, b.path)
    }
}

impl Ranked for TextHit {
    open spec fn rank_le(self, other: TextHit) -> bool {
        hit_le(self@, other@)
    }

    fn ranks_before(&self, other: &TextHit) -> bool {
        let (m, n) = (
            path_before(&self.path, &other.path),
            path_before(&other.path, &self.path),
        );
        if m && n {
            self.line <= other.line
        } else {
            m
        }
    }
}

/// Where `needle` stands in `s`, without regard to the case of ASCII letters.
pub open spec fn find_folded(s: Seq<char>, needle: Seq<char>) -> Option<int> {
    scan::find(text::ascii_lower_all(s), text::ascii_lower_all(needle))
}

fn find_folded_chars(s: &[char], needle: &[char]) -> (r: Option<usize>)
    ensures
        match r {
            Some(i) => find_folded(s@, needle@) == Some(i as int) && i <= s@.len(),
            None => find_folded(s@, needle@) is None,
        },
{
    find_chars(&lower_ascii_chars(s), &lower_ascii_chars(needle), 0)
}

/// Where `needle` stands in `haystack`, in bytes, without regard to the case of
/// ASCII letters.
pub fn find_ignore_ascii_case(haystack: &str, needle: &str) -> (r: Option<usize>)
    ensures
        match r {
            Some(at) => find_folded(haystack@, needle@) matches Some(i) && at == text::utf8_len(
                haystack@.take(i),
            ),
            None => find_folded(haystack@, needle@) is None,
        },
{
    let cs = to_chars(haystack);
    match find_folded_chars(&cs, &to_chars(needle)) {
        Some(i) => {
            let head = substring(&cs, 0, i);
            assert(head@ =~= haystack@.take(i as int));
            Some(byte_len(&head))
        },
        None => None,
    }
}

/// A line as it is shown: without whitespace around it, and not too long.
pub open spec fn preview_of(line: Seq<char>) -> Seq<char> {
    let t = scan::trim(line);
    if t.len() > TEXT_SEARCH_PREVIEW_CHARS {
        t.take(TEXT_SEARCH_PREVIEW_CHARS as int)
    } else {
        t
    }
}

fn preview_chars(cs: &[char]) -> (r: String)
    ensures
        r@ == preview_of(cs@),
{
    let (a, b) = trim_bounds(cs);
    let end: usize = if b - a > TEXT_SEARCH_PREVIEW_CHARS {
        a + TEXT_SEARCH_PREVIEW_CHARS
    } else {
        b
    };
    let r = substring(cs, a, end);
    assert(r@ =~= preview_of(cs@));
    r
}

/// A line as it is shown.
pub fn preview_line(line: &str) -> (r: String)
    ensures
        r@ == preview_of(line@),
{
    preview_chars(&to_chars(line))
}

/// The hits after the first `n` lines of a file, on top of those there were; with
/// as many as are listed at most nothing more is looked at.
pub open spec fn hits_upto(
    before: Seq<HitModel>,
    path: Seq<char>,
    ls: Seq<Seq<char>>,
    needle: Seq<char>,
    n: int,
) -> Seq<HitModel>
    decreases n,
{
    if n <= 0 {
        before
    } else {
        let hits = hits_upto(before, path, ls, needle, n - 1);
        if hits.len() >= TEXT_SEARCH_MAX_HITS {
            hits
        } else {
            match find_folded(ls[n - 1], needle) {
                Some(col) => hits.push(
                    HitModel { path, line: (n - 1) as nat, col: col as nat, preview: preview_of(ls[n - 1]) },
                ),
                None => hits,
            }
        }
    }
}

/// A search for a text under a root.
pub struct Grep {
    pub walk: Walk,
    pub needle: String,
    pub hits: Vec<TextHit>,
}

/// The hits after a file was looked at.
pub open spec fn file_hits(
    before: Seq<HitModel>,
    root: Seq<char>,
    needle: Seq<char>,
    path: Seq<char>,
    bytes: u64,
    contents: Seq<char>,
) -> Seq<HitModel> {
    if before.len() >= TEXT_SEARCH_MAX_HITS || bytes > TEXT_SEARCH_MAX_FILE_BYTES || needle.len()
        == 0 {
        before
    } else {
        let ls = scan::lines(contents);
        hits_upto(before, paths::relative_to(path, root), ls, needle, ls.len() as int)
    }
}

/// Hits in the order they are listed.
pub open spec fn sorted_hits(hits: Seq<HitModel>) -> Seq<HitModel> {
    order::sorted_by(hits, |a: HitModel, b: HitModel| hit_le(a, b))
}

impl Grep {
    pub fn new(root: &str, query: &str) -> (r: Grep)
        ensures
            r.walk.root@ == root@,
            scan::string_views(r.walk.stack@) == seq![root@],
            r.needle@ == text::unicode_lower(query@),
            r.hits@.len() == 0,
    {
        Grep { walk: Walk::new(root), needle: query.to_lowercase(), hits: Vec::new() }
    }

    /// As many hits as are listed at most were found.
    pub fn capped(&self) -> (r: bool)
        ensures
            r == (self.hits@.len() >= TEXT_SEARCH_MAX_HITS),
    {
        self.hits.len() >= TEXT_SEARCH_MAX_HITS
    }

    /// Whether a file of `bytes` bytes is looked into.
    pub fn looks_into(&self, bytes: u64) -> (r: bool)
        ensures
            r == (self.hits@.len() < TEXT_SEARCH_MAX_HITS && bytes <= TEXT_SEARCH_MAX_FILE_BYTES
                && self.needle@.len() > 0),
    {
        !self.capped() && bytes <= TEXT_SEARCH_MAX_FILE_BYTES && to_chars(&self.needle).len() > 0
    }

    /// Looks at a file of `bytes` bytes.
    pub fn add_file(&mut self, path: &str, bytes: u64, contents: &str)
        ensures
            final(self).walk == old(self).walk,
            final(self).needle@ == old(self).needle@,
            order::views_of(final(self).hits@) == file_hits(
                order::views_of(old(self).hits@),
                old(self).walk.root@,
                old(self).needle@,
                path@,
                bytes,
                contents@,
            ),
    {
        if !self.looks_into(bytes) {
            return;
        }
        let needle = to_chars(&self.needle);
        let rel = relative_path(path, &self.walk.root);
        let found = split_lines(&to_chars(contents));
        let ghost ls = scan::views(found@);
        let ghost start = order::views_of(self.hits@);
        let mut i: usize = 0;
        while i < found.len() && self.hits.len() < TEXT_SEARCH_MAX_HITS
            invariant
                i <= found@.len(),
                ls == scan::views(found@),
                ls == scan::lines(contents@),
                needle@ == self.needle@,
                self.walk == old(self).walk,
                self.needle == old(self).needle,
                rel@ == paths::relative_to(path@, old(self).walk.root@),
                order::views_of(self.hits@) == hits_upto(start, rel@, ls, needle@, i as int),
            decreases found@.len() - i,
        {
            let ghost before = order::views_of(self.hits@);
            assert(ls[i as int] == found@[i as int]@);
            match find_folded_chars(&found[i], &needle) {
                Some(col) => {
                    let preview = preview_chars(&found[i]);
                    self.hits.push(TextHit { path: owned(&rel), line: i, col, preview });
                    assert(order::views_of(self.hits@) =~= before.push(
                        HitModel {
                            path: rel@,
                            line: i as nat,
                            col: col as nat,
                            preview: preview_of(ls[i as int]),
                        },
                    ));
                },
                None => {},
            }
            i += 1;
        }
        proof {
            lemma_hits_full(start, rel@, ls, needle@, i as int, ls.len() as int);
        }
    }

    /// The hits, in the order they are listed.
    pub fn finish(self) -> (r: Vec<TextHit>)
        ensures
            order::views_of(r@) == sorted_hits(order::views_of(self.hits@)),
    {
        proof {
            order::lemma_sorted_views(self.hits@, |a: HitModel, b: HitModel| hit_le(a, b));
        }
        sort(self.hits)
    }
}

proof fn lemma_hits_full(
    before: Seq<HitModel>,
    path: Seq<char>,
    ls: Seq<Seq<char>>,
    needle: Seq<char>,
    i: int,
    n: int,
)
    requires
        0 <= i <= n,
        i < n ==> hits_upto(before, path, ls, needle, i).len() >= TEXT_SEARCH_MAX_HITS,
    ensures
        hits_upto(before, path, ls, needle, n) == hits_upto(before, path, ls, needle, i),
    decreases n - i,
{
    if i < n {
        lemma_hits_full(before, path, ls, needle, i, n - 1);
    }
}

} // verus!
