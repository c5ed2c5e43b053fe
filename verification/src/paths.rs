//! Slash-separated file paths as text: components, parent, file name and
//! extension.
//!
//! Repeated slashes and `.` components carry no meaning, except that a leading
//! `.` is a component of its own.

use vstd::prelude::*;

use crate::scan;
use crate::scan::{join_chars, split_chars, sub_chars};
use crate::text::{owned, same, same_chars, substring, to_chars};

pub mod laws;

verus! {

pub open spec fn absolute(s: Seq<char>) -> bool {
    s.len() > 0 && s[0] == '/'
}

/// The path is `.` or starts with `./`.
pub open spec fn leading_dot(s: Seq<char>) -> bool {
    s.len() > 0 && s[0] == '.' && (s.len() == 1 || s[1] == '/')
}

/// Where the ordinary components start: after the root or the leading dot.
pub open spec fn body_start(s: Seq<char>) -> int {
    if absolute(s) || leading_dot(s) {
        1
    } else {
        0
    }
}

/// Where the last component of `s[lo..hi]` starts.
pub open spec fn last_component(s: Seq<char>, lo: int, hi: int) -> int
    decreases hi,
{
    if hi <= lo || hi <= 0 {
        lo
    } else if s[hi - 1] == '/' {
        hi
    } else {
        last_component(s, lo, hi - 1)
    }
}

/// A component that carries no meaning: empty, or a single dot.
pub open spec fn idle(s: Seq<char>, c: int, hi: int) -> bool {
    c == hi || (c == hi - 1 && s[c] == '.')
}

/// The end of `s[lo..hi]` once the trailing components without meaning, and the
/// slashes before them, are dropped.
pub open spec fn body_end(s: Seq<char>, lo: int, hi: int) -> int
    decreases hi,
    via body_end_decreases
{
    if hi <= lo || lo < 0 {
        lo
    } else {
        let c = last_component(s, lo, hi);
        if idle(s, c, hi) {
            body_end(
                s,
                lo,
                if c > lo {
                    c - 1
                } else {
                    lo
                },
            )
        } else {
            hi
        }
    }
}

#[via_fn]
proof fn body_end_decreases(s: Seq<char>, lo: int, hi: int) {
    if 0 <= lo <= hi {
        lemma_last_component(s, lo, hi);
    }
}

pub proof fn lemma_last_component(s: Seq<char>, lo: int, hi: int)
    requires
        0 <= lo <= hi,
    ensures
        lo <= last_component(s, lo, hi) <= hi,
        last_component(s, lo, hi) > lo ==> s[last_component(s, lo, hi) - 1] == '/',
    decreases hi,
{
    if hi > lo && s[hi - 1] != '/' {
        lemma_last_component(s, lo, hi - 1);
    }
}

pub proof fn lemma_body_end(s: Seq<char>, lo: int, hi: int)
    requires
        0 <= lo <= hi,
    ensures
        lo <= body_end(s, lo, hi) <= hi,
        body_end(s, lo, hi) > lo ==> !idle(
            s,
            last_component(s, lo, body_end(s, lo, hi)),
            body_end(s, lo, hi),
        ),
    decreases hi,
{
    if hi > lo {
        lemma_last_component(s, lo, hi);
        let c = last_component(s, lo, hi);
        if idle(s, c, hi) {
            let next = if c > lo {
                c - 1
            } else {
                lo
            };
            lemma_body_end(s, lo, next);
        }
    }
}

/// The bounds of the last ordinary component, if there is one.
pub open spec fn last_name(s: Seq<char>) -> Option<(int, int)> {
    let lo = body_start(s);
    let hi = body_end(s, lo, s.len() as int);
    if hi > lo {
        Some((last_component(s, lo, hi), hi))
    } else {
        None
    }
}

/// The path without its last component. The root and the empty path have none.
pub open spec fn parent(s: Seq<char>) -> Option<Seq<char>> {
    let lo = body_start(s);
    match last_name(s) {
        Some((c, _)) => Some(
            s.take(
                body_end(
                    s,
                    lo,
                    if c > lo {
                        c - 1
                    } else {
                        lo
                    },
                ),
            ),
        ),
        None => if leading_dot(s) {
            Some(Seq::empty())
        } else {
            None
        },
    }
}

/// The last component, unless it is `..` or the path has none.
pub open spec fn file_name(s: Seq<char>) -> Option<Seq<char>> {
    match last_name(s) {
        Some((c, hi)) => if hi - c == 2 && s[c] == '.' && s[c + 1] == '.' {
            None
        } else {
            Some(s.subrange(c, hi))
        },
        None => None,
    }
}

/// The position of the last dot of `s[..i]`.
pub open spec fn last_dot(s: Seq<char>, i: int) -> Option<int>
    decreases i,
{
    if i <= 0 {
        None
    } else if s[i - 1] == '.' {
        Some(i - 1)
    } else {
        last_dot(s, i - 1)
    }
}

/// What follows the last dot of the file name, unless that dot comes first.
pub open spec fn extension(s: Seq<char>) -> Option<Seq<char>> {
    match file_name(s) {
        Some(name) => match last_dot(name, name.len() as int) {
            Some(i) => if i > 0 {
                Some(name.skip(i + 1))
            } else {
                None
            },
            None => None,
        },
        None => None,
    }
}

/// `base` followed by the relative path `rel`; an absolute `rel` stands alone.
pub open spec fn join(base: Seq<char>, rel: Seq<char>) -> Seq<char> {
    if absolute(rel) {
        rel
    } else if base.len() == 0 || base.last() == '/' {
        base + rel
    } else {
        base + seq!['/'] + rel
    }
}

pub fn is_absolute(s: &[char]) -> (r: bool)
    ensures
        r == absolute(s@),
{
    s.len() > 0 && s[0] == '/'
}

fn body_start_of(s: &[char]) -> (r: usize)
    ensures
        r == body_start(s@),
        r <= s@.len(),
{
    if s.len() > 0 && (s[0] == '/' || (s[0] == '.' && (s.len() == 1 || s[1] == '/'))) {
        1
    } else {
        0
    }
}

fn last_component_of(s: &[char], lo: usize, hi: usize) -> (r: usize)
    requires
        lo <= hi <= s@.len(),
    ensures
        r == last_component(s@, lo as int, hi as int),
        lo <= r <= hi,
{
    let mut i: usize = hi;
    while i > lo && s[i - 1] != '/'
        invariant
            lo <= i <= hi <= s@.len(),
            last_component(s@, lo as int, hi as int) == last_component(s@, lo as int, i as int),
        decreases i,
    {
        i -= 1;
    }
    i
}

fn body_end_of(s: &[char], lo: usize, hi: usize) -> (r: usize)
    requires
        lo <= hi <= s@.len(),
    ensures
        r == body_end(s@, lo as int, hi as int),
        lo <= r <= hi,
{
    let mut end: usize = hi;
    while end > lo
        invariant
            lo <= end <= hi <= s@.len(),
            body_end(s@, lo as int, hi as int) == body_end(s@, lo as int, end as int),
        ensures
            lo <= end <= hi,
            end == body_end(s@, lo as int, hi as int),
        decreases end,
    {
        let c: usize = last_component_of(s, lo, end);
        proof {
            lemma_last_component(s@, lo as int, end as int);
        }
        if c == end || (c == end - 1 && s[c] == '.') {
            end = if c > lo {
                c - 1
            } else {
                lo
            };
        } else {
            break;
        }
    }
    end
}

fn last_name_of(s: &[char]) -> (r: Option<(usize, usize)>)
    ensures
        match r {
            Some((c, hi)) => last_name(s@) == Some((c as int, hi as int)) && body_start(s@) <= c
                <= hi <= s@.len(),
            None => last_name(s@) is None,
        },
{
    let lo: usize = body_start_of(s);
    let hi: usize = body_end_of(s, lo, s.len());
    if hi > lo {
        Some((last_component_of(s, lo, hi), hi))
    } else {
        None
    }
}

/// The path without its last component.
pub fn parent_of(path: &str) -> (r: Option<String>)
    ensures
        match r {
            Some(p) => parent(path@) == Some(p@),
            None => parent(path@) is None,
        },
{
    let s = to_chars(path);
    let lo: usize = body_start_of(&s);
    match last_name_of(&s) {
        Some((c, _)) => {
            let hi: usize = if c > lo {
                c - 1
            } else {
                lo
            };
            let end: usize = body_end_of(&s, lo, hi);
            assert(s@.subrange(0, end as int) =~= s@.take(end as int));
            Some(substring(&s, 0, end))
        },
        None => {
            if s.len() > 0 && s[0] == '.' && (s.len() == 1 || s[1] == '/') {
                Some(String::new())
            } else {
                None
            }
        },
    }
}

/// The last component of the path.
pub fn file_name_of(path: &str) -> (r: Option<String>)
    ensures
        match r {
            Some(n) => file_name(path@) == Some(n@),
            None => file_name(path@) is None,
        },
{
    let s = to_chars(path);
    match last_name_of(&s) {
        Some((c, hi)) => {
            if hi - c == 2 && s[c] == '.' && s[c + 1] == '.' {
                None
            } else {
                Some(substring(&s, c, hi))
            }
        },
        None => None,
    }
}

/// The extension of the path's file name.
pub fn extension_of(path: &str) -> (r: Option<String>)
    ensures
        match r {
            Some(e) => extension(path@) == Some(e@),
            None => extension(path@) is None,
        },
{
    match file_name_of(path) {
        Some(name) => {
            let n = to_chars(&name);
            let mut i: usize = n.len();
            while i > 0 && n[i - 1] != '.'
                invariant
                    i <= n@.len(),
                    last_dot(n@, n@.len() as int) == last_dot(n@, i as int),
                decreases i,
            {
                i -= 1;
            }
            if i > 1 {
                assert(n@.subrange(i as int, n@.len() as int) =~= n@.skip(i as int));
                Some(substring(&n, i, n.len()))
            } else {
                None
            }
        },
        None => None,
    }
}

/// `base` followed by the relative path `rel`.
pub fn join_paths(base: &str, rel: &str) -> (r: String)
    ensures
        r@ == join(base@, rel@),
{
    let b = to_chars(base);
    let t = to_chars(rel);
    if is_absolute(&t) {
        return rel.to_string();
    }
    let mut r = base.to_string();
    if b.len() > 0 && b[b.len() - 1] != '/' {
        r.push('/');
        assert(base@.push('/') =~= base@ + seq!['/']);
    }
    r.append(rel);
    r
}

/// The directories that hold a path, innermost first.
pub open spec fn ancestors(path: Seq<char>) -> Seq<Seq<char>>
    decreases path.len(),
    via ancestors_decreases
{
    match parent(path) {
        Some(p) => seq![p] + ancestors(p),
        None => Seq::empty(),
    }
}

#[via_fn]
proof fn ancestors_decreases(path: Seq<char>) {
    lemma_parent_shorter(path);
}

/// A parent is shorter than the path.
pub proof fn lemma_parent_shorter(path: Seq<char>)
    ensures
        parent(path) matches Some(p) ==> p.len() < path.len(),
{
    let lo = body_start(path);
    let hi = body_end(path, lo, path.len() as int);
    lemma_body_end(path, lo, path.len() as int);
    if hi > lo {
        lemma_last_component(path, lo, hi);
        let c = last_component(path, lo, hi);
        let next = if c > lo {
            c - 1
        } else {
            lo
        };
        lemma_body_end(path, lo, next);
    }
}


// ------------------------------------------------------------------ components

/// The pieces that carry meaning.
pub open spec fn meaningful(parts: Seq<Seq<char>>) -> Seq<Seq<char>>
    decreases parts.len(),
{
    if parts.len() == 0 {
        Seq::empty()
    } else {
        let before = meaningful(parts.drop_last());
        let last = parts.last();
        if last.len() == 0 || (last.len() == 1 && last[0] == '.') {
            before
        } else {
            before.push(last)
        }
    }
}

/// The components of a path: the root or a leading dot, then the names.
pub open spec fn components(s: Seq<char>) -> Seq<Seq<char>> {
    let names = meaningful(scan::split_on(s, '/'));
    if absolute(s) {
        seq![seq!['/']] + names
    } else if leading_dot(s) {
        seq![seq!['.']] + names
    } else {
        names
    }
}

/// Two paths with the same components.
pub open spec fn same_path(a: Seq<char>, b: Seq<char>) -> bool {
    components(a) == components(b)
}

/// The components of `path` below `base`, if it lies there.
pub open spec fn below(path: Seq<char>, base: Seq<char>) -> Option<Seq<Seq<char>>> {
    let p = components(path);
    let b = components(base);
    if b.len() <= p.len() && p.take(b.len() as int) == b {
        Some(p.skip(b.len() as int))
    } else {
        None
    }
}

/// The components of a path.
pub fn components_of(path: &str) -> (r: Vec<Vec<char>>)
    ensures
        scan::views(r@) == components(path@),
{
    let s = to_chars(path);
    let parts = split_chars(&s, '/');
    let mut r: Vec<Vec<char>> = Vec::new();
    let ghost mut head: Seq<Seq<char>> = Seq::empty();
    if s.len() > 0 && s[0] == '/' {
        r.push(one_char('/'));
        proof {
            head = seq![seq!['/']];
        }
    } else if s.len() > 0 && s[0] == '.' && (s.len() == 1 || s[1] == '/') {
        r.push(one_char('.'));
        proof {
            head = seq![seq!['.']];
        }
    }
    assert(scan::views(r@) =~= head);
    let ghost ps = scan::split_on(path@, '/');
    let mut i: usize = 0;
    assert(head + meaningful(ps.take(0)) =~= head);
    while i < parts.len()
        invariant
            scan::views(parts@) == ps,
            i <= parts@.len() == ps.len(),
            scan::views(r@) == head + meaningful(ps.take(i as int)),
        decreases parts@.len() - i,
    {
        assert(ps.take(i + 1).drop_last() =~= ps.take(i as int));
        assert(parts@[i as int]@ == ps[i as int]);
        let ghost before = scan::views(r@);
        let part = &parts[i];
        if part.len() == 0 || (part.len() == 1 && part[0] == '.') {
        } else {
            r.push(sub_chars(part, 0, part.len()));
            assert(r@.last()@ =~= ps[i as int]);
            assert(scan::views(r@) =~= before.push(ps[i as int]));
            assert(before.push(ps[i as int]) =~= head + meaningful(ps.take(i + 1)));
        }
        i += 1;
    }
    assert(ps.take(i as int) =~= ps);
    assert(head + meaningful(ps) =~= components(path@));
    r
}

fn one_char(c: char) -> (r: Vec<char>)
    ensures
        r@ == seq![c],
{
    let mut v: Vec<char> = Vec::new();
    v.push(c);
    assert(v@ =~= seq![c]);
    v
}

/// Whether two lists of components are the same.
pub fn same_components(a: &[Vec<char>], b: &[Vec<char>]) -> (r: bool)
    ensures
        r == (scan::views(a@) == scan::views(b@)),
{
    if a.len() != b.len() {
        assert(scan::views(a@).len() != scan::views(b@).len());
        return false;
    }
    let mut i: usize = 0;
    while i < a.len()
        invariant
            i <= a@.len() == b@.len(),
            forall|j: int| 0 <= j < i ==> (#[trigger] a@[j])@ == b@[j]@,
        decreases a@.len() - i,
    {
        if !same_chars(&a[i], &b[i]) {
            assert(scan::views(a@)[i as int] != scan::views(b@)[i as int]);
            return false;
        }
        i += 1;
    }
    assert(scan::views(a@) =~= scan::views(b@));
    true
}

/// Whether two paths have the same components.
pub fn is_same_path(a: &str, b: &str) -> (r: bool)
    ensures
        r == same_path(a@, b@),
{
    same_components(&components_of(a), &components_of(b))
}

/// The components of `path` below `base`, if it lies there.
pub fn components_below(path: &str, base: &str) -> (r: Option<Vec<Vec<char>>>)
    ensures
        match r {
            Some(v) => below(path@, base@) == Some(scan::views(v@)),
            None => below(path@, base@) is None,
        },
{
    let mut p = components_of(path);
    let b = components_of(base);
    if b.len() > p.len() {
        return None;
    }
    let ghost whole = scan::views(p@);
    let rest = p.split_off(b.len());
    assert(scan::views(p@) =~= whole.take(b@.len() as int));
    assert(scan::views(rest@) =~= whole.skip(b@.len() as int));
    if same_components(&p, &b) {
        Some(rest)
    } else {
        None
    }
}

/// The part of `path` below `base`, with single slashes; a path that lies
/// elsewhere as it is.
pub open spec fn relative_to(path: Seq<char>, base: Seq<char>) -> Seq<char> {
    match below(path, base) {
        Some(names) => scan::join(names, "/"@),
        None => path,
    }
}

pub fn relative_path(path: &str, base: &str) -> (r: String)
    ensures
        r@ == relative_to(path@, base@),
{
    match components_below(path, base) {
        Some(names) => join_chars(&names, "/"),
        None => owned(path),
    }
}

// -------------------------------------------------------------------- markers

/// One of the markers stands in directory `dir`, going by the paths that exist.
pub open spec fn marked(dir: Seq<char>, markers: Seq<&'static str>, existing: Seq<Seq<char>>) -> bool {
    exists|i: int| #![trigger markers[i]]
        0 <= i < markers.len() && existing.contains(join(dir, markers[i]@))
}

/// The nearest directory with a marker: `dir` itself, or the innermost that holds
/// it.
pub open spec fn nearest_marked(
    dir: Seq<char>,
    markers: Seq<&'static str>,
    existing: Seq<Seq<char>>,
) -> Option<Seq<char>>
    decreases dir.len(),
    via nearest_marked_decreases
{
    if marked(dir, markers, existing) {
        Some(dir)
    } else {
        match parent(dir) {
            Some(p) => nearest_marked(p, markers, existing),
            None => None,
        }
    }
}

#[via_fn]
proof fn nearest_marked_decreases(
    dir: Seq<char>,
    markers: Seq<&'static str>,
    existing: Seq<Seq<char>>,
) {
    lemma_parent_shorter(dir);
}

fn contains_text(v: &Vec<String>, s: &str) -> (r: bool)
    ensures
        r == scan::string_views(v@).contains(s@),
{
    let mut i: usize = 0;
    while i < v.len()
        invariant
            i <= v@.len(),
            forall|k: int| 0 <= k < i ==> scan::string_views(v@)[k] != s@,
        decreases v@.len() - i,
    {
        if same(&v[i], s) {
            assert(scan::string_views(v@)[i as int] == s@);
            return true;
        }
        i += 1;
    }
    false
}

fn is_marked(dir: &str, markers: &Vec<&'static str>, existing: &Vec<String>) -> (r: bool)
    ensures
        r == marked(dir@, markers@, scan::string_views(existing@)),
{
    let mut i: usize = 0;
    while i < markers.len()
        invariant
            i <= markers@.len(),
            forall|k: int| #![trigger markers@[k]]
                0 <= k < i ==> !scan::string_views(existing@).contains(
                    join(dir@, markers@[k]@),
                ),
        decreases markers@.len() - i,
    {
        if contains_text(existing, &join_paths(dir, markers[i])) {
            assert(scan::string_views(existing@).contains(join(dir@, markers@[i as int]@)));
            return true;
        }
        i += 1;
    }
    false
}

/// The nearest directory with a marker, from `dir` upward.
pub fn find_marked(dir: &str, markers: &Vec<&'static str>, existing: &Vec<String>) -> (r: Option<
    String,
>)
    ensures
        match r {
            Some(d) => nearest_marked(dir@, markers@, scan::string_views(existing@)) == Some(d@),
            None => nearest_marked(dir@, markers@, scan::string_views(existing@)) is None,
        },
    decreases dir@.len(),
{
    if is_marked(dir, markers, existing) {
        return Some(owned(dir));
    }
    proof {
        lemma_parent_shorter(dir@);
    }
    match parent_of(dir) {
        Some(p) => find_marked(&p, markers, existing),
        None => None,
    }
}

/// The paths that tell whether `dir` or a directory that holds it has a marker.
pub open spec fn probes(dir: Seq<char>, markers: Seq<&'static str>) -> Seq<Seq<char>>
    decreases dir.len(),
    via probes_decreases
{
    let here = Seq::new(markers.len(), |i: int| join(dir, markers[i]@));
    match parent(dir) {
        Some(p) => here + probes(p, markers),
        None => here,
    }
}

#[via_fn]
proof fn probes_decreases(dir: Seq<char>, markers: Seq<&'static str>) {
    lemma_parent_shorter(dir);
}

/// The paths whose existence decides what `find_marked` returns.
pub fn paths_to_probe(dir: &str, markers: &Vec<&'static str>) -> (r: Vec<String>)
    ensures
        scan::string_views(r@) == probes(dir@, markers@),
    decreases dir@.len(),
{
    let mut r: Vec<String> = Vec::new();
    let ghost here = Seq::new(markers@.len(), |i: int| join(dir@, markers@[i]@));
    let mut i: usize = 0;
    while i < markers.len()
        invariant
            here == Seq::new(markers@.len(), |i: int| join(dir@, markers@[i]@)),
            i <= markers@.len(),
            scan::string_views(r@) == here.take(i as int),
        decreases markers@.len() - i,
    {
        let ghost before = scan::string_views(r@);
        r.push(join_paths(dir, markers[i]));
        assert(scan::string_views(r@) =~= before.push(here[i as int]));
        i += 1;
        assert(here.take(i as int) =~= before.push(here[i - 1]));
    }
    assert(here.take(i as int) =~= here);
    proof {
        lemma_parent_shorter(dir@);
    }
    match parent_of(dir) {
        Some(p) => {
            let mut above = paths_to_probe(&p, markers);
            let ghost (a, b) = (r@, above@);
            r.append(&mut above);
            assert(scan::string_views(r@) =~= scan::string_views(a) + scan::string_views(b));
        },
        None => {},
    }
    r
}

} // verus!
