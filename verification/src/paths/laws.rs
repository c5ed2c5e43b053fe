//! How paths are put together and taken apart.

use vstd::prelude::*;

use crate::paths;
use crate::scan;
use crate::scan::laws;

verus! {

/// The name of a file: not empty, without a slash, neither `.` nor `..`.
pub open spec fn is_name(name: Seq<char>) -> bool {
    &&& name.len() > 0
    &&& laws::lacks(name, '/')
    &&& name != seq!['.']
    &&& name != seq!['.', '.']
}

/// A directory path that ends with the name of something.
pub open spec fn is_plain(base: Seq<char>) -> bool {
    exists|dir: Seq<char>, name: Seq<char>|
        is_name(name) && #[trigger] (dir + seq!['/'] + name) == base
}

proof fn lemma_last_component_is(s: Seq<char>, lo: int, c: int, hi: int)
    requires
        0 <= lo <= c <= hi <= s.len(),
        c == lo || s[c - 1] == '/',
        forall|i: int| c <= i < hi ==> s[i] != '/',
    ensures
        paths::last_component(s, lo, hi) == c,
    decreases hi,
{
    if hi > c {
        lemma_last_component_is(s, lo, c, hi - 1);
    }
}

proof fn lemma_last_name(dir: Seq<char>, name: Seq<char>)
    requires
        is_name(name),
    ensures
        paths::last_name(dir + seq!['/'] + name) == Some(
            ((dir.len() + 1) as int, (dir.len() + 1 + name.len()) as int),
        ),
{
    let s = dir + seq!['/'] + name;
    let c = dir.len() as int + 1;
    let hi = s.len() as int;
    let lo = paths::body_start(s);
    assert(s[dir.len() as int] == '/');
    assert forall|i: int| c <= i < hi implies s[i] != '/' by {
        assert(s[i] == name[i - c]);
    }
    lemma_last_component_is(s, lo, c, hi);
    assert(!paths::idle(s, c, hi)) by {
        if paths::idle(s, c, hi) {
            assert(name.len() == 1);
            assert(s[c] == name[0]);
            assert(name =~= seq!['.']);
        }
    }
}

/// The last part of a path is its file name, and joining a directory and a name gives a
/// path with that file name. What comes before is put in front unchanged, with one slash
/// between.
pub proof fn law_joining_names(base: Seq<char>, name: Seq<char>)
    requires
        is_name(name),
        base.len() > 0,
    ensures
        ({
            let p = paths::join(base, name);
            &&& paths::file_name(p) == Some(name)
            &&& base.last() != '/' ==> p == base + seq!['/'] + name
            &&& base.last() == '/' ==> p == base + name
        }),
{
    assert(name[0] != '/');
    let p = paths::join(base, name);
    let dir = if base.last() == '/' {
        base.drop_last()
    } else {
        base
    };
    assert(p =~= dir + seq!['/'] + name);
    lemma_last_name(dir, name);
    let c = dir.len() as int + 1;
    assert(p.subrange(c, c + name.len()) =~= name);
    if name.len() == 2 && p[c] == '.' && p[c + 1] == '.' {
        assert(p[c] == name[0] && p[c + 1] == name[1]);
        assert(name =~= seq!['.', '.']);
    }
}

/// A path that starts at the root is what joining it to anything gives.
pub proof fn law_joining_absolute_paths(base: Seq<char>, path: Seq<char>)
    requires
        path.len() > 0,
        path[0] == '/',
    ensures
        paths::join(base, path) == path,
{
}

/// The parent of a file in a directory is the directory.
pub proof fn law_parents(dir: Seq<char>, holder: Seq<char>, name: Seq<char>)
    requires
        is_name(name),
        is_name(holder),
    ensures
        ({
            let base = dir + seq!['/'] + holder;
            paths::parent(paths::join(base, name)) == Some(base)
        }),
{
    let base = dir + seq!['/'] + holder;
    law_joining_names(base, name);
    let p = base + seq!['/'] + name;
    assert(base.last() == holder.last());
    assert(holder[holder.len() - 1] != '/');
    assert(paths::join(base, name) == p);
    lemma_last_name(base, name);
    let c = base.len() as int + 1;
    let lo = paths::body_start(p);
    let at = dir.len() as int + 1;
    assert(p[dir.len() as int] == '/');
    assert forall|i: int| at <= i < base.len() implies p[i] != '/' by {
        assert(p[i] == holder[i - at]);
    }
    lemma_last_component_is(p, lo, at, base.len() as int);
    assert(!paths::idle(p, at, base.len() as int)) by {
        if paths::idle(p, at, base.len() as int) {
            assert(p[at] == holder[0]);
            assert(holder =~= seq!['.']);
        }
    }
    assert(p.take(base.len() as int) =~= base);
}

/// The extension of a file is what follows the last dot of its name, if that is not the
/// first character of the name.
pub proof fn law_extensions(dir: Seq<char>, stem: Seq<char>, ext: Seq<char>)
    requires
        stem.len() > 0,
        laws::lacks(stem, '/'),
        laws::lacks(ext, '/'),
        laws::lacks(ext, '.'),
        stem != seq!['.'] || ext.len() > 0,
    ensures
        paths::extension(dir + seq!['/'] + (stem + seq!['.'] + ext)) == Some(ext),
        laws::lacks(stem, '.') ==> paths::extension(dir + seq!['/'] + stem) is None,
        stem.len() + ext.len() > 1 && ext.len() > 0 ==> paths::extension(
            dir + seq!['/'] + (seq!['.'] + ext),
        ) is None,
{
    let name = stem + seq!['.'] + ext;
    assert forall|i: int| 0 <= i < name.len() implies #[trigger] name[i] != '/' by {
        if i < stem.len() {
            assert(name[i] == stem[i]);
        } else if i > stem.len() {
            assert(name[i] == ext[i - stem.len() - 1]);
        }
    }
    assert(name != seq!['.']) by {
        assert(name.len() >= 2);
    }
    assert(name != seq!['.', '.']) by {
        if name == seq!['.', '.'] {
            assert(name.len() == 2);
            assert(stem[0] == name[0]);
            assert(stem =~= seq!['.']);
        }
    }
    lemma_named(dir, name);
    lemma_last_dot(name, stem.len() as int);
    assert(name.skip(stem.len() as int + 1) =~= ext);
    if laws::lacks(stem, '.') {
        assert(stem[0] != '.');
        lemma_named(dir, stem);
        lemma_no_dot(stem, stem.len() as int);
    }
    if ext.len() > 0 {
        let hidden = seq!['.'] + ext;
        assert forall|i: int| 0 <= i < hidden.len() implies #[trigger] hidden[i] != '/' by {
            if i > 0 {
                assert(hidden[i] == ext[i - 1]);
            }
        }
        assert(hidden != seq!['.', '.']) by {
            assert(hidden[1] == ext[0]);
        }
        lemma_named(dir, hidden);
        assert forall|i: int| 0 < i < hidden.len() implies #[trigger] hidden[i] != '.' by {
            assert(hidden[i] == ext[i - 1]);
        }
        lemma_last_dot(hidden, 0);
    }
}

proof fn lemma_named(dir: Seq<char>, name: Seq<char>)
    requires
        is_name(name),
    ensures
        paths::file_name(dir + seq!['/'] + name) == Some(name),
{
    lemma_last_name(dir, name);
    let p = dir + seq!['/'] + name;
    let c = dir.len() as int + 1;
    assert(p.subrange(c, c + name.len()) =~= name);
    if name.len() == 2 && p[c] == '.' && p[c + 1] == '.' {
        assert(p[c] == name[0] && p[c + 1] == name[1]);
        assert(name =~= seq!['.', '.']);
    }
}

proof fn lemma_last_dot(s: Seq<char>, k: int)
    requires
        0 <= k < s.len(),
        s[k] == '.',
        forall|i: int| k < i < s.len() ==> #[trigger] s[i] != '.',
    ensures
        paths::last_dot(s, s.len() as int) == Some(k),
{
    lemma_last_dot_from(s, k, s.len() as int);
}

proof fn lemma_last_dot_from(s: Seq<char>, k: int, i: int)
    requires
        0 <= k < i <= s.len(),
        s[k] == '.',
        forall|j: int| k < j < s.len() ==> #[trigger] s[j] != '.',
    ensures
        paths::last_dot(s, i) == Some(k),
    decreases i,
{
    if i - 1 > k {
        assert(s[i - 1] != '.');
        lemma_last_dot_from(s, k, i - 1);
    }
}

proof fn lemma_no_dot(s: Seq<char>, i: int)
    requires
        0 <= i <= s.len(),
        laws::lacks(s, '.'),
    ensures
        paths::last_dot(s, i) is None,
    decreases i,
{
    if i > 0 {
        assert(s[i - 1] != '.');
        lemma_no_dot(s, i - 1);
    }
}

proof fn lemma_meaningful_concat(a: Seq<Seq<char>>, b: Seq<Seq<char>>)
    ensures
        paths::meaningful(a + b) == paths::meaningful(a) + paths::meaningful(b),
    decreases b.len(),
{
    if b.len() == 0 {
        assert(a + b =~= a);
        assert(paths::meaningful(a) + Seq::<Seq<char>>::empty() =~= paths::meaningful(a));
    } else {
        lemma_meaningful_concat(a, b.drop_last());
        assert((a + b).drop_last() =~= a + b.drop_last());
        assert((a + b).last() == b.last());
        let (x, y) = (paths::meaningful(a), paths::meaningful(b.drop_last()));
        assert((x + y).push(b.last()) =~= x + y.push(b.last()));
    }
}

proof fn lemma_split_concat(a: Seq<char>, b: Seq<char>)
    ensures
        scan::split_on(a + seq!['/'] + b, '/') == scan::split_on(a, '/') + scan::split_on(b, '/'),
    decreases a.len(),
{
    let n = scan::until(a, '/');
    scan::lemma_until(a, '/');
    if n >= a.len() {
        assert forall|i: int| 0 <= i < a.len() implies #[trigger] a[i] != '/' by {}
        laws::law_splitting(a, '/', b);
    } else {
        let (first, rest) = (a.take(n), a.skip(n + 1));
        assert forall|i: int| 0 <= i < first.len() implies #[trigger] first[i] != '/' by {
            assert(first[i] == a[i]);
        }
        lemma_split_concat(rest, b);
        laws::law_splitting(first, '/', rest + seq!['/'] + b);
        laws::law_splitting(first, '/', rest);
        assert(first + seq!['/'] + (rest + seq!['/'] + b) =~= a + seq!['/'] + b);
        assert(first + seq!['/'] + rest =~= a);
        assert(seq![first] + (scan::split_on(rest, '/') + scan::split_on(b, '/')) =~= seq![first]
            + scan::split_on(rest, '/') + scan::split_on(b, '/'));
    }
}

/// A path below a base is shown relative to the base: what was joined to the base comes
/// back.
pub proof fn law_relative_paths(base: Seq<char>, names: Seq<Seq<char>>)
    requires
        base.len() > 0,
        base.last() != '/',
        names.len() > 0,
        forall|i: int| 0 <= i < names.len() ==> is_name(#[trigger] names[i]),
    ensures
        ({
            let rel = scan::join(names, seq!['/']);
            paths::relative_to(paths::join(base, rel), base) == rel
        }),
{
    let rel = scan::join(names, seq!['/']);
    reveal_strlit("/");
    assert("/"@ =~= seq!['/']);
    lemma_split_names(names);
    assert(is_name(names[0]));
    assert(rel.len() > 0 && rel[0] == names[0][0]) by {
        lemma_join_first(names);
    }
    assert(names[0][0] != '/');
    let p = paths::join(base, rel);
    assert(p == base + seq!['/'] + rel);
    lemma_split_concat(base, rel);
    lemma_meaningful_concat(scan::split_on(base, '/'), names);
    lemma_all_meaningful(names);
    assert(p[0] == base[0]);
    assert(paths::leading_dot(p) == paths::leading_dot(base)) by {
        if base.len() == 1 {
            assert(p[1] == '/');
        } else {
            assert(p[1] == base[1]);
        }
    }
    let (x, y) = (paths::components(p), paths::components(base));
    assert(x =~= y + names);
    assert(x.take(y.len() as int) =~= y);
    assert(x.skip(y.len() as int) =~= names);
}

proof fn lemma_join_first(names: Seq<Seq<char>>)
    requires
        names.len() > 0,
        names[0].len() > 0,
    ensures
        scan::join(names, seq!['/']).len() > 0,
        scan::join(names, seq!['/'])[0] == names[0][0],
    decreases names.len(),
{
    if names.len() > 1 {
        lemma_join_first(names.drop_last());
    }
}

proof fn lemma_all_meaningful(names: Seq<Seq<char>>)
    requires
        forall|i: int| 0 <= i < names.len() ==> is_name(#[trigger] names[i]),
    ensures
        paths::meaningful(names) == names,
    decreases names.len(),
{
    if names.len() > 0 {
        let before = names.drop_last();
        assert forall|i: int| 0 <= i < before.len() implies is_name(#[trigger] before[i]) by {
            assert(before[i] == names[i]);
        }
        lemma_all_meaningful(before);
        let last = names.last();
        assert(is_name(names[names.len() - 1]));
        if last.len() == 1 && last[0] == '.' {
            assert(last =~= seq!['.']);
        }
        assert(before.push(last) =~= names);
    }
}

proof fn lemma_split_names(names: Seq<Seq<char>>)
    requires
        names.len() > 0,
        forall|i: int| 0 <= i < names.len() ==> is_name(#[trigger] names[i]),
    ensures
        scan::split_on(scan::join(names, seq!['/']), '/') == names,
    decreases names.len(),
{
    assert(is_name(names[0]));
    if names.len() == 1 {
        laws::law_splitting(names[0], '/', Seq::empty());
        assert(names =~= seq![names[0]]);
    } else {
        let rest = names.skip(1);
        assert forall|i: int| 0 <= i < rest.len() implies is_name(#[trigger] rest[i]) by {
            assert(rest[i] == names[i + 1]);
        }
        lemma_split_names(rest);
        assert(names =~= seq![names[0]] + rest);
        laws::law_joining(seq![names[0]], rest, seq!['/']);
        laws::law_splitting(names[0], '/', scan::join(rest, seq!['/']));
        assert(scan::join(seq![names[0]], seq!['/']) == names[0]);
    }
}

/// A path that does not lie below a base is shown as it is.
pub proof fn law_other_paths_stay_whole(base: Seq<char>, path: Seq<char>)
    requires
        base.len() > 0,
        path.len() > 0,
        base[0] == '/',
        path[0] != '/',
    ensures
        paths::relative_to(path, base) == path,
{
    let (x, y) = (paths::components(path), paths::components(base));
    assert(y[0] == seq!['/']);
    laws::law_joining_undoes_splitting(path, '/');
    if paths::below(path, base) is Some {
        assert(x.take(y.len() as int)[0] == x[0]);
        assert(x[0] == seq!['/']);
        if paths::leading_dot(path) {
            assert(x[0] == seq!['.']);
            assert(seq!['/'][0] != seq!['.'][0]);
        } else {
            lemma_meaningful_from(scan::split_on(path, '/'), 0);
            let k = choose|k: int|
                0 <= k < scan::split_on(path, '/').len() && scan::split_on(path, '/')[k] == x[0];
            assert(laws::lacks(scan::split_on(path, '/')[k], '/'));
            assert(x[0][0] == '/');
        }
    }
}

proof fn lemma_meaningful_from(ps: Seq<Seq<char>>, i: int)
    ensures
        0 <= i < paths::meaningful(ps).len() ==> exists|k: int|
            0 <= k < ps.len() && ps[k] == paths::meaningful(ps)[i],
    decreases ps.len(),
{
    if ps.len() > 0 {
        lemma_meaningful_from(ps.drop_last(), i);
        let before = paths::meaningful(ps.drop_last());
        if 0 <= i < before.len() {
            let k = choose|k: int| 0 <= k < ps.drop_last().len() && ps.drop_last()[k] == before[i];
            assert(ps[k] == paths::meaningful(ps)[i]);
        } else if 0 <= i < paths::meaningful(ps).len() {
            assert(ps[ps.len() - 1] == paths::meaningful(ps)[i]);
        }
    }
}

/// One of the markers exists in a directory.
pub open spec fn holds_marker(
    dir: Seq<char>,
    markers: Seq<&'static str>,
    existing: Seq<Seq<char>>,
) -> bool {
    exists|i: int| #![trigger markers[i]]
        0 <= i < markers.len() && existing.contains(paths::join(dir, markers[i]@))
}

/// The nearest directory with a marker: one of the directory itself and those above it has
/// a marker, and none below that one has.
pub proof fn law_nearest_marked(
    dir: Seq<char>,
    markers: Seq<&'static str>,
    existing: Seq<Seq<char>>,
)
    ensures
        ({
            let up = seq![dir] + paths::ancestors(dir);
            match paths::nearest_marked(dir, markers, existing) {
                Some(found) => exists|n: int|
                    {
                        &&& 0 <= n < up.len()
                        &&& #[trigger] up[n] == found
                        &&& holds_marker(found, markers, existing)
                        &&& forall|k: int| 0 <= k < n ==> !holds_marker(#[trigger] up[k], markers, existing)
                    },
                None => forall|k: int| 0 <= k < up.len() ==> !holds_marker(#[trigger] up[k], markers, existing),
            }
        }),
    decreases dir.len(),
{
    let up = seq![dir] + paths::ancestors(dir);
    assert(up[0] == dir);
    assert(holds_marker(dir, markers, existing) == paths::marked(dir, markers, existing));
    if !paths::marked(dir, markers, existing) {
        match paths::parent(dir) {
            Some(p) => {
                paths::lemma_parent_shorter(dir);
                law_nearest_marked(p, markers, existing);
                let rest = seq![p] + paths::ancestors(p);
                assert(paths::ancestors(dir) =~= rest);
                match paths::nearest_marked(p, markers, existing) {
                    Some(found) => {
                        let n = choose|n: int|
                            {
                                &&& 0 <= n < rest.len()
                                &&& #[trigger] rest[n] == found
                                &&& holds_marker(found, markers, existing)
                                &&& forall|k: int| 0 <= k < n ==> !holds_marker(#[trigger] rest[k], markers, existing)
                            };
                        assert(up[n + 1] == found);
                        assert forall|k: int| 0 <= k < n + 1 implies !holds_marker(#[trigger] up[k], markers, existing) by {
                            if k > 0 {
                                assert(up[k] == rest[k - 1]);
                            }
                        }
                    },
                    None => {
                        assert forall|k: int| 0 <= k < up.len() implies !holds_marker(#[trigger] up[k], markers, existing) by {
                            if k > 0 {
                                assert(up[k] == rest[k - 1]);
                            }
                        }
                    },
                }
            },
            None => {},
        }
    }
}

/// Two paths are the same where they name the same steps: an empty step and a single full
/// stop name none, whatever follows.
pub proof fn law_empty_steps(dir: Seq<char>, rest: Seq<char>)
    requires
        dir.len() > 0,
        dir[0] == '/',
    ensures
        paths::components(dir + seq!['/'] + (seq!['.'] + seq!['/'] + rest)) == paths::components(
            dir + seq!['/'] + rest,
        ),
        paths::components(dir + seq!['/'] + (seq!['/'] + rest)) == paths::components(
            dir + seq!['/'] + rest,
        ),
{
    let c = '/';
    lemma_split_concat(dir, rest);
    lemma_split_concat(dir, seq!['.'] + seq!['/'] + rest);
    lemma_split_concat(dir, seq!['/'] + rest);
    laws::law_splitting(seq!['.'], c, rest);
    laws::law_splitting(Seq::empty(), c, rest);
    assert(Seq::<char>::empty() + seq![c] + rest =~= seq!['/'] + rest);
    let ds = scan::split_on(dir, c);
    let rs = scan::split_on(rest, c);
    lemma_meaningful_concat(ds, rs);
    lemma_meaningful_concat(ds, seq![seq!['.']] + rs);
    lemma_meaningful_concat(seq![seq!['.']], rs);
    lemma_meaningful_concat(ds, seq![Seq::<char>::empty()] + rs);
    lemma_meaningful_concat(seq![Seq::<char>::empty()], rs);
    let none = Seq::<Seq<char>>::empty();
    assert(seq![seq!['.']].drop_last() =~= none);
    assert(seq![Seq::<char>::empty()].drop_last() =~= none);
    assert(paths::meaningful(none) =~= none);
    assert(paths::meaningful(seq![seq!['.']]) =~= none);
    assert(paths::meaningful(seq![Seq::<char>::empty()]) =~= none);
    assert(none + paths::meaningful(rs) =~= paths::meaningful(rs));
    let x = dir + seq!['/'] + (seq!['.'] + seq!['/'] + rest);
    let y = dir + seq!['/'] + rest;
    let z = dir + seq!['/'] + (seq!['/'] + rest);
    assert(x[0] == '/' && y[0] == '/' && z[0] == '/');
}

/// The steps of a path are kept otherwise, each for its own, in their order.
pub proof fn law_steps(dir: Seq<char>, name: Seq<char>)
    requires
        dir.len() > 0,
        dir[0] == '/',
        laws::lacks(name, '/'),
        name.len() > 0,
        name != seq!['.'],
    ensures
        paths::components(dir + seq!['/'] + name) == paths::components(dir).push(name),
{
    lemma_split_concat(dir, name);
    laws::law_splitting(name, '/', Seq::empty());
    let ds = scan::split_on(dir, '/');
    lemma_meaningful_concat(ds, seq![name]);
    let none = Seq::<Seq<char>>::empty();
    assert(seq![name].drop_last() =~= none);
    assert(paths::meaningful(none) =~= none);
    assert(!(name.len() == 1 && name[0] == '.')) by {
        if name.len() == 1 && name[0] == '.' {
            assert(name =~= seq!['.']);
        }
    }
    assert(paths::meaningful(seq![name]) =~= seq![name]);
    let x = dir + seq!['/'] + name;
    assert(x[0] == '/');
    assert(paths::components(x) =~= paths::components(dir).push(name));
}

} // verus!
