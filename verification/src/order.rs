//! Stable sorting, and the order of texts.

use vstd::prelude::*;

pub mod laws;

verus! {

/// Values with an order.
pub trait Ranked: Sized {
    /// This value may stand before `other`.
    spec fn rank_le(self, other: Self) -> bool;

    fn ranks_before(&self, other: &Self) -> (r: bool)
        ensures
            r == self.rank_le(*other),
    ;
}

/// `s` with `x` put in after the last element that may stand before it.
pub open spec fn stable_insert<T: Ranked>(s: Seq<T>, x: T) -> Seq<T>
    decreases s.len(),
{
    if s.len() == 0 || s.last().rank_le(x) {
        s.push(x)
    } else {
        stable_insert(s.drop_last(), x).push(s.last())
    }
}

/// The elements of `s` in order; those of equal rank keep the order they had.
pub open spec fn stable_sorted<T: Ranked>(s: Seq<T>) -> Seq<T>
    decreases s.len(),
{
    if s.len() == 0 {
        Seq::empty()
    } else {
        stable_insert(stable_sorted(s.drop_last()), s.last())
    }
}

/// Every element may stand before each later one.
pub open spec fn in_order<T: Ranked>(s: Seq<T>) -> bool {
    forall|i: int, j: int|
        0 <= i < j < s.len() ==> (#[trigger] s[i]).rank_le(#[trigger] s[j])
}

/// The order is total and transitive.
pub open spec fn total_order<T: Ranked>() -> bool {
    &&& forall|a: T, b: T| #[trigger] a.rank_le(b) || b.rank_le(a)
    &&& forall|a: T, b: T, c: T|
        #![trigger a.rank_le(b), b.rank_le(c)]
        a.rank_le(b) && b.rank_le(c) ==> a.rank_le(c)
}

proof fn lemma_stable_insert<T: Ranked>(s: Seq<T>, x: T)
    requires
        total_order::<T>(),
        in_order(s),
    ensures
        in_order(stable_insert(s, x)),
        stable_insert(s, x).len() == s.len() + 1,
        stable_insert(s, x).to_multiset() == s.to_multiset().insert(x),
        forall|i: int|
            0 <= i < stable_insert(s, x).len() ==> {
                ||| #[trigger] stable_insert(s, x)[i] == x
                ||| s.contains(stable_insert(s, x)[i])
            },
    decreases s.len(),
{
    broadcast use vstd::seq_lib::group_to_multiset_ensures;

    if s.len() == 0 || s.last().rank_le(x) {
        let r = s.push(x);
        assert forall|i: int, j: int| 0 <= i < j < r.len() implies (#[trigger] r[i]).rank_le(
            #[trigger] r[j],
        ) by {
            if j == s.len() && i < s.len() - 1 {
                assert(s[i].rank_le(s[s.len() - 1]));
            }
        }
        assert forall|i: int| 0 <= i < r.len() implies (#[trigger] r[i] == x || s.contains(r[i])) by {
            if i < s.len() {
                assert(s[i] == r[i]);
            }
        }
    } else {
        let rest = s.drop_last();
        lemma_stable_insert(rest, x);
        let inner = stable_insert(rest, x);
        let r = inner.push(s.last());
        assert(x.rank_le(s.last()));
        assert forall|i: int, j: int| 0 <= i < j < r.len() implies (#[trigger] r[i]).rank_le(
            #[trigger] r[j],
        ) by {
            if j == inner.len() {
                assert(inner[i] == x || rest.contains(inner[i]));
                if inner[i] != x {
                    let k = choose|k: int| 0 <= k < rest.len() && rest[k] == inner[i];
                    assert(s[k].rank_le(s[s.len() - 1]));
                }
            }
        }
        assert forall|i: int| 0 <= i < r.len() implies (#[trigger] r[i] == x || s.contains(r[i])) by {
            if i < inner.len() {
                assert(inner[i] == x || rest.contains(inner[i]));
                if inner[i] != x {
                    let k = choose|k: int| 0 <= k < rest.len() && rest[k] == inner[i];
                    assert(s[k] == inner[i]);
                }
            } else {
                assert(s[s.len() - 1] == r[i]);
            }
        }
        assert(rest.push(s.last()) =~= s);
        assert(r.to_multiset() =~= rest.to_multiset().insert(x).insert(s.last()));
        assert(s.to_multiset() =~= rest.to_multiset().insert(s.last()));
        assert(r.to_multiset() =~= s.to_multiset().insert(x));
    }
}

/// Sorting keeps the elements and puts them in order.
pub proof fn law_sorting<T: Ranked>(s: Seq<T>)
    requires
        total_order::<T>(),
    ensures
        in_order(stable_sorted(s)),
        stable_sorted(s).len() == s.len(),
        stable_sorted(s).to_multiset() == s.to_multiset(),
    decreases s.len(),
{
    broadcast use vstd::seq_lib::group_to_multiset_ensures;

    if s.len() > 0 {
        let rest = s.drop_last();
        law_sorting(rest);
        lemma_stable_insert(stable_sorted(rest), s.last());
        assert(rest.push(s.last()) =~= s);
    } else {
        assert(s =~= Seq::<T>::empty());
        assert(stable_sorted(s) =~= s);
    }
}

/// Any two elements are related.
pub open spec fn pairwise<T>(s: Seq<T>, r: spec_fn(T, T) -> bool) -> bool {
    forall|i: int, j: int|
        0 <= i < s.len() && 0 <= j < s.len() && i != j ==> #[trigger] r(s[i], s[j])
}

proof fn lemma_insert_keeps<T: Ranked>(
    s: Seq<T>,
    x: T,
    p: spec_fn(T) -> bool,
    r: spec_fn(T, T) -> bool,
)
    requires
        pairwise(s, r),
        forall|i: int| 0 <= i < s.len() ==> #[trigger] p(s[i]),
        p(x),
        forall|i: int| 0 <= i < s.len() ==> #[trigger] r(s[i], x),
        forall|i: int| 0 <= i < s.len() ==> #[trigger] r(x, s[i]),
    ensures
        pairwise(stable_insert(s, x), r),
        forall|i: int| 0 <= i < stable_insert(s, x).len() ==> #[trigger] p(stable_insert(s, x)[i]),
        forall|i: int|
            0 <= i < stable_insert(s, x).len() ==> (#[trigger] stable_insert(s, x)[i] == x
                || s.contains(stable_insert(s, x)[i])),
    decreases s.len(),
{
    let all = stable_insert(s, x);
    if s.len() == 0 || s.last().rank_le(x) {
    } else {
        let rest = s.drop_last();
        assert forall|i: int, j: int|
            0 <= i < rest.len() && 0 <= j < rest.len() && i != j implies #[trigger] r(
            rest[i],
            rest[j],
        ) by {
            assert(r(s[i], s[j]));
        }
        assert forall|i: int| 0 <= i < rest.len() implies #[trigger] p(rest[i]) by {
            assert(p(s[i]));
        }
        assert forall|i: int| 0 <= i < rest.len() implies #[trigger] r(rest[i], x) by {
            assert(r(s[i], x));
        }
        assert forall|i: int| 0 <= i < rest.len() implies #[trigger] r(x, rest[i]) by {
            assert(r(x, s[i]));
        }
        lemma_insert_keeps(rest, x, p, r);
        let inner = stable_insert(rest, x);
        let last = s.len() - 1;
        assert forall|i: int| 0 <= i < all.len() implies (#[trigger] all[i] == x || s.contains(
            all[i],
        )) by {
            if i < inner.len() && inner[i] != x {
                let k = choose|k: int| 0 <= k < rest.len() && rest[k] == inner[i];
                assert(s[k] == all[i]);
            } else if i == inner.len() {
                assert(s[last] == all[i]);
            }
        }
        assert forall|i: int| 0 <= i < inner.len() implies r(#[trigger] inner[i], s.last()) && r(
            s.last(),
            inner[i],
        ) by {
            if inner[i] == x {
                assert(r(x, s[last]) && r(s[last], x));
            } else {
                let k = choose|k: int| 0 <= k < rest.len() && rest[k] == inner[i];
                assert(r(s[k], s[last]) && r(s[last], s[k]));
            }
        }
        assert forall|i: int| 0 <= i < all.len() implies #[trigger] p(all[i]) by {
            if i < inner.len() {
                assert(p(inner[i]));
            } else {
                assert(p(s[last]));
            }
        }
        assert forall|i: int, j: int|
            0 <= i < all.len() && 0 <= j < all.len() && i != j implies #[trigger] r(
            all[i],
            all[j],
        ) by {
            if i < inner.len() && j < inner.len() {
                assert(r(inner[i], inner[j]));
            } else if i < inner.len() {
                assert(r(inner[i], s.last()));
            } else {
                assert(r(s.last(), inner[j]));
            }
        }
    }
}

/// What holds of each element, and of any two, holds after sorting too.
pub proof fn lemma_sorted_keeps<T: Ranked>(
    s: Seq<T>,
    p: spec_fn(T) -> bool,
    r: spec_fn(T, T) -> bool,
)
    requires
        pairwise(s, r),
        forall|i: int| 0 <= i < s.len() ==> #[trigger] p(s[i]),
    ensures
        pairwise(stable_sorted(s), r),
        forall|i: int| 0 <= i < stable_sorted(s).len() ==> #[trigger] p(stable_sorted(s)[i]),
        forall|i: int|
            0 <= i < stable_sorted(s).len() ==> s.contains(#[trigger] stable_sorted(s)[i]),
    decreases s.len(),
{
    if s.len() > 0 {
        let rest = s.drop_last();
        let x = s.last();
        let last = s.len() - 1;
        assert forall|i: int, j: int|
            0 <= i < rest.len() && 0 <= j < rest.len() && i != j implies #[trigger] r(
            rest[i],
            rest[j],
        ) by {
            assert(r(s[i], s[j]));
        }
        assert forall|i: int| 0 <= i < rest.len() implies #[trigger] p(rest[i]) by {
            assert(p(s[i]));
        }
        lemma_sorted_keeps(rest, p, r);
        let inner = stable_sorted(rest);
        assert forall|i: int| 0 <= i < inner.len() implies #[trigger] r(inner[i], x) by {
            let k = choose|k: int| 0 <= k < rest.len() && rest[k] == inner[i];
            assert(r(s[k], s[last]));
        }
        assert forall|i: int| 0 <= i < inner.len() implies #[trigger] r(x, inner[i]) by {
            let k = choose|k: int| 0 <= k < rest.len() && rest[k] == inner[i];
            assert(r(s[last], s[k]));
        }
        assert(p(s[last]));
        lemma_insert_keeps(inner, x, p, r);
        let all = stable_sorted(s);
        assert forall|i: int| 0 <= i < all.len() implies s.contains(#[trigger] all[i]) by {
            if all[i] == x {
                assert(s[last] == x);
            } else {
                let k = choose|k: int| 0 <= k < inner.len() && inner[k] == all[i];
                assert(rest.contains(inner[k]));
                let h = choose|h: int| 0 <= h < rest.len() && rest[h] == inner[k];
                assert(s[h] == all[i]);
            }
        }
    }
}

/// The elements of `v` in order; those of equal rank keep the order they had.
pub fn sort<T: Ranked>(v: Vec<T>) -> (r: Vec<T>)
    ensures
        r@ == stable_sorted(v@),
{
    let mut rest = v;
    let ghost all = rest@;
    let mut pending: Vec<T> = Vec::new();
    while rest.len() > 0
        invariant
            rest@.len() + pending@.len() == all.len(),
            rest@ == all.take(rest@.len() as int),
            forall|i: int|
                0 <= i < pending@.len() ==> #[trigger] pending@[i] == all[all.len() - 1 - i],
        decreases rest@.len(),
    {
        let x = rest.pop().unwrap();
        pending.push(x);
    }
    let mut r: Vec<T> = Vec::new();
    let ghost mut done: int = 0;
    assert(all.take(0) =~= Seq::<T>::empty());
    while pending.len() > 0
        invariant
            0 <= done <= all.len(),
            pending@.len() == all.len() - done,
            forall|i: int|
                0 <= i < pending@.len() ==> #[trigger] pending@[i] == all[all.len() - 1 - i],
            r@ == stable_sorted(all.take(done)),
        decreases pending@.len(),
    {
        let x = pending.pop().unwrap();
        assert(x == all[done]);
        assert(all.take(done + 1).drop_last() =~= all.take(done));
        insert_in_order(&mut r, x);
        proof {
            done = done + 1;
        }
    }
    assert(all.take(all.len() as int) =~= all);
    r
}

fn insert_in_order<T: Ranked>(v: &mut Vec<T>, x: T)
    ensures
        final(v)@ == stable_insert(old(v)@, x),
{
    let ghost s = v@;
    let mut k: usize = v.len();
    assert(s.take(k as int) =~= s);
    assert(stable_insert(s, x) + s.skip(k as int) =~= stable_insert(s, x));
    while k > 0 && !v[k - 1].ranks_before(&x)
        invariant
            v@ == s,
            k <= s.len(),
            stable_insert(s, x) == stable_insert(s.take(k as int), x) + s.skip(k as int),
        decreases k,
    {
        proof {
            let a = s.take(k as int);
            assert(a.drop_last() =~= s.take(k - 1));
            assert(stable_insert(a.drop_last(), x).push(a.last()) + s.skip(k as int)
                =~= stable_insert(a.drop_last(), x) + s.skip(k - 1));
        }
        k -= 1;
    }
    proof {
        let a = s.take(k as int);
        assert(k > 0 ==> a.last() == s[k - 1]);
        assert(stable_insert(a, x) =~= a.push(x));
        assert(s.insert(k as int, x) =~= a.push(x) + s.skip(k as int));
    }
    v.insert(k, x);
}

// --------------------------------------------------------------------- models

/// `s` with `x` put in after the last element that may stand before it.
pub open spec fn insert_by<M>(s: Seq<M>, x: M, le: spec_fn(M, M) -> bool) -> Seq<M>
    decreases s.len(),
{
    if s.len() == 0 || le(s.last(), x) {
        s.push(x)
    } else {
        insert_by(s.drop_last(), x, le).push(s.last())
    }
}

/// The elements of `s` in the order that `le` gives; those of equal rank keep the
/// order they had.
pub open spec fn sorted_by<M>(s: Seq<M>, le: spec_fn(M, M) -> bool) -> Seq<M>
    decreases s.len(),
{
    if s.len() == 0 {
        Seq::empty()
    } else {
        insert_by(sorted_by(s.drop_last(), le), s.last(), le)
    }
}

/// The views of a sequence.
pub open spec fn views_of<T: View>(s: Seq<T>) -> Seq<T::V> {
    Seq::new(s.len(), |i: int| s[i]@)
}

proof fn lemma_insert_views<T: Ranked + View>(s: Seq<T>, x: T, le: spec_fn(T::V, T::V) -> bool)
    requires
        forall|a: T, b: T| #[trigger] a.rank_le(b) == le(a@, b@),
    ensures
        views_of(stable_insert(s, x)) == insert_by(views_of(s), x@, le),
    decreases s.len(),
{
    if s.len() == 0 || s.last().rank_le(x) {
        assert(views_of(s.push(x)) =~= views_of(s).push(x@));
    } else {
        lemma_insert_views(s.drop_last(), x, le);
        assert(views_of(s).drop_last() =~= views_of(s.drop_last()));
        let inner = stable_insert(s.drop_last(), x);
        assert(views_of(inner.push(s.last())) =~= views_of(inner).push(s.last()@));
    }
}

/// Sorting values sorts their views, where the order depends on the views alone.
/// An order is total and transitive.
pub open spec fn orders<M>(le: spec_fn(M, M) -> bool) -> bool {
    &&& forall|a: M, b: M| #[trigger] le(a, b) || le(b, a)
    &&& forall|a: M, b: M, c: M|
        #![trigger le(a, b), le(b, c)]
        le(a, b) && le(b, c) ==> le(a, c)
}

/// No element stands behind one that it should stand before.
pub open spec fn ordered_by<M>(s: Seq<M>, le: spec_fn(M, M) -> bool) -> bool {
    forall|i: int, j: int| 0 <= i < j < s.len() ==> le(#[trigger] s[i], #[trigger] s[j])
}

proof fn lemma_insert_by<M>(s: Seq<M>, x: M, le: spec_fn(M, M) -> bool)
    requires
        orders(le),
        ordered_by(s, le),
    ensures
        ordered_by(insert_by(s, x, le), le),
        insert_by(s, x, le).to_multiset() == s.to_multiset().insert(x),
        forall|i: int|
            0 <= i < insert_by(s, x, le).len() ==> (#[trigger] insert_by(s, x, le)[i] == x
                || s.contains(insert_by(s, x, le)[i])),
    decreases s.len(),
{
    broadcast use vstd::seq_lib::group_to_multiset_ensures;

    let r = insert_by(s, x, le);
    if s.len() == 0 || le(s.last(), x) {
        assert forall|i: int, j: int| 0 <= i < j < r.len() implies le(
            #[trigger] r[i],
            #[trigger] r[j],
        ) by {
            if j == s.len() && i < s.len() - 1 {
                assert(le(s[i], s[s.len() - 1]));
            }
        }
        assert forall|i: int| 0 <= i < r.len() implies (#[trigger] r[i] == x || s.contains(r[i])) by {
            if i < s.len() {
                assert(s[i] == r[i]);
            }
        }
    } else {
        let rest = s.drop_last();
        lemma_insert_by(rest, x, le);
        let inner = insert_by(rest, x, le);
        assert forall|i: int, j: int| 0 <= i < j < r.len() implies le(
            #[trigger] r[i],
            #[trigger] r[j],
        ) by {
            if j == inner.len() {
                assert(inner[i] == x || rest.contains(inner[i]));
                if inner[i] != x {
                    let k = choose|k: int| 0 <= k < rest.len() && rest[k] == inner[i];
                    assert(le(s[k], s[s.len() - 1]));
                }
            }
        }
        assert forall|i: int| 0 <= i < r.len() implies (#[trigger] r[i] == x || s.contains(r[i])) by {
            if i < inner.len() {
                assert(inner[i] == x || rest.contains(inner[i]));
                if inner[i] != x {
                    let k = choose|k: int| 0 <= k < rest.len() && rest[k] == inner[i];
                    assert(s[k] == inner[i]);
                }
            } else {
                assert(s[s.len() - 1] == r[i]);
            }
        }
        assert(rest.push(s.last()) =~= s);
        assert(r.to_multiset() =~= rest.to_multiset().insert(x).insert(s.last()));
        assert(s.to_multiset() =~= rest.to_multiset().insert(s.last()));
        assert(r.to_multiset() =~= s.to_multiset().insert(x));
    }
}

/// Sorting by an order keeps the elements and puts them in order.
pub proof fn law_sorting_by<M>(s: Seq<M>, le: spec_fn(M, M) -> bool)
    requires
        orders(le),
    ensures
        ordered_by(sorted_by(s, le), le),
        sorted_by(s, le).len() == s.len(),
        sorted_by(s, le).to_multiset() == s.to_multiset(),
    decreases s.len(),
{
    broadcast use vstd::seq_lib::group_to_multiset_ensures;

    lemma_sorted_by_len(s, le);
    if s.len() > 0 {
        let rest = s.drop_last();
        law_sorting_by(rest, le);
        lemma_insert_by(sorted_by(rest, le), s.last(), le);
        assert(rest.push(s.last()) =~= s);
    } else {
        assert(s =~= Seq::<M>::empty());
    }
}

/// Sorting keeps the length.
pub proof fn lemma_sorted_by_len<M>(s: Seq<M>, le: spec_fn(M, M) -> bool)
    ensures
        sorted_by(s, le).len() == s.len(),
    decreases s.len(),
{
    if s.len() > 0 {
        lemma_sorted_by_len(s.drop_last(), le);
        lemma_insert_by_len(sorted_by(s.drop_last(), le), s.last(), le);
    }
}

proof fn lemma_insert_by_len<M>(s: Seq<M>, x: M, le: spec_fn(M, M) -> bool)
    ensures
        insert_by(s, x, le).len() == s.len() + 1,
    decreases s.len(),
{
    if s.len() > 0 {
        lemma_insert_by_len(s.drop_last(), x, le);
    }
}

pub proof fn lemma_sorted_views<T: Ranked + View>(s: Seq<T>, le: spec_fn(T::V, T::V) -> bool)
    requires
        forall|a: T, b: T| #[trigger] a.rank_le(b) == le(a@, b@),
    ensures
        views_of(stable_sorted(s)) == sorted_by(views_of(s), le),
    decreases s.len(),
{
    if s.len() > 0 {
        lemma_sorted_views(s.drop_last(), le);
        assert(views_of(s).drop_last() =~= views_of(s.drop_last()));
        lemma_insert_views(stable_sorted(s.drop_last()), s.last(), le);
    } else {
        assert(views_of(stable_sorted(s)) =~= Seq::<T::V>::empty());
    }
}

// ---------------------------------------------------------------- text order

/// Text `a` sorts before text `b` or is equal to it, by code points.
pub open spec fn text_le(a: Seq<char>, b: Seq<char>) -> bool
    decreases a.len(),
{
    if a.len() == 0 {
        true
    } else if b.len() == 0 {
        false
    } else if a[0] == b[0] {
        text_le(a.skip(1), b.skip(1))
    } else {
        a[0] < b[0]
    }
}

pub fn chars_le(a: &[char], b: &[char]) -> (r: bool)
    ensures
        r == text_le(a@, b@),
{
    let mut i: usize = 0;
    assert(a@.skip(0) =~= a@);
    assert(b@.skip(0) =~= b@);
    while i < a.len() && i < b.len()
        invariant
            i <= a@.len(),
            i <= b@.len(),
            text_le(a@, b@) == text_le(a@.skip(i as int), b@.skip(i as int)),
        decreases a@.len() - i,
    {
        if a[i] != b[i] {
            return a[i] < b[i];
        }
        assert(a@.skip(i as int).skip(1) =~= a@.skip(i + 1));
        assert(b@.skip(i as int).skip(1) =~= b@.skip(i + 1));
        i += 1;
    }
    i == a.len()
}

pub proof fn lemma_text_le_total(a: Seq<char>, b: Seq<char>)
    ensures
        text_le(a, b) || text_le(b, a),
        text_le(a, b) && text_le(b, a) ==> a == b,
    decreases a.len(),
{
    if a.len() > 0 && b.len() > 0 && a[0] == b[0] {
        lemma_text_le_total(a.skip(1), b.skip(1));
        if text_le(a, b) && text_le(b, a) {
            assert(a =~= seq![a[0]] + a.skip(1));
            assert(b =~= seq![b[0]] + b.skip(1));
        }
    } else if text_le(a, b) && text_le(b, a) {
        assert(a =~= b);
    }
}

pub proof fn lemma_text_le_transitive(a: Seq<char>, b: Seq<char>, c: Seq<char>)
    requires
        text_le(a, b),
        text_le(b, c),
    ensures
        text_le(a, c),
    decreases a.len(),
{
    if a.len() > 0 && b.len() > 0 && c.len() > 0 && a[0] == b[0] && b[0] == c[0] {
        lemma_text_le_transitive(a.skip(1), b.skip(1), c.skip(1));
    }
}

} // verus!
