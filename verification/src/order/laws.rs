//! What sorting keeps, and what it means for one text to come before another.

use vstd::prelude::*;

use crate::order;

verus! {

proof fn lemma_insert_by<M>(
    s: Seq<M>,
    x: M,
    le: spec_fn(M, M) -> bool,
    r: spec_fn(M, M) -> bool,
)
    requires
        forall|i: int| 0 <= i < s.len() ==> r(#[trigger] s[i], x),
        forall|i: int, j: int|
            0 <= i < j < s.len() && le(#[trigger] s[j], #[trigger] s[i]) ==> r(s[i], s[j]),
    ensures
        ({
            let t = order::insert_by(s, x, le);
            &&& t.len() == s.len() + 1
            &&& forall|i: int| 0 <= i < t.len() ==> (#[trigger] t[i] == x || s.contains(t[i]))
            &&& forall|i: int| 0 <= i < s.len() ==> t.contains(#[trigger] s[i])
            &&& t.contains(x)
            &&& forall|i: int, j: int|
                0 <= i < j < t.len() && le(#[trigger] t[j], #[trigger] t[i]) ==> r(t[i], t[j])
        }),
    decreases s.len(),
{
    let t = order::insert_by(s, x, le);
    if s.len() == 0 || le(s.last(), x) {
        assert forall|i: int| 0 <= i < t.len() implies (#[trigger] t[i] == x || s.contains(
            t[i],
        )) by {
            if i < s.len() {
                assert(t[i] == s[i]);
            }
        }
        assert forall|i: int| 0 <= i < s.len() implies t.contains(#[trigger] s[i]) by {
            assert(t[i] == s[i]);
        }
        assert(t[s.len() as int] == x);
    } else {
        let rest = s.drop_last();
        assert forall|i: int| 0 <= i < rest.len() implies r(#[trigger] rest[i], x) by {
            assert(rest[i] == s[i]);
        }
        lemma_insert_by(rest, x, le, r);
        let u = order::insert_by(rest, x, le);
        assert forall|i: int| 0 <= i < t.len() implies (#[trigger] t[i] == x || s.contains(
            t[i],
        )) by {
            if i < u.len() {
                assert(t[i] == u[i]);
                if u[i] != x {
                    let k = choose|k: int| 0 <= k < rest.len() && rest[k] == u[i];
                    assert(s[k] == u[i]);
                }
            } else {
                assert(t[i] == s[s.len() - 1]);
            }
        }
        assert forall|i: int| 0 <= i < s.len() implies t.contains(#[trigger] s[i]) by {
            if i < rest.len() {
                assert(u.contains(rest[i]));
                let k = choose|k: int| 0 <= k < u.len() && u[k] == rest[i];
                assert(t[k] == s[i]);
            } else {
                assert(t[u.len() as int] == s[i]);
            }
        }
        let k = choose|k: int| 0 <= k < u.len() && u[k] == x;
        assert(t[k] == x);
        assert forall|i: int, j: int|
            0 <= i < j < t.len() && le(#[trigger] t[j], #[trigger] t[i]) implies r(t[i], t[j]) by {
            if j < u.len() {
                assert(t[j] == u[j] && t[i] == u[i]);
            } else {
                assert(t[j] == s[s.len() - 1]);
                assert(t[i] == u[i]);
                if u[i] != x {
                    let n = choose|n: int| 0 <= n < rest.len() && rest[n] == u[i];
                    assert(s[n] == t[i]);
                }
            }
        }
    }
}

/// Sorting keeps the elements, and of two of them that may stand either way the one that
/// was first stays first: whatever holds of each element and those behind it still holds of
/// the two.
pub proof fn law_sorting_is_stable<M>(
    s: Seq<M>,
    le: spec_fn(M, M) -> bool,
    r: spec_fn(M, M) -> bool,
)
    requires
        forall|i: int, j: int| 0 <= i < j < s.len() ==> r(#[trigger] s[i], #[trigger] s[j]),
    ensures
        ({
            let t = order::sorted_by(s, le);
            &&& t.len() == s.len()
            &&& forall|i: int| 0 <= i < t.len() ==> s.contains(#[trigger] t[i])
            &&& forall|i: int| 0 <= i < s.len() ==> t.contains(#[trigger] s[i])
            &&& forall|i: int, j: int|
                0 <= i < j < t.len() && le(#[trigger] t[j], #[trigger] t[i]) ==> r(t[i], t[j])
        }),
    decreases s.len(),
{
    if s.len() > 0 {
        let rest = s.drop_last();
        assert forall|i: int, j: int| 0 <= i < j < rest.len() implies r(
            #[trigger] rest[i],
            #[trigger] rest[j],
        ) by {
            assert(rest[i] == s[i] && rest[j] == s[j]);
        }
        law_sorting_is_stable(rest, le, r);
        let u = order::sorted_by(rest, le);
        let x = s.last();
        assert forall|i: int| 0 <= i < u.len() implies r(#[trigger] u[i], x) by {
            let k = choose|k: int| 0 <= k < rest.len() && rest[k] == u[i];
            assert(s[k] == u[i]);
            assert(s[s.len() - 1] == x);
        }
        lemma_insert_by(u, x, le, r);
        let t = order::sorted_by(s, le);
        assert forall|i: int| 0 <= i < t.len() implies s.contains(#[trigger] t[i]) by {
            if t[i] == x {
                assert(s[s.len() - 1] == x);
            } else {
                let k = choose|k: int| 0 <= k < u.len() && u[k] == t[i];
                assert(rest.contains(u[k]));
                let n = choose|n: int| 0 <= n < rest.len() && rest[n] == u[k];
                assert(s[n] == t[i]);
            }
        }
        assert forall|i: int| 0 <= i < s.len() implies t.contains(#[trigger] s[i]) by {
            if i < rest.len() {
                assert(u.contains(rest[i]));
                let k = choose|k: int| 0 <= k < u.len() && u[k] == rest[i];
                assert(t.contains(u[k]));
            }
        }
    }
}

/// One text comes before another by the first character in which they differ; one that
/// ends there comes first.
pub proof fn law_texts_are_compared_by_their_first_difference(
    common: Seq<char>,
    a: Seq<char>,
    b: Seq<char>,
)
    ensures
        order::text_le(common + a, common + b) == order::text_le(a, b),
        a.len() == 0 ==> order::text_le(a, b),
        a.len() > 0 && b.len() == 0 ==> !order::text_le(a, b),
        a.len() > 0 && b.len() > 0 && a[0] != b[0] ==> order::text_le(a, b) == (a[0] < b[0]),
    decreases common.len(),
{
    if common.len() == 0 {
        assert(common + a =~= a);
        assert(common + b =~= b);
    } else {
        law_texts_are_compared_by_their_first_difference(common.skip(1), a, b);
        assert((common + a).skip(1) =~= common.skip(1) + a);
        assert((common + b).skip(1) =~= common.skip(1) + b);
        assert((common + a)[0] == (common + b)[0]);
    }
}

} // verus!
