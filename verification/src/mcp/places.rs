//! Arguments that are given by their place rather than by their name.

use vstd::prelude::*;

use crate::json::Json;
use crate::mcp::args;
use crate::mcp::args::ArgModel;
use crate::mcp::tools::{Field, Presence};

verus! {

proof fn lemma_placed(xs: Seq<Json>, fields: Seq<Field>, n: int)
    requires
        0 <= n <= fields.len(),
        n <= xs.len(),
        forall|i: int| 0 <= i < n ==> args::given(#[trigger] fields[i], xs[i]) is Ok,
    ensures
        args::placed(xs, fields, n) is Ok,
        args::placed(xs, fields, n)->Ok_0.len() == n,
        forall|i: int|
            0 <= i < n ==> #[trigger] args::placed(xs, fields, n)->Ok_0[i] == args::given(
                fields[i],
                xs[i],
            )->Ok_0,
    decreases n,
{
    if n > 0 {
        lemma_placed(xs, fields, n - 1);
        assert(args::given(fields[n - 1], xs[n - 1]) is Ok);
    }
}

proof fn lemma_placed_fails(xs: Seq<Json>, fields: Seq<Field>, n: int, k: int)
    requires
        0 <= k < n <= fields.len(),
        k < xs.len() ==> args::given(fields[k], xs[k]) is Err,
        k >= xs.len() ==> fields[k].presence != Presence::Defaulted,
    ensures
        args::placed(xs, fields, n) is Err,
    decreases n,
{
    if k < n - 1 {
        lemma_placed_fails(xs, fields, n - 1, k);
    }
}

/// A list of arguments gives them in the order in which the tool takes them. One too many is
/// refused, and so are one that does not fit and one that is left out and has no default.
pub proof fn law_arguments_by_place(xs: Seq<Json>, fields: Seq<Field>, k: int)
    requires
        0 < fields.len(),
    ensures
        ({
            let r = args::args_of(Json::List(xs), fields);
            &&& xs.len() > fields.len() ==> r is Err
            &&& xs.len() == fields.len() && (forall|i: int|
                0 <= i < fields.len() ==> args::given(#[trigger] fields[i], xs[i]) is Ok) ==> {
                &&& r is Ok && r->Ok_0.len() == fields.len()
                &&& 0 <= k < fields.len() ==> r->Ok_0[k] == args::given(fields[k], xs[k])->Ok_0
            }
            &&& 0 <= k < fields.len() && k < xs.len() && args::given(fields[k], xs[k]) is Err
                ==> r is Err
            &&& 0 <= k < fields.len() && k >= xs.len() && fields[k].presence
                != Presence::Defaulted ==> r is Err
        }),
{
    let n = fields.len() as int;
    if xs.len() == fields.len() && (forall|i: int|
        0 <= i < fields.len() ==> args::given(#[trigger] fields[i], xs[i]) is Ok) {
        lemma_placed(xs, fields, n);
    }
    if 0 <= k < n && k < xs.len() && args::given(fields[k], xs[k]) is Err {
        lemma_placed_fails(xs, fields, n, k);
    }
    if 0 <= k < n && k >= xs.len() && fields[k].presence != Presence::Defaulted {
        lemma_placed_fails(xs, fields, n, k);
    }
}

/// Without arguments to take, whatever is given is taken as none; something that is neither
/// an object nor a list is refused where there are some.
pub proof fn law_no_arguments(j: Json, fields: Seq<Field>)
    ensures
        fields.len() == 0 ==> args::args_of(j, fields) == Ok::<Seq<ArgModel>, Seq<char>>(
            Seq::empty(),
        ),
        fields.len() > 0 && !(j is Object) && !(j is List) ==> args::args_of(j, fields) is Err,
{
}

} // verus!
