//! The arguments of a tool call, read from JSON.
//!
//! Arguments come as an object, by name, or as a list, by place.

use serde_json::Value;
use vstd::prelude::*;

use crate::json;
use crate::json::{
    as_list, decode_bool, decode_text, decode_u32, decode_u64, decode_usize, get, is_object,
    refuse_type,
};
use crate::mcp::tools;
use crate::mcp::tools::{Field, FieldKind, Presence};
use crate::order;
use crate::order::chars_le;
use crate::scan;
use crate::scan::number;
use crate::text::{join2, join3, owned, to_chars};

verus! {

/// One argument.
#[derive(Debug)]
pub enum Arg {
    Number(u64),
    Coordinate(u32),
    Size(usize),
    Flag(bool),
    Text(String),
    Span(usize, usize),
    Absent,
}

/// What an argument is.
pub enum ArgModel {
    Number(u64),
    Coordinate(u32),
    Size(usize),
    Flag(bool),
    Text(Seq<char>),
    Span(usize, usize),
    Absent,
}

impl View for Arg {
    type V = ArgModel;

    open spec fn view(&self) -> ArgModel {
        match *self {
            Arg::Number(n) => ArgModel::Number(n),
            Arg::Coordinate(n) => ArgModel::Coordinate(n),
            Arg::Size(n) => ArgModel::Size(n),
            Arg::Flag(b) => ArgModel::Flag(b),
            Arg::Text(s) => ArgModel::Text(s@),
            Arg::Span(a, z) => ArgModel::Span(a, z),
            Arg::Absent => ArgModel::Absent,
        }
    }
}

pub open spec fn arg_views(v: Seq<Arg>) -> Seq<ArgModel> {
    Seq::new(v.len(), |i: int| v[i]@)
}

// ------------------------------------------------------------------- refusals

/// A field that has to be there and is not.
pub open spec fn missing(name: Seq<char>) -> Seq<char> {
    "missing field `"@ + name + "`"@
}

/// A list of the wrong length.
pub open spec fn bad_length(n: int, expected: Seq<char>) -> Seq<char> {
    "invalid length "@ + scan::decimal(n as nat) + (", expected "@ + expected)
}

fn make_missing(name: &str) -> (r: String)
    ensures
        r@ == missing(name@),
        !tools::says_unknown(r@),
{
    proof {
        reveal_strlit("missing field `");
        tools::lemma_starts_otherwise(missing(name@));
    }
    join3("missing field `", name, "`")
}

fn make_bad_length(n: usize, expected: &str) -> (r: String)
    ensures
        r@ == bad_length(n as int, expected@),
        !tools::says_unknown(r@),
{
    proof {
        reveal_strlit("invalid length ");
        tools::lemma_starts_otherwise(bad_length(n as int, expected@));
    }
    join3("invalid length ", &number(n as u64), &join2(", expected ", expected))
}

/// What is said of a value that is not what a field asks for is not what is said of a
/// tool.
proof fn lemma_invalid(s: Seq<char>)
    requires
        scan::starts_with(s, "invalid "@),
    ensures
        !tools::says_unknown(s),
{
    reveal_strlit("invalid ");
    assert(s.subrange(0, 8)[0] == s[0]);
    tools::lemma_starts_otherwise(s);
}

fn refuse_value(v: &Value, expected: &str) -> (r: String)
    ensures
        r@ == json::type_error(json::value_json(*v), expected@),
        !tools::says_unknown(r@),
{
    let r = refuse_type(v, expected);
    proof {
        lemma_invalid(r@);
    }
    r
}

/// What a list of `n` arguments is called.
pub open spec fn args_of_len(n: int) -> Seq<char> {
    if n == 1 {
        "struct Args with 1 element"@
    } else {
        "struct Args with "@ + scan::decimal(n as nat) + " elements"@
    }
}

fn make_args_of_len(n: usize) -> (r: String)
    ensures
        r@ == args_of_len(n as int),
{
    if n == 1 {
        owned("struct Args with 1 element")
    } else {
        join3("struct Args with ", &number(n as u64), " elements")
    }
}

// ---------------------------------------------------------------------- values

/// A tree as a size.
pub open spec fn size_of_json(j: json::Json) -> Result<usize, Seq<char>> {
    match j {
        json::Json::Int(n) => if 0 <= n <= usize::MAX {
            Ok(n as usize)
        } else {
            Err(json::usize_error(j))
        },
        _ => Err(json::usize_error(j)),
    }
}

/// A tree as a span: an object with `start` and `end`, or a list of the two. The
/// members of an object are read in the order of their names.
pub open spec fn span_of_json(j: json::Json, name: Seq<char>, pair: Seq<char>) -> Result<
    (usize, usize),
    Seq<char>,
> {
    match j {
        json::Json::Object(m) => {
            let start = json::member(j, "start"@);
            let end = json::member(j, "end"@);
            if end is Some && size_of_json(end->Some_0) is Err {
                Err(size_of_json(end->Some_0)->Err_0)
            } else if start is Some && size_of_json(start->Some_0) is Err {
                Err(size_of_json(start->Some_0)->Err_0)
            } else if start is None {
                Err(missing("start"@))
            } else if end is None {
                Err(missing("end"@))
            } else {
                Ok((size_of_json(start->Some_0)->Ok_0, size_of_json(end->Some_0)->Ok_0))
            }
        },
        json::Json::List(xs) => if xs.len() == 0 {
            Err(bad_length(0, pair))
        } else if size_of_json(xs[0]) is Err {
            Err(size_of_json(xs[0])->Err_0)
        } else if xs.len() == 1 {
            Err(bad_length(1, pair))
        } else if size_of_json(xs[1]) is Err {
            Err(size_of_json(xs[1])->Err_0)
        } else if xs.len() > 2 {
            Err(bad_length(xs.len() as int, "fewer elements in array"@))
        } else {
            Ok((size_of_json(xs[0])->Ok_0, size_of_json(xs[1])->Ok_0))
        },
        _ => Err(json::type_error(j, name)),
    }
}

/// A tree as an argument of a kind.
pub open spec fn value_of(kind: FieldKind, j: json::Json) -> Result<ArgModel, Seq<char>> {
    match kind {
        FieldKind::Id | FieldKind::Millis => match j {
            json::Json::Int(n) => if 0 <= n <= u64::MAX {
                Ok(ArgModel::Number(n as u64))
            } else {
                Err(json::u64_error(j))
            },
            _ => Err(json::u64_error(j)),
        },
        FieldKind::Coordinate => match j {
            json::Json::Int(n) => if 0 <= n <= u32::MAX {
                Ok(ArgModel::Coordinate(n as u32))
            } else {
                Err(json::u32_error(j))
            },
            _ => Err(json::u32_error(j)),
        },
        FieldKind::Size | FieldKind::Positive => match size_of_json(j) {
            Ok(n) => Ok(ArgModel::Size(n)),
            Err(e) => Err(e),
        },
        FieldKind::Flag => match j {
            json::Json::Bool(b) => Ok(ArgModel::Flag(b)),
            _ => Err(json::bool_error(j)),
        },
        FieldKind::Text => match j {
            json::Json::Text(s) => Ok(ArgModel::Text(s)),
            _ => Err(json::text_error(j)),
        },
        FieldKind::CharSpan => match span_of_json(
            j,
            "struct CharRange"@,
            "struct CharRange with 2 elements"@,
        ) {
            Ok((a, z)) => Ok(ArgModel::Span(a, z)),
            Err(e) => Err(e),
        },
        FieldKind::ByteSpan => match span_of_json(
            j,
            "struct ByteRange"@,
            "struct ByteRange with 2 elements"@,
        ) {
            Ok((a, z)) => Ok(ArgModel::Span(a, z)),
            Err(e) => Err(e),
        },
    }
}

/// A tree as the argument that a field asks for: null leaves an optional one out.
pub open spec fn given(f: Field, j: json::Json) -> Result<ArgModel, Seq<char>> {
    if f.presence == Presence::Optional && j is Null {
        Ok(ArgModel::Absent)
    } else {
        value_of(f.kind, j)
    }
}

/// What a field that is not given stands for.
pub open spec fn absent(f: Field) -> ArgModel {
    if f.presence == Presence::Defaulted {
        match f.kind {
            FieldKind::Flag => ArgModel::Flag(true),
            FieldKind::Millis => ArgModel::Number(3000),
            _ => ArgModel::Absent,
        }
    } else {
        ArgModel::Absent
    }
}

fn read_size(v: Value) -> (r: Result<usize, String>)
    ensures
        match r {
            Ok(n) => size_of_json(json::value_json(v)) == Ok::<usize, Seq<char>>(n),
            Err(e) => size_of_json(json::value_json(v)) == Err::<usize, _>(e@),
        },
        r is Err ==> !tools::says_unknown(r->Err_0@),
{
    let r = decode_usize(v);
    proof {
        if r is Err {
            lemma_invalid(r->Err_0@);
        }
    }
    r
}

fn read_span(v: &Value, name: &str, pair: &str) -> (r: Result<(usize, usize), String>)
    ensures
        match r {
            Ok(s) => span_of_json(json::value_json(*v), name@, pair@) == Ok::<
                (usize, usize),
                Seq<char>,
            >(s),
            Err(e) => span_of_json(json::value_json(*v), name@, pair@) == Err::<(usize, usize), _>(
                e@,
            ),
        },
        r is Err ==> !tools::says_unknown(r->Err_0@),
{
    if is_object(v) {
        let start = get(v, "start");
        let end = get(v, "end");
        let z: Option<usize> = match end {
            Some(x) => match read_size(x) {
                Ok(n) => Some(n),
                Err(e) => {
                    return Err(e);
                },
            },
            None => None,
        };
        let a: Option<usize> = match start {
            Some(x) => match read_size(x) {
                Ok(n) => Some(n),
                Err(e) => {
                    return Err(e);
                },
            },
            None => None,
        };
        return match (a, z) {
            (None, _) => Err(make_missing("start")),
            (_, None) => Err(make_missing("end")),
            (Some(a), Some(z)) => Ok((a, z)),
        };
    }
    match as_list(v) {
        None => Err(refuse_value(v, name)),
        Some(mut xs) => {
            let ghost all = json::trees(xs@);
            let n: usize = xs.len();
            if n == 0 {
                return Err(make_bad_length(0, pair));
            }
            let first = xs.remove(0);
            assert(json::value_json(first) == all[0]);
            let a: usize = match read_size(first) {
                Ok(a) => a,
                Err(e) => {
                    return Err(e);
                },
            };
            if n == 1 {
                return Err(make_bad_length(1, pair));
            }
            let second = xs.remove(0);
            assert(json::value_json(second) == all[1]);
            let z: usize = match read_size(second) {
                Ok(z) => z,
                Err(e) => {
                    return Err(e);
                },
            };
            if n > 2 {
                return Err(make_bad_length(n, "fewer elements in array"));
            }
            Ok((a, z))
        },
    }
}

fn read_value(kind: FieldKind, v: Value) -> (r: Result<Arg, String>)
    ensures
        match r {
            Ok(a) => value_of(kind, json::value_json(v)) == Ok::<ArgModel, Seq<char>>(a@),
            Err(e) => value_of(kind, json::value_json(v)) == Err::<ArgModel, _>(e@),
        },
        r is Err ==> !tools::says_unknown(r->Err_0@),
{
    match kind {
        FieldKind::Id | FieldKind::Millis => match decode_u64(v) {
            Ok(n) => Ok(Arg::Number(n)),
            Err(e) => {
                proof {
                    lemma_invalid(e@);
                }
                Err(e)
            },
        },
        FieldKind::Coordinate => match decode_u32(v) {
            Ok(n) => Ok(Arg::Coordinate(n)),
            Err(e) => {
                proof {
                    lemma_invalid(e@);
                }
                Err(e)
            },
        },
        FieldKind::Size | FieldKind::Positive => match read_size(v) {
            Ok(n) => Ok(Arg::Size(n)),
            Err(e) => Err(e),
        },
        FieldKind::Flag => match decode_bool(v) {
            Ok(b) => Ok(Arg::Flag(b)),
            Err(e) => {
                proof {
                    lemma_invalid(e@);
                }
                Err(e)
            },
        },
        FieldKind::Text => match decode_text(v) {
            Ok(s) => Ok(Arg::Text(s)),
            Err(e) => {
                proof {
                    lemma_invalid(e@);
                }
                Err(e)
            },
        },
        FieldKind::CharSpan => match read_span(
            &v,
            "struct CharRange",
            "struct CharRange with 2 elements",
        ) {
            Ok((a, z)) => Ok(Arg::Span(a, z)),
            Err(e) => Err(e),
        },
        FieldKind::ByteSpan => match read_span(
            &v,
            "struct ByteRange",
            "struct ByteRange with 2 elements",
        ) {
            Ok((a, z)) => Ok(Arg::Span(a, z)),
            Err(e) => Err(e),
        },
    }
}

fn read_given(f: Field, v: Value) -> (r: Result<Arg, String>)
    ensures
        match r {
            Ok(a) => given(f, json::value_json(v)) == Ok::<ArgModel, Seq<char>>(a@),
            Err(e) => given(f, json::value_json(v)) == Err::<ArgModel, _>(e@),
        },
        r is Err ==> !tools::says_unknown(r->Err_0@),
{
    if f.presence == Presence::Optional && json::is_null(&v) {
        Ok(Arg::Absent)
    } else {
        read_value(f.kind, v)
    }
}

fn make_absent(f: Field) -> (r: Arg)
    ensures
        r@ == absent(f),
{
    if f.presence == Presence::Defaulted {
        match f.kind {
            FieldKind::Flag => Arg::Flag(true),
            FieldKind::Millis => Arg::Number(3000),
            _ => Arg::Absent,
        }
    } else {
        Arg::Absent
    }
}

// -------------------------------------------------------------------- by name

/// The member of an object for a field is there and is not what the field asks
/// for.
pub open spec fn faulty(j: json::Json, f: Field) -> bool {
    json::member(j, f.name@) matches Some(x) && given(f, x) is Err
}

/// Of the first `n` fields the faulty one whose name comes first.
pub open spec fn first_faulty(j: json::Json, fields: Seq<Field>, n: int) -> Option<int>
    decreases n,
{
    if n <= 0 {
        None
    } else {
        let before = first_faulty(j, fields, n - 1);
        if !faulty(j, fields[n - 1]) {
            before
        } else {
            match before {
                Some(k) => if order::text_le(fields[k].name@, fields[n - 1].name@) {
                    Some(k)
                } else {
                    Some(n - 1)
                },
                None => Some(n - 1),
            }
        }
    }
}

/// Of the first `n` fields the first that has to be given and is not.
pub open spec fn first_missing(j: json::Json, fields: Seq<Field>, n: int) -> Option<int>
    decreases n,
{
    if n <= 0 {
        None
    } else {
        match first_missing(j, fields, n - 1) {
            Some(k) => Some(k),
            None => if fields[n - 1].presence == Presence::Required && json::member(
                j,
                fields[n - 1].name@,
            ) is None {
                Some(n - 1)
            } else {
                None
            },
        }
    }
}

/// What stands for a field in an object without fault.
pub open spec fn named_arg(j: json::Json, f: Field) -> ArgModel {
    match json::member(j, f.name@) {
        Some(x) => given(f, x)->Ok_0,
        None => absent(f),
    }
}

/// The arguments of an object: faults are reported in the order of the names,
/// then what is missing in the order of the fields.
pub open spec fn args_by_name(j: json::Json, fields: Seq<Field>) -> Result<
    Seq<ArgModel>,
    Seq<char>,
> {
    let n = fields.len() as int;
    match first_faulty(j, fields, n) {
        Some(k) => Err(given(fields[k], json::member(j, fields[k].name@)->Some_0)->Err_0),
        None => match first_missing(j, fields, n) {
            Some(k) => Err(missing(fields[k].name@)),
            None => Ok(Seq::new(fields.len(), |i: int| named_arg(j, fields[i]))),
        },
    }
}

proof fn lemma_first_faulty(j: json::Json, fields: Seq<Field>, n: int)
    requires
        0 <= n <= fields.len(),
    ensures
        match first_faulty(j, fields, n) {
            Some(k) => 0 <= k < n && faulty(j, fields[k]),
            None => forall|i: int| 0 <= i < n ==> !faulty(j, #[trigger] fields[i]),
        },
    decreases n,
{
    if n > 0 {
        lemma_first_faulty(j, fields, n - 1);
    }
}

fn read_by_name(v: &Value, fields: &Vec<Field>) -> (r: Result<Vec<Arg>, String>)
    ensures
        match r {
            Ok(args) => args_by_name(json::value_json(*v), fields@) == Ok::<
                Seq<ArgModel>,
                Seq<char>,
            >(arg_views(args@)),
            Err(e) => args_by_name(json::value_json(*v), fields@) == Err::<Seq<ArgModel>, _>(e@),
        },
        r is Err ==> !tools::says_unknown(r->Err_0@),
{
    let ghost j = json::value_json(*v);
    let ghost all = Seq::new(fields@.len(), |i: int| named_arg(j, fields@[i]));
    let mut args: Vec<Arg> = Vec::new();
    let mut fault: Option<(usize, String)> = None;
    let mut gone: Option<usize> = None;
    let mut i: usize = 0;
    while i < fields.len()
        invariant
            i <= fields@.len(),
            j == json::value_json(*v),
            all == Seq::new(fields@.len(), |i: int| named_arg(j, fields@[i])),
            match fault {
                Some((k, e)) => {
                    &&& !tools::says_unknown(e@)
                    &&& first_faulty(j, fields@, i as int) == Some(k as int)
                    &&& k < i
                    &&& e@ == given(
                        fields@[k as int],
                        json::member(j, fields@[k as int].name@)->Some_0,
                    )->Err_0
                },
                None => {
                    &&& first_faulty(j, fields@, i as int) is None
                    &&& arg_views(args@) == all.take(i as int)
                },
            },
            match gone {
                Some(k) => first_missing(j, fields@, i as int) == Some(k as int) && k < i,
                None => first_missing(j, fields@, i as int) is None,
            },
        decreases fields@.len() - i,
    {
        let f = fields[i];
        let ghost before = arg_views(args@);
        match get(v, f.name) {
            Some(x) => match read_given(f, x) {
                Ok(a) => {
                    args.push(a);
                    assert(arg_views(args@) =~= before.push(a@));
                },
                Err(e) => {
                    let keep = match &fault {
                        Some((k, _)) => chars_le(&to_chars(fields[*k].name), &to_chars(f.name)),
                        None => false,
                    };
                    if !keep {
                        fault = Some((i, e));
                    }
                },
            },
            None => {
                if f.presence == Presence::Required && gone.is_none() {
                    gone = Some(i);
                }
                args.push(make_absent(f));
                assert(arg_views(args@) =~= before.push(absent(f)));
            },
        }
        i += 1;
        assert(fault is None ==> all.take(i as int) =~= before.push(all[i - 1]));
    }
    assert(all.take(i as int) =~= all);
    match fault {
        Some((_, e)) => Err(e),
        None => match gone {
            Some(k) => Err(make_missing(fields[k].name)),
            None => Ok(args),
        },
    }
}

// ------------------------------------------------------------------- by place

/// The first `n` arguments of a list.
pub open spec fn placed(xs: Seq<json::Json>, fields: Seq<Field>, n: int) -> Result<
    Seq<ArgModel>,
    Seq<char>,
>
    decreases n,
{
    if n <= 0 {
        Ok(Seq::empty())
    } else {
        match placed(xs, fields, n - 1) {
            Err(e) => Err(e),
            Ok(before) => {
                let f = fields[n - 1];
                if n - 1 < xs.len() {
                    match given(f, xs[n - 1]) {
                        Ok(a) => Ok(before.push(a)),
                        Err(e) => Err(e),
                    }
                } else if f.presence == Presence::Defaulted {
                    Ok(before.push(absent(f)))
                } else {
                    Err(bad_length(n - 1, args_of_len(fields.len() as int)))
                }
            },
        }
    }
}

/// The arguments of a list.
pub open spec fn args_by_place(xs: Seq<json::Json>, fields: Seq<Field>) -> Result<
    Seq<ArgModel>,
    Seq<char>,
> {
    match placed(xs, fields, fields.len() as int) {
        Err(e) => Err(e),
        Ok(args) => if xs.len() > fields.len() {
            Err(bad_length(xs.len() as int, "fewer elements in array"@))
        } else {
            Ok(args)
        },
    }
}

proof fn lemma_placed_fails(xs: Seq<json::Json>, fields: Seq<Field>, i: int, n: int)
    requires
        0 <= i <= n,
        placed(xs, fields, i) is Err,
    ensures
        placed(xs, fields, n) == placed(xs, fields, i),
    decreases n - i,
{
    if i < n {
        lemma_placed_fails(xs, fields, i, n - 1);
    }
}

fn read_by_place(xs: Vec<Value>, fields: &Vec<Field>) -> (r: Result<Vec<Arg>, String>)
    ensures
        match r {
            Ok(args) => args_by_place(json::trees(xs@), fields@) == Ok::<
                Seq<ArgModel>,
                Seq<char>,
            >(arg_views(args@)),
            Err(e) => args_by_place(json::trees(xs@), fields@) == Err::<Seq<ArgModel>, _>(e@),
        },
        r is Err ==> !tools::says_unknown(r->Err_0@),
{
    let ghost js = json::trees(xs@);
    let n: usize = xs.len();
    let mut rest = xs;
    let mut args: Vec<Arg> = Vec::new();
    assert(arg_views(args@) =~= Seq::empty());
    let mut i: usize = 0;
    while i < fields.len()
        invariant
            i <= fields@.len(),
            js == json::trees(xs@),
            n == js.len(),
            rest@.len() == (if i <= n { n - i } else { 0 }),
            forall|k: int| 0 <= k < rest@.len() ==> json::value_json(#[trigger] rest@[k]) == js[i
                + k],
            placed(js, fields@, i as int) == Ok::<Seq<ArgModel>, Seq<char>>(arg_views(args@)),
        decreases fields@.len() - i,
    {
        let f = fields[i];
        let ghost before = arg_views(args@);
        if i < n {
            let ghost held = rest@;
            let x = rest.remove(0);
            assert(json::value_json(x) == js[i as int]);
            assert forall|k: int| 0 <= k < rest@.len() implies json::value_json(
                #[trigger] rest@[k],
            ) == js[i + 1 + k] by {
                assert(rest@[k] == held[k + 1]);
            }
            match read_given(f, x) {
                Ok(a) => {
                    args.push(a);
                    assert(arg_views(args@) =~= before.push(a@));
                },
                Err(e) => {
                    proof {
                        lemma_placed_fails(js, fields@, i + 1, fields@.len() as int);
                    }
                    return Err(e);
                },
            }
        } else if f.presence == Presence::Defaulted {
            args.push(make_absent(f));
            assert(arg_views(args@) =~= before.push(absent(f)));
        } else {
            proof {
                lemma_placed_fails(js, fields@, i + 1, fields@.len() as int);
            }
            return Err(make_bad_length(i, &make_args_of_len(fields.len())));
        }
        i += 1;
    }
    if n > fields.len() {
        return Err(make_bad_length(n, "fewer elements in array"));
    }
    Ok(args)
}

// ------------------------------------------------------------------ arguments

/// The arguments that a tree gives to a tool. A tool that takes none looks at
/// none.
pub open spec fn args_of(j: json::Json, fields: Seq<Field>) -> Result<Seq<ArgModel>, Seq<char>> {
    if fields.len() == 0 {
        Ok(Seq::empty())
    } else {
        match j {
            json::Json::Object(_) => args_by_name(j, fields),
            json::Json::List(xs) => args_by_place(xs, fields),
            _ => Err(json::type_error(j, "struct Args"@)),
        }
    }
}

/// Reads the arguments of a tool. What is wrong with them is never said in the words that
/// are said of a tool that is not there.
pub fn read_args(v: &Value, fields: &Vec<Field>) -> (r: Result<Vec<Arg>, String>)
    ensures
        match r {
            Ok(args) => args_of(json::value_json(*v), fields@) == Ok::<Seq<ArgModel>, Seq<char>>(
                arg_views(args@),
            ),
            Err(e) => args_of(json::value_json(*v), fields@) == Err::<Seq<ArgModel>, _>(e@),
        },
        r is Err ==> !tools::says_unknown(r->Err_0@),
{
    if fields.len() == 0 {
        let none: Vec<Arg> = Vec::new();
        assert(arg_views(none@) =~= Seq::empty());
        return Ok(none);
    }
    if is_object(v) {
        return read_by_name(v, fields);
    }
    match as_list(v) {
        Some(xs) => read_by_place(xs, fields),
        None => Err(refuse_value(v, "struct Args")),
    }
}

// ------------------------------------------------------------------ accessors

pub open spec fn number_at(args: Seq<ArgModel>, i: int) -> u64 {
    match args[i] {
        ArgModel::Number(n) => if 0 <= i < args.len() {
            n
        } else {
            0
        },
        _ => 0,
    }
}

pub open spec fn coordinate_at(args: Seq<ArgModel>, i: int) -> u32 {
    match args[i] {
        ArgModel::Coordinate(n) => if 0 <= i < args.len() {
            n
        } else {
            0
        },
        _ => 0,
    }
}

pub open spec fn size_at(args: Seq<ArgModel>, i: int) -> usize {
    match args[i] {
        ArgModel::Size(n) => if 0 <= i < args.len() {
            n
        } else {
            0
        },
        _ => 0,
    }
}

pub open spec fn flag_at(args: Seq<ArgModel>, i: int) -> bool {
    0 <= i < args.len() && args[i] == ArgModel::Flag(true)
}

pub open spec fn text_at(args: Seq<ArgModel>, i: int) -> Option<Seq<char>> {
    match args[i] {
        ArgModel::Text(s) => if 0 <= i < args.len() {
            Some(s)
        } else {
            None
        },
        _ => None,
    }
}

/// The text at a place, or none.
pub open spec fn string_at(args: Seq<ArgModel>, i: int) -> Seq<char> {
    match text_at(args, i) {
        Some(s) => s,
        None => ""@,
    }
}

pub open spec fn span_at(args: Seq<ArgModel>, i: int) -> Option<(usize, usize)> {
    match args[i] {
        ArgModel::Span(a, z) => if 0 <= i < args.len() {
            Some((a, z))
        } else {
            None
        },
        _ => None,
    }
}

pub fn get_number(args: &Vec<Arg>, i: usize) -> (r: u64)
    ensures
        r == number_at(arg_views(args@), i as int),
{
    if i < args.len() {
        assert(arg_views(args@)[i as int] == args@[i as int]@);
        if let Arg::Number(n) = &args[i] {
            return *n;
        }
    }
    0
}

pub fn get_coordinate(args: &Vec<Arg>, i: usize) -> (r: u32)
    ensures
        r == coordinate_at(arg_views(args@), i as int),
{
    if i < args.len() {
        assert(arg_views(args@)[i as int] == args@[i as int]@);
        if let Arg::Coordinate(n) = &args[i] {
            return *n;
        }
    }
    0
}

pub fn get_size(args: &Vec<Arg>, i: usize) -> (r: usize)
    ensures
        r == size_at(arg_views(args@), i as int),
{
    if i < args.len() {
        assert(arg_views(args@)[i as int] == args@[i as int]@);
        if let Arg::Size(n) = &args[i] {
            return *n;
        }
    }
    0
}

pub fn get_flag(args: &Vec<Arg>, i: usize) -> (r: bool)
    ensures
        r == flag_at(arg_views(args@), i as int),
{
    if i < args.len() {
        assert(arg_views(args@)[i as int] == args@[i as int]@);
        if let Arg::Flag(b) = &args[i] {
            return *b;
        }
    }
    false
}

pub fn get_text(args: &Vec<Arg>, i: usize) -> (r: Option<String>)
    ensures
        match r {
            Some(s) => text_at(arg_views(args@), i as int) == Some(s@),
            None => text_at(arg_views(args@), i as int) is None,
        },
{
    if i < args.len() {
        assert(arg_views(args@)[i as int] == args@[i as int]@);
        if let Arg::Text(s) = &args[i] {
            return Some(owned(s));
        }
    }
    None
}

pub fn get_string(args: &Vec<Arg>, i: usize) -> (r: String)
    ensures
        r@ == string_at(arg_views(args@), i as int),
{
    match get_text(args, i) {
        Some(s) => s,
        None => owned(""),
    }
}

pub fn get_span(args: &Vec<Arg>, i: usize) -> (r: Option<(usize, usize)>)
    ensures
        r == span_at(arg_views(args@), i as int),
{
    if i < args.len() {
        assert(arg_views(args@)[i as int] == args@[i as int]@);
        if let Arg::Span(a, z) = &args[i] {
            return Some((*a, *z));
        }
    }
    None
}

} // verus!
