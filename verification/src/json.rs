//! JSON values, as `serde_json` holds them.
//!
//! `value_json` names the tree that a `serde_json::Value` holds. The contracts
//! of the functions here, each of which makes one call into `serde_json`, are
//! stated over that tree.

use serde::de::{Error as _, Unexpected};
use serde_json::Value;
use vstd::prelude::*;

use crate::scan;

verus! {

/// A JSON tree. A number that is no integer of the machine is kept as the bits
/// of its floating-point form.
pub enum Json {
    Null,
    Bool(bool),
    Int(int),
    Real(int),
    Text(Seq<char>),
    List(Seq<Json>),
    Object(Map<Seq<char>, Json>),
}

#[verifier::external_type_specification]
#[verifier::external_body]
pub struct ExValue(serde_json::Value);

/// The tree that a value holds.
pub uninterp spec fn value_json(v: Value) -> Json;

/// The tree that a text denotes, if it is JSON.
pub uninterp spec fn parsed_json(source: Seq<char>) -> Option<Json>;

/// The compact notation of a tree.
pub uninterp spec fn json_text(j: Json) -> Seq<char>;

/// Why a tree is no unsigned 64-bit number.
pub uninterp spec fn u64_error(j: Json) -> Seq<char>;

/// Why a tree is no unsigned 32-bit number.
pub uninterp spec fn u32_error(j: Json) -> Seq<char>;

/// Why a tree is no machine size.
pub uninterp spec fn usize_error(j: Json) -> Seq<char>;

/// Why a tree is no truth value.
pub uninterp spec fn bool_error(j: Json) -> Seq<char>;

/// Why a tree is no text.
pub uninterp spec fn text_error(j: Json) -> Seq<char>;

/// What is said of a tree where something else was expected.
pub uninterp spec fn type_error(j: Json, expected: Seq<char>) -> Seq<char>;

/// The trees of a sequence of values.
pub open spec fn trees(vs: Seq<Value>) -> Seq<Json> {
    Seq::new(vs.len(), |i: int| value_json(vs[i]))
}

/// The object with the given members; of two with one name the later counts.
pub open spec fn members(fields: Seq<(&'static str, Value)>) -> Map<Seq<char>, Json>
    decreases fields.len(),
{
    if fields.len() == 0 {
        Map::empty()
    } else {
        members(fields.drop_last()).insert(fields.last().0@, value_json(fields.last().1))
    }
}

/// The member `key` of a tree.
pub open spec fn member(j: Json, key: Seq<char>) -> Option<Json> {
    match j {
        Json::Object(m) => if m.contains_key(key) {
            Some(m[key])
        } else {
            None
        },
        _ => None,
    }
}

/// `serde_json::from_str` into a `Value`. Whether a text is JSON, and which tree
/// it denotes, depends on the text alone.
#[verifier::external_body]
pub(crate) fn parse_value(source: &str) -> (r: Option<Value>)
    ensures
        (match r {
            Some(v) => Some(value_json(v)),
            None => None,
        }) == parsed_json(source@),
{
    serde_json::from_str(source).ok()
}

/// `Value::to_string`. The notation depends on the tree alone: an object keeps its
/// members sorted by name.
#[verifier::external_body]
pub(crate) fn write_value(v: &Value) -> (r: String)
    ensures
        r@ == json_text(value_json(*v)),
{
    v.to_string()
}

/// `Value::clone` makes a value with the same tree.
#[verifier::external_body]
pub(crate) fn copy_value(v: &Value) -> (r: Value)
    ensures
        value_json(r) == value_json(*v),
{
    v.clone()
}

/// `Value::Null`.
#[verifier::external_body]
pub(crate) fn null() -> (r: Value)
    ensures
        value_json(r) == Json::Null,
{
    Value::Null
}

/// `Value::from` a `bool`.
#[verifier::external_body]
pub(crate) fn boolean(b: bool) -> (r: Value)
    ensures
        value_json(r) == Json::Bool(b),
{
    Value::from(b)
}

/// `Value::from` a `u64`.
#[verifier::external_body]
pub(crate) fn unsigned(n: u64) -> (r: Value)
    ensures
        value_json(r) == Json::Int(n as int),
{
    Value::from(n)
}

/// `Value::from` an `i64`.
#[verifier::external_body]
pub(crate) fn signed(n: i64) -> (r: Value)
    ensures
        value_json(r) == Json::Int(n as int),
{
    Value::from(n)
}

/// `Value::from` a `&str`.
#[verifier::external_body]
pub(crate) fn string(s: &str) -> (r: Value)
    ensures
        value_json(r) == Json::Text(s@),
{
    Value::from(s)
}

/// `Value::from` a `Vec<Value>`.
#[verifier::external_body]
pub(crate) fn list(vs: Vec<Value>) -> (r: Value)
    ensures
        value_json(r) == Json::List(trees(vs@)),
{
    Value::from(vs)
}

/// `serde_json::Map::from_iter`, as a `Value`.
#[verifier::external_body]
pub(crate) fn object(fields: Vec<(&'static str, Value)>) -> (r: Value)
    ensures
        value_json(r) == Json::Object(members(fields@)),
{
    Value::Object(fields.into_iter().map(|(k, v)| (k.to_string(), v)).collect())
}

/// `Value::get` with a name: the member of an object, here as a value of its own.
#[verifier::external_body]
pub(crate) fn get(v: &Value, key: &str) -> (r: Option<Value>)
    ensures
        (match r {
            Some(x) => Some(value_json(x)),
            None => None,
        }) == member(value_json(*v), key@),
{
    v.get(key).cloned()
}

/// `Value::as_str`: the text of a value that is one.
#[verifier::external_body]
pub(crate) fn as_text(v: &Value) -> (r: Option<String>)
    ensures
        match value_json(*v) {
            Json::Text(s) => r is Some && r->Some_0@ == s,
            _ => r is None,
        },
{
    v.as_str().map(str::to_string)
}

/// `Value::as_array`: the elements of a value that is a list.
#[verifier::external_body]
pub(crate) fn as_list(v: &Value) -> (r: Option<Vec<Value>>)
    ensures
        match value_json(*v) {
            Json::List(xs) => r is Some && trees(r->Some_0@) == xs,
            _ => r is None,
        },
{
    v.as_array().cloned()
}

/// `Value::is_object`.
#[verifier::external_body]
pub(crate) fn is_object(v: &Value) -> (r: bool)
    ensures
        r == (value_json(*v) is Object),
{
    v.is_object()
}

/// `Value::is_null`.
#[verifier::external_body]
pub(crate) fn is_null(v: &Value) -> (r: bool)
    ensures
        r == (value_json(*v) is Null),
{
    v.is_null()
}

/// `Value::as_bool`.
#[verifier::external_body]
pub(crate) fn as_bool(v: &Value) -> (r: Option<bool>)
    ensures
        r == (match value_json(*v) {
            Json::Bool(b) => Some(b),
            _ => None,
        }),
{
    v.as_bool()
}

/// `Value::as_i64`: integers in range are taken.
#[verifier::external_body]
pub(crate) fn as_i64(v: &Value) -> (r: Option<i64>)
    ensures
        r == (match value_json(*v) {
            Json::Int(n) => if i64::MIN <= n <= i64::MAX {
                Some(n as i64)
            } else {
                None
            },
            _ => None,
        }),
{
    v.as_i64()
}

/// `serde_json::from_value` into a `u64`: integers in range are taken; what is
/// said of anything else depends on the tree alone, and starts with `invalid`.
#[verifier::external_body]
pub(crate) fn decode_u64(v: Value) -> (r: Result<u64, String>)
    ensures
        match value_json(v) {
            Json::Int(n) => 0 <= n <= u64::MAX ==> r == Ok::<u64, String>(n as u64),
            _ => r is Err,
        },
        r is Ok ==> value_json(v) == Json::Int(r->Ok_0 as int),
        r is Err ==> r->Err_0@ == u64_error(value_json(v)) && scan::starts_with(
            r->Err_0@,
            "invalid "@,
        ),
{
    serde_json::from_value(v).map_err(|e| e.to_string())
}

/// `serde_json::from_value` into a `u32`: integers in range are taken; what is
/// said of anything else depends on the tree alone, and starts with `invalid`.
#[verifier::external_body]
pub(crate) fn decode_u32(v: Value) -> (r: Result<u32, String>)
    ensures
        match value_json(v) {
            Json::Int(n) => 0 <= n <= u32::MAX ==> r == Ok::<u32, String>(n as u32),
            _ => r is Err,
        },
        r is Ok ==> value_json(v) == Json::Int(r->Ok_0 as int),
        r is Err ==> r->Err_0@ == u32_error(value_json(v)) && scan::starts_with(
            r->Err_0@,
            "invalid "@,
        ),
{
    serde_json::from_value(v).map_err(|e| e.to_string())
}

/// `serde_json::from_value` into a `usize`: integers in range are taken; what is
/// said of anything else depends on the tree alone, and starts with `invalid`.
#[verifier::external_body]
pub(crate) fn decode_usize(v: Value) -> (r: Result<usize, String>)
    ensures
        match value_json(v) {
            Json::Int(n) => 0 <= n <= usize::MAX ==> r == Ok::<usize, String>(n as usize),
            _ => r is Err,
        },
        r is Ok ==> value_json(v) == Json::Int(r->Ok_0 as int),
        r is Err ==> r->Err_0@ == usize_error(value_json(v)) && scan::starts_with(
            r->Err_0@,
            "invalid "@,
        ),
{
    serde_json::from_value(v).map_err(|e| e.to_string())
}

/// `serde_json::from_value` into a `bool`: what is said of anything but a truth
/// value depends on the tree alone, and starts with `invalid`.
#[verifier::external_body]
pub(crate) fn decode_bool(v: Value) -> (r: Result<bool, String>)
    ensures
        match value_json(v) {
            Json::Bool(b) => r == Ok::<bool, String>(b),
            _ => r is Err,
        },
        r is Err ==> r->Err_0@ == bool_error(value_json(v)) && scan::starts_with(
            r->Err_0@,
            "invalid "@,
        ),
{
    serde_json::from_value(v).map_err(|e| e.to_string())
}

/// `serde_json::from_value` into a `String`: what is said of anything but a text
/// depends on the tree alone, and starts with `invalid`.
#[verifier::external_body]
pub(crate) fn decode_text(v: Value) -> (r: Result<String, String>)
    ensures
        match value_json(v) {
            Json::Text(s) => r is Ok && r->Ok_0@ == s,
            _ => r is Err,
        },
        r is Err ==> r->Err_0@ == text_error(value_json(v)) && scan::starts_with(
            r->Err_0@,
            "invalid "@,
        ),
{
    serde_json::from_value(v).map_err(|e| e.to_string())
}

/// `serde_json::Error::invalid_type`, for the kind of value that `v` is: what is
/// said depends on the tree and on what was expected, and starts with `invalid`.
#[verifier::external_body]
pub(crate) fn refuse_type(v: &Value, expected: &str) -> (r: String)
    ensures
        r@ == type_error(value_json(*v), expected@),
        scan::starts_with(r@, "invalid "@),
{
    let found = match v {
        Value::Null => Unexpected::Unit,
        Value::Bool(b) => Unexpected::Bool(*b),
        Value::Number(n) => match (n.as_u64(), n.as_i64(), n.as_f64()) {
            (Some(u), _, _) => Unexpected::Unsigned(u),
            (_, Some(i), _) => Unexpected::Signed(i),
            (_, _, x) => Unexpected::Float(x.unwrap_or_default()),
        },
        Value::String(s) => Unexpected::Str(s),
        Value::Array(_) => Unexpected::Seq,
        Value::Object(_) => Unexpected::Map,
    };
    serde_json::Error::invalid_type(found, &expected).to_string()
}

// --------------------------------------------------------------------- objects

/// The members of an object, in the order they are put in.
pub open spec fn put(fields: Seq<(Seq<char>, Json)>) -> Map<Seq<char>, Json>
    decreases fields.len(),
{
    if fields.len() == 0 {
        Map::empty()
    } else {
        put(fields.drop_last()).insert(fields.last().0, fields.last().1)
    }
}

/// The object with the given members.
pub open spec fn obj(fields: Seq<(Seq<char>, Json)>) -> Json {
    Json::Object(put(fields))
}

/// The names and trees of a sequence of members.
pub open spec fn member_trees(fields: Seq<(&'static str, Value)>) -> Seq<(Seq<char>, Json)> {
    Seq::new(fields.len(), |i: int| (fields[i].0@, value_json(fields[i].1)))
}

proof fn lemma_members(fields: Seq<(&'static str, Value)>)
    ensures
        members(fields) == put(member_trees(fields)),
    decreases fields.len(),
{
    if fields.len() > 0 {
        lemma_members(fields.drop_last());
        assert(member_trees(fields).drop_last() =~= member_trees(fields.drop_last()));
    }
}

/// The object with the given members.
pub fn make_object(fields: Vec<(&'static str, Value)>) -> (r: Value)
    ensures
        value_json(r) == obj(member_trees(fields@)),
{
    proof {
        lemma_members(fields@);
    }
    object(fields)
}

/// A number, or null.
pub open spec fn opt_int(n: Option<u64>) -> Json {
    match n {
        Some(n) => Json::Int(n as int),
        None => Json::Null,
    }
}

/// A text, or null.
pub open spec fn opt_text(s: Option<Seq<char>>) -> Json {
    match s {
        Some(s) => Json::Text(s),
        None => Json::Null,
    }
}

pub fn maybe_unsigned(n: Option<u64>) -> (r: Value)
    ensures
        value_json(r) == opt_int(n),
{
    match n {
        Some(n) => unsigned(n),
        None => null(),
    }
}

pub fn maybe_string(s: &Option<String>) -> (r: Value)
    ensures
        value_json(r) == opt_text(
            match *s {
                Some(t) => Some(t@),
                None => None,
            },
        ),
{
    match s {
        Some(t) => string(t),
        None => null(),
    }
}

/// The empty object.
pub fn obj0() -> (r: Value)
    ensures
        value_json(r) == obj(Seq::empty()),
{
    let fields: Vec<(&'static str, Value)> = Vec::new();
    assert(member_trees(fields@) =~= Seq::empty());
    make_object(fields)
}

/// An object with one member.
pub fn obj1(k1: &'static str, v1: Value) -> (r: Value)
    ensures
        value_json(r) == obj(seq![(k1@, value_json(v1))]),
{
    let mut fields: Vec<(&'static str, Value)> = Vec::new();
    fields.push((k1, v1));
    assert(member_trees(fields@) =~= seq![(k1@, value_json(v1))]);
    make_object(fields)
}

/// An object with two members.
pub fn obj2(k1: &'static str, v1: Value, k2: &'static str, v2: Value) -> (r: Value)
    ensures
        value_json(r) == obj(seq![(k1@, value_json(v1)), (k2@, value_json(v2))]),
{
    let mut fields: Vec<(&'static str, Value)> = Vec::new();
    fields.push((k1, v1));
    fields.push((k2, v2));
    assert(member_trees(fields@) =~= seq![(k1@, value_json(v1)), (k2@, value_json(v2))]);
    make_object(fields)
}

/// An object with three members.
pub fn obj3(
    k1: &'static str,
    v1: Value,
    k2: &'static str,
    v2: Value,
    k3: &'static str,
    v3: Value,
) -> (r: Value)
    ensures
        value_json(r) == obj(
            seq![
                (k1@, value_json(v1)),
                (k2@, value_json(v2)),
                (k3@, value_json(v3)),
            ],
        ),
{
    let mut fields: Vec<(&'static str, Value)> = Vec::new();
    fields.push((k1, v1));
    fields.push((k2, v2));
    fields.push((k3, v3));
    assert(member_trees(fields@) =~= seq![
        (k1@, value_json(v1)),
        (k2@, value_json(v2)),
        (k3@, value_json(v3)),
    ]);
    make_object(fields)
}

/// An object with four members.
#[allow(clippy::too_many_arguments)]
pub fn obj4(
    k1: &'static str,
    v1: Value,
    k2: &'static str,
    v2: Value,
    k3: &'static str,
    v3: Value,
    k4: &'static str,
    v4: Value,
) -> (r: Value)
    ensures
        value_json(r) == obj(
            seq![
                (k1@, value_json(v1)),
                (k2@, value_json(v2)),
                (k3@, value_json(v3)),
                (k4@, value_json(v4)),
            ],
        ),
{
    let mut fields: Vec<(&'static str, Value)> = Vec::new();
    fields.push((k1, v1));
    fields.push((k2, v2));
    fields.push((k3, v3));
    fields.push((k4, v4));
    assert(member_trees(fields@) =~= seq![
        (k1@, value_json(v1)),
        (k2@, value_json(v2)),
        (k3@, value_json(v3)),
        (k4@, value_json(v4)),
    ]);
    make_object(fields)
}

/// An object with five members.
#[allow(clippy::too_many_arguments)]
pub fn obj5(
    k1: &'static str,
    v1: Value,
    k2: &'static str,
    v2: Value,
    k3: &'static str,
    v3: Value,
    k4: &'static str,
    v4: Value,
    k5: &'static str,
    v5: Value,
) -> (r: Value)
    ensures
        value_json(r) == obj(
            seq![
                (k1@, value_json(v1)),
                (k2@, value_json(v2)),
                (k3@, value_json(v3)),
                (k4@, value_json(v4)),
                (k5@, value_json(v5)),
            ],
        ),
{
    let mut fields: Vec<(&'static str, Value)> = Vec::new();
    fields.push((k1, v1));
    fields.push((k2, v2));
    fields.push((k3, v3));
    fields.push((k4, v4));
    fields.push((k5, v5));
    assert(member_trees(fields@) =~= seq![
        (k1@, value_json(v1)),
        (k2@, value_json(v2)),
        (k3@, value_json(v3)),
        (k4@, value_json(v4)),
        (k5@, value_json(v5)),
    ]);
    make_object(fields)
}

/// An object with six members.
#[allow(clippy::too_many_arguments)]
pub fn obj6(
    k1: &'static str,
    v1: Value,
    k2: &'static str,
    v2: Value,
    k3: &'static str,
    v3: Value,
    k4: &'static str,
    v4: Value,
    k5: &'static str,
    v5: Value,
    k6: &'static str,
    v6: Value,
) -> (r: Value)
    ensures
        value_json(r) == obj(
            seq![
                (k1@, value_json(v1)),
                (k2@, value_json(v2)),
                (k3@, value_json(v3)),
                (k4@, value_json(v4)),
                (k5@, value_json(v5)),
                (k6@, value_json(v6)),
            ],
        ),
{
    let mut fields: Vec<(&'static str, Value)> = Vec::new();
    fields.push((k1, v1));
    fields.push((k2, v2));
    fields.push((k3, v3));
    fields.push((k4, v4));
    fields.push((k5, v5));
    fields.push((k6, v6));
    assert(member_trees(fields@) =~= seq![
        (k1@, value_json(v1)),
        (k2@, value_json(v2)),
        (k3@, value_json(v3)),
        (k4@, value_json(v4)),
        (k5@, value_json(v5)),
        (k6@, value_json(v6)),
    ]);
    make_object(fields)
}

/// A list with one element.
pub fn list1(v: Value) -> (r: Value)
    ensures
        value_json(r) == Json::List(seq![value_json(v)]),
{
    let mut vs: Vec<Value> = Vec::new();
    vs.push(v);
    assert(trees(vs@) =~= seq![value_json(v)]);
    list(vs)
}

/// A list of two texts.
pub fn list_texts2(a: &str, b: &str) -> (r: Value)
    ensures
        value_json(r) == Json::List(seq![Json::Text(a@), Json::Text(b@)]),
{
    let mut vs: Vec<Value> = Vec::new();
    vs.push(string(a));
    vs.push(string(b));
    assert(trees(vs@) =~= seq![Json::Text(a@), Json::Text(b@)]);
    list(vs)
}

/// The trees of texts.
pub open spec fn text_trees(ts: Seq<Seq<char>>) -> Seq<Json> {
    Seq::new(ts.len(), |i: int| Json::Text(ts[i]))
}

/// A list of texts.
pub fn list_texts(ts: &Vec<String>) -> (r: Value)
    ensures
        value_json(r) == Json::List(text_trees(scan::string_views(ts@))),
{
    let mut vs: Vec<Value> = Vec::new();
    let mut i: usize = 0;
    let ghost all = text_trees(scan::string_views(ts@));
    while i < ts.len()
        invariant
            all == text_trees(scan::string_views(ts@)),
            i <= ts@.len(),
            trees(vs@) == all.take(i as int),
        decreases ts@.len() - i,
    {
        let ghost before = trees(vs@);
        vs.push(string(&ts[i]));
        assert(trees(vs@) =~= before.push(all[i as int]));
        i += 1;
        assert(all.take(i as int) =~= before.push(all[i - 1]));
    }
    assert(all.take(i as int) =~= all);
    list(vs)
}

} // verus!
