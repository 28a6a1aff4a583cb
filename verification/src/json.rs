//! JSON values as `serde_json` holds them, and everything this library
//! takes on trust about them.
//!
//! Verified code never looks inside a `serde_json` value. It reasons about the
//! mathematical tree [`Json`] that the value stands for, and reaches the value
//! only through the functions of this module. Each of them makes one call
//! into `serde_json` (or matches on one of its enums; two of them hand a
//! binary64 number on to a second call), and its contract restates what the
//! crate's source does. None of these contracts is proved.

use crate::order::ascending;
use vstd::prelude::*;

verus! {

/// A generic JSON value.
pub type JsonValue = serde_json::Value;

/// A JSON object: member names with their values.
pub type JsonObject = serde_json::Map<String, serde_json::Value>;

/// A JSON number.
pub type JsonNumber = serde_json::Number;

/// `serde_json::Value`, of which verified code sees nothing but [`json_of`].
#[verifier::external_type_specification]
#[verifier::external_body]
pub struct ExValue(serde_json::Value);

/// `serde_json::Number`, of which verified code sees nothing but
/// [`number_of`].
#[verifier::external_type_specification]
#[verifier::external_body]
pub struct ExNumber(serde_json::Number);

/// `serde_json::Map`, of which verified code sees nothing but
/// [`members_of`].
#[verifier::external_type_specification]
#[verifier::external_body]
#[verifier::reject_recursive_types(K)]
#[verifier::reject_recursive_types(V)]
pub struct ExMap<K, V>(serde_json::Map<K, V>);

/// What a JSON number is to this library.
pub struct Num {
    /// The number as a signed 64-bit integer, where it is one.
    pub int: Option<i64>,
    /// The IEEE 754 binary64 bit pattern of the number read as a real.
    pub real: u64,
}

/// The mathematical content of a JSON value.
pub enum Json {
    Null,
    Bool(bool),
    Number(Num),
    String(Seq<char>),
    Array(Seq<Json>),
    Object(Map<Seq<char>, Json>),
}

/// The tree that a `serde_json::Value` holds.
pub uninterp spec fn json_of(v: serde_json::Value) -> Json;

/// The members that a `serde_json::Map` holds.
pub uninterp spec fn members_of(m: serde_json::Map<String, serde_json::Value>) -> Map<
    Seq<char>,
    Json,
>;

/// What `as_i64` and `as_f64` give for a `serde_json::Number`.
pub uninterp spec fn number_of(n: serde_json::Number) -> Num;

/// The value that `serde_json::from_str` reads from a text, `None` where it
/// reports an error.
pub uninterp spec fn json_text(s: Seq<char>) -> Option<Json>;

/// The binary64 reading of the JSON number that `serde_json` makes of a
/// 32-bit integer, as a bit pattern.
pub uninterp spec fn int_real(i: i32) -> u64;

/// The JSON number that stands for a 32-bit integer.
pub open spec fn json_int(i: i32) -> Json {
    Json::Number(Num { int: Some(i as i64), real: int_real(i) })
}

/// The trees of a sequence of values.
pub open spec fn jsons(items: Seq<serde_json::Value>) -> Seq<Json> {
    Seq::new(items.len(), |i: int| json_of(items[i]))
}

/// The bit patterns of a sequence of numbers.
pub open spec fn reals(items: Seq<serde_json::Number>) -> Seq<u64> {
    Seq::new(items.len(), |i: int| number_of(items[i]).real)
}

/// The views of a sequence of strings.
pub open spec fn texts(items: Seq<String>) -> Seq<Seq<char>> {
    Seq::new(items.len(), |i: int| items[i]@)
}

/// `serde_json::from_str::<Value>`, with the error dropped.
///
/// Assumed: the outcome depends on the text alone.
#[verifier::external_body]
pub(crate) fn read_text(s: &str) -> (r: Option<serde_json::Value>)
    ensures
        match r {
            Some(v) => json_text(s@) == Some(json_of(v)),
            None => json_text(s@) is None,
        },
{
    serde_json::from_str::<serde_json::Value>(s).ok()
}

/// `Map::remove`.
///
/// Assumed: it hands out the value stored under `key`, if there is one, and
/// leaves the other members as they were.
#[verifier::external_body]
pub(crate) fn remove_member(m: &mut serde_json::Map<String, serde_json::Value>, key: &str) -> (r:
    Option<serde_json::Value>)
    ensures
        members_of(*final(m)) == members_of(*old(m)).remove(key@),
        match r {
            Some(v) => members_of(*old(m)).contains_key(key@) && json_of(v) == members_of(
                *old(m),
            )[key@],
            None => !members_of(*old(m)).contains_key(key@),
        },
{
    m.remove(key)
}

/// `Map::get`.
///
/// Assumed: it finds the value stored under `key`, if there is one.
#[verifier::external_body]
pub(crate) fn get_member<'a>(
    m: &'a serde_json::Map<String, serde_json::Value>,
    key: &str,
) -> (r: Option<&'a serde_json::Value>)
    ensures
        match r {
            Some(v) => members_of(*m).contains_key(key@) && json_of(*v) == members_of(*m)[key@],
            None => !members_of(*m).contains_key(key@),
        },
{
    m.get(key)
}

/// `Map::is_empty`.
#[verifier::external_body]
pub(crate) fn has_no_members(m: &serde_json::Map<String, serde_json::Value>) -> (r: bool)
    ensures
        r == (members_of(*m) == Map::<Seq<char>, Json>::empty()),
{
    m.is_empty()
}

/// `Map::keys`, collected.
///
/// Assumed: the map is the ordered one that `serde_json` uses by default, so
/// every member name comes once, in the order of `String`.
#[verifier::external_body]
pub(crate) fn member_names(m: &serde_json::Map<String, serde_json::Value>) -> (r: Vec<String>)
    ensures
        ascending(texts(r@)),
        texts(r@).to_set() == members_of(*m).dom(),
{
    m.keys().cloned().collect()
}

/// `Map::new`.
#[verifier::external_body]
pub(crate) fn new_object() -> (r: serde_json::Map<String, serde_json::Value>)
    ensures
        members_of(r) == (Map::<Seq<char>, Json>::empty()),
{
    serde_json::Map::new()
}

/// `Map::insert`, with the value it replaces dropped.
#[verifier::external_body]
pub(crate) fn insert_member(
    m: &mut serde_json::Map<String, serde_json::Value>,
    key: String,
    value: serde_json::Value,
)
    ensures
        members_of(*final(m)) == members_of(*old(m)).insert(key@, json_of(value)),
{
    m.insert(key, value);
}

/// `Clone` for `Map`.
#[verifier::external_body]
pub(crate) fn clone_object(m: &serde_json::Map<String, serde_json::Value>) -> (r: serde_json::Map<
    String,
    serde_json::Value,
>)
    ensures
        members_of(r) == members_of(*m),
{
    m.clone()
}

/// `Clone` for `Value`.
#[verifier::external_body]
pub(crate) fn clone_value(v: &serde_json::Value) -> (r: serde_json::Value)
    ensures
        json_of(r) == json_of(*v),
{
    v.clone()
}

/// `Clone` for `Number`.
#[verifier::external_body]
pub(crate) fn clone_number(n: &serde_json::Number) -> (r: serde_json::Number)
    ensures
        r == *n,
{
    n.clone()
}

/// `Number::as_f64`, handed out as a bit pattern.
///
/// Assumed: every JSON number has a binary64 reading.
#[verifier::external_body]
pub(crate) fn number_bits(n: &serde_json::Number) -> (r: Option<u64>)
    ensures
        r == Some(number_of(*n).real),
{
    n.as_f64().map(|x| x.to_bits())
}

/// `Value::as_i64`.
///
/// Assumed: only a number that is an integer in the range of `i64` has one.
#[verifier::external_body]
pub(crate) fn value_as_i64(v: &serde_json::Value) -> (r: Option<i64>)
    ensures
        r == (match json_of(*v) {
            Json::Number(n) => n.int,
            _ => None,
        }),
{
    v.as_i64()
}

/// `Value::as_f64`, then `Number::from_f64` on what it gave.
///
/// Assumed: every JSON number has a finite binary64 reading, and the number
/// made of that reading reads the same.
#[verifier::external_body]
pub(crate) fn value_as_real(v: &serde_json::Value) -> (r: Option<serde_json::Number>)
    ensures
        match r {
            Some(x) => json_of(*v) is Number && number_of(x).real == json_of(*v)->Number_0.real,
            None => !(json_of(*v) is Number),
        },
{
    v.as_f64().and_then(serde_json::Number::from_f64)
}

/// `Value::as_array`.
#[verifier::external_body]
pub(crate) fn value_as_array(v: &serde_json::Value) -> (r: Option<&Vec<serde_json::Value>>)
    ensures
        match r {
            Some(items) => json_of(*v) == Json::Array(jsons(items@)),
            None => !(json_of(*v) is Array),
        },
{
    v.as_array()
}

/// `Value::as_object`.
#[verifier::external_body]
pub(crate) fn value_as_object(v: &serde_json::Value) -> (r: Option<
    &serde_json::Map<String, serde_json::Value>,
>)
    ensures
        match r {
            Some(m) => json_of(*v) == Json::Object(members_of(*m)),
            None => !(json_of(*v) is Object),
        },
{
    v.as_object()
}

/// `Value::as_str`.
#[verifier::external_body]
pub(crate) fn value_as_str(v: &serde_json::Value) -> (r: Option<&str>)
    ensures
        match r {
            Some(s) => json_of(*v) == Json::String(s@),
            None => !(json_of(*v) is String),
        },
{
    v.as_str()
}

/// `Value::is_null`.
#[verifier::external_body]
pub(crate) fn value_is_null(v: &serde_json::Value) -> (r: bool)
    ensures
        r == (json_of(*v) is Null),
{
    v.is_null()
}

/// The string of a `Value::String`, the value itself otherwise.
#[verifier::external_body]
pub(crate) fn value_into_string(v: serde_json::Value) -> (r: Result<String, serde_json::Value>)
    ensures
        match r {
            Ok(s) => json_of(v) == Json::String(s@),
            Err(w) => !(json_of(v) is String) && w == v,
        },
{
    match v {
        serde_json::Value::String(s) => Ok(s),
        other => Err(other),
    }
}

/// The items of a `Value::Array`, the value itself otherwise.
#[verifier::external_body]
pub(crate) fn value_into_array(v: serde_json::Value) -> (r: Result<
    Vec<serde_json::Value>,
    serde_json::Value,
>)
    ensures
        match r {
            Ok(items) => json_of(v) == Json::Array(jsons(items@)),
            Err(w) => !(json_of(v) is Array) && w == v,
        },
{
    match v {
        serde_json::Value::Array(items) => Ok(items),
        other => Err(other),
    }
}

/// The map of a `Value::Object`, the value itself otherwise.
#[verifier::external_body]
pub(crate) fn value_into_object(v: serde_json::Value) -> (r: Result<
    serde_json::Map<String, serde_json::Value>,
    serde_json::Value,
>)
    ensures
        match r {
            Ok(m) => json_of(v) == Json::Object(members_of(m)),
            Err(w) => !(json_of(v) is Object) && w == v,
        },
{
    match v {
        serde_json::Value::Object(m) => Ok(m),
        other => Err(other),
    }
}

/// `Value::Number` made of a number.
#[verifier::external_body]
pub(crate) fn number_value(n: serde_json::Number) -> (r: serde_json::Value)
    ensures
        json_of(r) == Json::Number(number_of(n)),
{
    serde_json::Value::Number(n)
}

/// `From<i32>` for `Value`.
///
/// Assumed: the result is a number, and as an integer it is `i`.
#[verifier::external_body]
pub(crate) fn int_value(i: i32) -> (r: serde_json::Value)
    ensures
        json_of(r) == (Json::Number(Num { int: Some(i as i64), real: int_real(i) })),
{
    serde_json::Value::from(i)
}

/// `Value::String` made of a string.
#[verifier::external_body]
pub(crate) fn string_value(s: String) -> (r: serde_json::Value)
    ensures
        json_of(r) == Json::String(s@),
{
    serde_json::Value::String(s)
}

/// `Value::Array` made of its items.
#[verifier::external_body]
pub(crate) fn array_value(items: Vec<serde_json::Value>) -> (r: serde_json::Value)
    ensures
        json_of(r) == Json::Array(jsons(items@)),
{
    serde_json::Value::Array(items)
}

/// `Value::Object` made of a map.
#[verifier::external_body]
pub(crate) fn object_value(m: serde_json::Map<String, serde_json::Value>) -> (r: serde_json::Value)
    ensures
        json_of(r) == Json::Object(members_of(m)),
{
    serde_json::Value::Object(m)
}

} // verus!
