//! JSON documents as `serde_json` holds them, and the mathematical model of
//! them that the contracts of this crate speak of.
//!
//! Nothing in this file is proved: each contract says what the named function
//! of `serde_json` does, and the rest of the crate is proved from them.

use vstd::prelude::*;

verus! {

/// The content of a JSON document.
pub enum Json {
    Null,
    Bool(bool),
    /// A number that is held as an integer.
    Int(int),
    /// A number that is held as a floating-point value, by its bits.
    Float(u64),
    Str(Seq<char>),
    Array(Seq<Json>),
    Object(Map<Seq<char>, Json>),
}

/// The documents that a list of values holds, one by one.
pub open spec fn jsons(values: Seq<serde_json::Value>) -> Seq<Json> {
    Seq::new(values.len(), |i: int| json_of(values[i]))
}

/// Whether `text` is among the first `count` of `texts`.
pub open spec fn listed(texts: Seq<String>, count: int, text: Seq<char>) -> bool {
    exists|j: int| 0 <= j < count && j < texts.len() && (#[trigger] texts[j])@ == text
}

/// `serde_json::Value`, a JSON document in memory.
#[verifier::external_type_specification]
#[verifier::external_body]
pub struct ExValue(serde_json::Value);

/// `serde_json::Map`, the members of a JSON object.
#[verifier::external_type_specification]
#[verifier::external_body]
#[verifier::reject_recursive_types(K)]
#[verifier::reject_recursive_types(V)]
pub struct ExObject<K, V>(serde_json::Map<K, V>);

/// `serde_json::Error`, why a text was not read.
#[verifier::external_type_specification]
#[verifier::external_body]
pub struct ExError(serde_json::Error);

/// The document that a `serde_json::Value` holds. Null, a boolean, a string,
/// an array and an object stand for themselves. A number that `serde_json`
/// holds as an integer, of whichever sign, is `Int`; one that it holds as a
/// floating-point value is `Float`.
pub uninterp spec fn json_of(v: serde_json::Value) -> Json;

/// The members that a `serde_json::Map` holds, each under its key.
pub uninterp spec fn object_of(m: serde_json::Map<String, serde_json::Value>) -> Map<
    Seq<char>,
    Json,
>;

/// The document that `serde_json::from_str` reads from a text, where it reads
/// one.
pub uninterp spec fn json_parse(text: Seq<char>) -> Option<Json>;

/// The compact text that `serde_json` writes for a document, the members of
/// each object in the order of their keys.
pub uninterp spec fn json_text(j: Json) -> Seq<char>;

/// Parses a text with `serde_json::from_str`, which reads exactly one
/// document or fails.
#[verifier::external_body]
pub(crate) fn parse_value(text: &str) -> (r: Result<serde_json::Value, serde_json::Error>)
    ensures
        r matches Ok(v) ==> json_parse(text@) == Some(json_of(v)),
        r is Err ==> json_parse(text@) is None,
{
    serde_json::from_str::<serde_json::Value>(text)
}

/// Writes a value as compact text, through the `Display` impl of
/// `serde_json::Value`.
#[verifier::external_body]
pub(crate) fn value_text(v: &serde_json::Value) -> (r: String)
    ensures
        r@ == json_text(json_of(*v)),
{
    v.to_string()
}

/// Looks up the member `key` with `serde_json::Value::get`: the member's
/// value where `v` is an object that has it, and nothing otherwise.
#[verifier::external_body]
pub(crate) fn value_get<'a>(v: &'a serde_json::Value, key: &str) -> (r: Option<
    &'a serde_json::Value,
>)
    ensures
        r is Some <==> (json_of(*v) is Object && json_of(*v)->Object_0.contains_key(key@)),
        r matches Some(member) ==> json_of(*member) == json_of(*v)->Object_0[key@],
{
    v.get(key)
}

/// `serde_json::Value::as_str`: the text of a string, nothing for any other
/// value.
#[verifier::external_body]
pub(crate) fn value_as_str<'a>(v: &'a serde_json::Value) -> (r: Option<&'a str>)
    ensures
        r is Some <==> json_of(*v) is Str,
        r matches Some(s) ==> s@ == json_of(*v)->Str_0,
{
    v.as_str()
}

/// `serde_json::Value::as_u64`: the value of an integer number that is not
/// negative, nothing for any other value.
#[verifier::external_body]
pub(crate) fn value_as_u64(v: &serde_json::Value) -> (r: Option<u64>)
    ensures
        r is Some <==> (json_of(*v) is Int && 0 <= json_of(*v)->Int_0 <= u64::MAX),
        r matches Some(n) ==> n == json_of(*v)->Int_0,
{
    v.as_u64()
}

/// `serde_json::Value::as_i64`: the value of an integer number that fits in 64
/// bits with a sign, nothing for any other value.
#[verifier::external_body]
pub(crate) fn value_as_i64(v: &serde_json::Value) -> (r: Option<i64>)
    ensures
        r is Some <==> (json_of(*v) is Int && i64::MIN <= json_of(*v)->Int_0 <= i64::MAX),
        r matches Some(n) ==> n == json_of(*v)->Int_0,
{
    v.as_i64()
}

/// `serde_json::Value::as_array`: the items of an array, nothing for any other
/// value.
#[verifier::external_body]
pub(crate) fn value_as_array<'a>(v: &'a serde_json::Value) -> (r: Option<
    &'a Vec<serde_json::Value>,
>)
    ensures
        r is Some <==> json_of(*v) is Array,
        r matches Some(items) ==> jsons(items@) == json_of(*v)->Array_0,
{
    v.as_array()
}

/// `serde_json::Value::as_object`: the members of an object, nothing for any
/// other value.
#[verifier::external_body]
pub(crate) fn value_as_object<'a>(v: &'a serde_json::Value) -> (r: Option<
    &'a serde_json::Map<String, serde_json::Value>,
>)
    ensures
        r is Some <==> json_of(*v) is Object,
        r matches Some(members) ==> object_of(*members) == json_of(*v)->Object_0,
{
    v.as_object()
}

/// `serde_json::Value::is_null`.
#[verifier::external_body]
pub(crate) fn value_is_null(v: &serde_json::Value) -> (r: bool)
    ensures
        r == (json_of(*v) is Null),
{
    v.is_null()
}

/// The keys of an object, from `serde_json::Map::keys`.
#[verifier::external_body]
pub(crate) fn object_keys(m: &serde_json::Map<String, serde_json::Value>) -> (r: Vec<String>)
    ensures
        forall|k: Seq<char>| object_of(*m).contains_key(k) <==> listed(r@, r@.len() as int, k),
{
    m.keys().cloned().collect()
}

/// A string value, `serde_json::Value::String`.
#[verifier::external_body]
pub(crate) fn value_from_string(s: String) -> (r: serde_json::Value)
    ensures
        json_of(r) == Json::Str(s@),
{
    serde_json::Value::String(s)
}

/// The number value that `serde_json` makes from a `u64`.
#[verifier::external_body]
pub(crate) fn value_from_u64(n: u64) -> (r: serde_json::Value)
    ensures
        json_of(r) == Json::Int(n as int),
{
    serde_json::Value::from(n)
}

/// The number value that `serde_json` makes from an `i64`.
#[verifier::external_body]
pub(crate) fn value_from_i64(n: i64) -> (r: serde_json::Value)
    ensures
        json_of(r) == Json::Int(n as int),
{
    serde_json::Value::from(n)
}

/// An array value, `serde_json::Value::Array`.
#[verifier::external_body]
pub(crate) fn value_from_array(items: Vec<serde_json::Value>) -> (r: serde_json::Value)
    ensures
        json_of(r) == Json::Array(jsons(items@)),
{
    serde_json::Value::Array(items)
}

/// An object value, `serde_json::Value::Object`.
#[verifier::external_body]
pub(crate) fn value_from_object(members: serde_json::Map<String, serde_json::Value>) -> (r:
    serde_json::Value)
    ensures
        json_of(r) == Json::Object(object_of(members)),
{
    serde_json::Value::Object(members)
}

/// An object without members, `serde_json::Map::new`.
#[verifier::external_body]
pub(crate) fn object_new() -> (r: serde_json::Map<String, serde_json::Value>)
    ensures
        object_of(r) == (Map::<Seq<char>, Json>::empty()),
{
    serde_json::Map::new()
}

/// `serde_json::Map::insert`: the member `key` is set to `value`, in place of
/// any that was there, and the other members stay.
#[verifier::external_body]
pub(crate) fn object_insert(
    members: &mut serde_json::Map<String, serde_json::Value>,
    key: String,
    value: serde_json::Value,
)
    ensures
        object_of(*final(members)) == object_of(*old(members)).insert(key@, json_of(value)),
{
    members.insert(key, value);
}

/// Whether two texts are equal, by `==` on `str`.
#[verifier::external_body]
pub(crate) fn same_text(a: &str, b: &str) -> (r: bool)
    ensures
        r == (a@ == b@),
{
    a == b
}

} // verus!
