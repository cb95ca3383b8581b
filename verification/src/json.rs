//! JSON values, as `serde_json` reads, holds and prints them.
//!
//! A `serde_json::Value` is opaque to the proofs. [`json_of`] names what it
//! holds, and each function below states what one call into `serde_json` does
//! in terms of that content.

use vstd::prelude::*;

verus! {

/// The mathematical content of a JSON value.
pub enum Json {
    Null,
    Bool(bool),
    /// A number written as an integer, between `i64::MIN` and `u64::MAX`.
    Int(int),
    /// Any other number, by the bits of its binary64 form.
    Real(u64),
    Text(Seq<char>),
    Array(Seq<Json>),
    /// The members of an object in their order; no key occurs twice.
    Object(Seq<(Seq<char>, Json)>),
}

/// Declares `serde_json::Value`, so that it can stand in signatures. Nothing
/// inside a value is visible to the proofs.
#[verifier::external_type_specification]
#[verifier::external_body]
pub struct ExValue(serde_json::Value);

/// What a `serde_json::Value` holds.
pub uninterp spec fn json_of(value: serde_json::Value) -> Json;

/// The value that `serde_json` reads from a text, if the text is JSON.
pub uninterp spec fn json_parse(text: Seq<char>) -> Option<Json>;

/// The compact text that `serde_json` prints for a value.
pub uninterp spec fn json_text(value: Json) -> Seq<char>;

/// The indented text that `serde_json` prints for a value.
pub uninterp spec fn json_pretty_text(value: Json) -> Seq<char>;

/// The first member with the given key, if there is one.
pub open spec fn member(members: Seq<(Seq<char>, Json)>, key: Seq<char>) -> Option<Json>
    decreases members.len(),
{
    if members.len() == 0 {
        None
    } else if members[0].0 == key {
        Some(members[0].1)
    } else {
        member(members.drop_first(), key)
    }
}

/// The contents of a list of values.
pub open spec fn json_items(values: Seq<serde_json::Value>) -> Seq<Json> {
    Seq::new(values.len(), |i: int| json_of(values[i]))
}

/// The contents of a list of keyed values.
pub open spec fn json_members(members: Seq<(String, serde_json::Value)>) -> Seq<(Seq<char>, Json)> {
    Seq::new(members.len(), |i: int| (members[i].0@, json_of(members[i].1)))
}

/// Whether no key occurs twice among the members.
pub open spec fn distinct_keys(members: Seq<(Seq<char>, Json)>) -> bool {
    forall|i: int, j: int|
        0 <= i < j < members.len() ==> (#[trigger] members[i]).0 != (#[trigger] members[j]).0
}

/// Reads a text with `serde_json::from_str`.
///
/// Trusted: the result is the value named [`json_parse`].
#[verifier::external_body]
pub(crate) fn parse(text: &str) -> (out: Option<serde_json::Value>)
    ensures
        match out {
            Some(value) => json_parse(text@) == Some(json_of(value)),
            None => json_parse(text@) is None,
        },
{
    serde_json::from_str::<serde_json::Value>(text).ok()
}

/// Prints a value with `serde_json::to_string`.
///
/// Trusted: the result is the text named [`json_text`].
#[verifier::external_body]
pub(crate) fn print(value: &serde_json::Value) -> (text: String)
    ensures
        text@ == json_text(json_of(*value)),
{
    serde_json::to_string(value).unwrap_or_default()
}

/// Prints a value with `serde_json::to_string_pretty`.
///
/// Trusted: the result is the text named [`json_pretty_text`].
#[verifier::external_body]
pub(crate) fn print_pretty(value: &serde_json::Value) -> (text: String)
    ensures
        text@ == json_pretty_text(json_of(*value)),
{
    serde_json::to_string_pretty(value).unwrap_or_default()
}

/// `serde_json::Value::as_array`.
///
/// Trusted: an array yields its items, anything else yields nothing.
#[verifier::external_body]
pub(crate) fn as_array(value: &serde_json::Value) -> (out: Option<&Vec<serde_json::Value>>)
    ensures
        match json_of(*value) {
            Json::Array(items) => out is Some && json_items(out.unwrap()@) == items,
            _ => out is None,
        },
{
    value.as_array()
}

/// `serde_json::Value::get` with a key.
///
/// Trusted: an object yields its member with that key, if it has one;
/// anything else yields nothing.
#[verifier::external_body]
pub(crate) fn get<'a>(value: &'a serde_json::Value, key: &str) -> (out: Option<
    &'a serde_json::Value,
>)
    ensures
        match json_of(*value) {
            Json::Object(members) => match out {
                Some(found) => member(members, key@) == Some(json_of(*found)),
                None => member(members, key@) is None,
            },
            _ => out is None,
        },
{
    value.get(key)
}

/// `serde_json::Value::as_str`.
///
/// Trusted: a string yields its text, anything else yields nothing.
#[verifier::external_body]
pub(crate) fn as_str(value: &serde_json::Value) -> (out: Option<&str>)
    ensures
        match json_of(*value) {
            Json::Text(text) => out is Some && out.unwrap()@ == text,
            _ => out is None,
        },
{
    value.as_str()
}

/// `serde_json::Value::as_u64`.
///
/// Trusted: an integer that fits is returned, anything else yields nothing.
#[verifier::external_body]
pub(crate) fn as_u64(value: &serde_json::Value) -> (out: Option<u64>)
    ensures
        match json_of(*value) {
            Json::Int(n) if 0 <= n <= u64::MAX => out == Some(n as u64),
            _ => out is None,
        },
{
    value.as_u64()
}

/// `serde_json::Value::as_i64`.
///
/// Trusted: an integer that fits is returned, anything else yields nothing.
#[verifier::external_body]
pub(crate) fn as_i64(value: &serde_json::Value) -> (out: Option<i64>)
    ensures
        match json_of(*value) {
            Json::Int(n) if i64::MIN <= n <= i64::MAX => out == Some(n as i64),
            _ => out is None,
        },
{
    value.as_i64()
}

/// `serde_json::Value::from` on a string.
///
/// Trusted: the value is a string with that text.
#[verifier::external_body]
pub(crate) fn from_text(text: String) -> (value: serde_json::Value)
    ensures
        json_of(value) == Json::Text(text@),
{
    serde_json::Value::from(text)
}

/// `serde_json::Value::from` on an unsigned integer.
///
/// Trusted: the value is that integer.
#[verifier::external_body]
pub(crate) fn from_u64(n: u64) -> (value: serde_json::Value)
    ensures
        json_of(value) == Json::Int(n as int),
{
    serde_json::Value::from(n)
}

/// `serde_json::Value::from` on a signed integer.
///
/// Trusted: the value is that integer.
#[verifier::external_body]
pub(crate) fn from_i64(n: i64) -> (value: serde_json::Value)
    ensures
        json_of(value) == Json::Int(n as int),
{
    serde_json::Value::from(n)
}

/// `serde_json::Value::from` on a list of values.
///
/// Trusted: the value is the array of those items.
#[verifier::external_body]
pub(crate) fn from_items(items: Vec<serde_json::Value>) -> (value: serde_json::Value)
    ensures
        json_of(value) == Json::Array(json_items(items@)),
{
    serde_json::Value::from(items)
}

/// `serde_json::Value::from_iter` on keyed values, which collects them into
/// an object.
///
/// Trusted: with keys that differ, the value is the object of those members
/// in their order.
#[verifier::external_body]
pub(crate) fn from_members(members: Vec<(String, serde_json::Value)>) -> (value: serde_json::Value)
    requires
        distinct_keys(json_members(members@)),
    ensures
        json_of(value) == Json::Object(json_members(members@)),
{
    <serde_json::Value as FromIterator<(String, serde_json::Value)>>::from_iter(members)
}

} // verus!
