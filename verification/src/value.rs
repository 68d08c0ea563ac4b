//! The calls into `serde_json`.
//!
//! A `serde_json::Value` is opaque to the verifier. What it holds is named by
//! `json_model`, and each function of this module is one call into
//! `serde_json` whose contract says, over that name, what the call does. The
//! contracts are taken on trust: the verifier does not read the bodies.
//! Everything that decides what a message looks like is built on top of them
//! in verified code.

use crate::json::{distinct_keys, Json, JsonNumber, Members};
use vstd::prelude::*;

verus! {

/// `serde_json::Value`, a JSON document in memory. Nothing of its inside is
/// known but what the functions of this module say.
#[verifier::external_type_specification]
#[verifier::external_body]
pub struct ExValue(serde_json::Value);

/// `serde_json::Error`, the reason why a text was rejected. It is carried
/// along and never looked into.
#[verifier::external_type_specification]
#[verifier::external_body]
pub struct ExJsonError(serde_json::Error);

/// The document that a `serde_json::Value` holds.
pub uninterp spec fn json_model(v: serde_json::Value) -> Json;

/// The document that `serde_json` reads from a text, or `None` where it
/// rejects the text.
pub uninterp spec fn json_parse(text: Seq<char>) -> Option<Json>;

/// The compact text that `serde_json` prints for a document.
pub uninterp spec fn json_text(doc: Json) -> Seq<char>;

/// The documents that a sequence of values holds.
pub open spec fn json_models(items: Seq<serde_json::Value>) -> Seq<Json> {
    items.map_values(|v: serde_json::Value| json_model(v))
}

/// The members that a sequence of named values holds.
pub open spec fn member_models(members: Seq<(String, serde_json::Value)>) -> Members {
    members.map_values(|m: (String, serde_json::Value)| (m.0@, json_model(m.1)))
}

/// `serde_json::from_str` at the type `serde_json::Value`: parses a whole text
/// as one JSON document. The result depends on the text alone, so it is named
/// by `json_parse`; an error stands for a text that is rejected.
#[verifier::external_body]
pub(crate) fn parse(text: &str) -> (r: Result<serde_json::Value, serde_json::Error>)
    ensures
        match r {
            Ok(v) => json_parse(text@) == Some(json_model(v)),
            Err(_) => json_parse(text@) is None,
        },
{
    serde_json::from_str::<serde_json::Value>(text)
}

/// `serde_json::to_string` at the type `serde_json::Value`: prints a document
/// on one line without spaces. Printing a `Value` into memory does not fail:
/// its members are named by strings and its numbers are finite.
#[verifier::external_body]
pub(crate) fn render(v: &serde_json::Value) -> (r: Result<String, serde_json::Error>)
    ensures
        match r {
            Ok(s) => s@ == json_text(json_model(*v)),
            Err(_) => false,
        },
{
    serde_json::to_string(v)
}

/// `serde_json::Value::get` with a string index: the member of that name if
/// the value is an object that has one, else `None`.
#[verifier::external_body]
pub(crate) fn member<'a>(v: &'a serde_json::Value, key: &str) -> (r: Option<&'a serde_json::Value>)
    ensures
        match r {
            Some(x) => json_model(*v).member(key@) == Some(json_model(*x)),
            None => json_model(*v).member(key@) is None,
        },
{
    v.get(key)
}

/// `serde_json::Value::as_str`: the text of a JSON string, `None` for any
/// other value.
#[verifier::external_body]
pub(crate) fn as_text(v: &serde_json::Value) -> (r: Option<&str>)
    ensures
        match r {
            Some(s) => json_model(*v) == Json::Text(s@),
            None => !(json_model(*v) is Text),
        },
{
    v.as_str()
}

/// `serde_json::Value::as_u64`: the value of a number that is an integer from
/// zero to `u64::MAX`, `None` for any other value.
#[verifier::external_body]
pub(crate) fn as_count(v: &serde_json::Value) -> (r: Option<u64>)
    ensures
        match r {
            Some(n) => json_model(*v) == Json::count(n),
            None => !(json_model(*v) matches Json::Number(JsonNumber::Unsigned(_))),
        },
{
    v.as_u64()
}

/// `serde_json::Value::as_array`: the items of a JSON array, `None` for any
/// other value.
#[verifier::external_body]
pub(crate) fn as_list(v: &serde_json::Value) -> (r: Option<&Vec<serde_json::Value>>)
    ensures
        match r {
            Some(items) => json_model(*v) == Json::List(json_models(items@)),
            None => !(json_model(*v) is List),
        },
{
    v.as_array()
}

/// `serde_json::Value::is_null`: whether the value is JSON's `null`.
#[verifier::external_body]
pub(crate) fn is_null(v: &serde_json::Value) -> (r: bool)
    ensures
        r <==> json_model(*v) is Null,
{
    v.is_null()
}

/// `serde_json::Value::from` for a `String`: the JSON string of that text.
#[verifier::external_body]
pub(crate) fn text_value(s: String) -> (r: serde_json::Value)
    ensures
        json_model(r) == Json::Text(s@),
{
    serde_json::Value::from(s)
}

/// `serde_json::Value::from` for a `u64`: the JSON number of that value.
#[verifier::external_body]
pub(crate) fn count_value(n: u64) -> (r: serde_json::Value)
    ensures
        json_model(r) == Json::count(n),
{
    serde_json::Value::from(n)
}

/// `serde_json::Value::from` for a `Vec` of values: the JSON array of those
/// items, in order.
#[verifier::external_body]
pub(crate) fn list_value(items: Vec<serde_json::Value>) -> (r: serde_json::Value)
    ensures
        json_model(r) == Json::List(json_models(items@)),
{
    serde_json::Value::from(items)
}

/// `serde_json::Value::from_iter` for named values: the JSON object with those
/// members. Members are inserted one after the other, and a name that is new
/// to the object goes last; so where no name comes twice, the object holds
/// the members as given.
#[verifier::external_body]
pub(crate) fn object_value(members: Vec<(String, serde_json::Value)>) -> (r: serde_json::Value)
    requires
        distinct_keys(member_models(members@)),
    ensures
        json_model(r) == Json::Object(member_models(members@)),
{
    serde_json::Value::from_iter(members)
}

/// `serde::de::Error::custom` of `serde_json::Error`: an error that carries
/// the given message. Nothing is claimed of it.
#[verifier::external_body]
pub(crate) fn shape_error(message: &str) -> serde_json::Error {
    <serde_json::Error as serde::de::Error>::custom(message)
}

} // verus!
