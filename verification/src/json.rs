//! A mathematical model of JSON documents, together with the trusted bridge
//! to `serde_json`: parsed values are carried as opaque `serde_json::Value`s,
//! and everything the library learns about one goes through the accessors
//! declared here, whose contracts speak of the value's model.

use vstd::prelude::*;

verus! {

/// The mathematical shape of one JSON document. Numbers carry no payload:
/// the dictionary schema never reads a numeric value, only its (mis)match
/// with the expected type.
pub enum JsonData {
    Null,
    Bool(bool),
    Number,
    Str(Seq<char>),
    Arr(Seq<JsonData>),
    Obj(Map<Seq<char>, JsonData>),
}

#[verifier::external_type_specification]
#[verifier::external_body]
pub struct ExJsonValue(serde_json::Value);

#[verifier::external_type_specification]
#[verifier::external_body]
pub struct ExJsonError(serde_json::Error);

/// The JSON document that a parsed `serde_json::Value` holds.
pub uninterp spec fn json_of(v: serde_json::Value) -> JsonData;

/// The result of parsing a text with `serde_json::from_str::<Value>`:
/// `Some` of the document's model exactly on valid JSON texts, `None` where
/// the parse fails. The parse depends on the text alone.
pub uninterp spec fn json_text_of(s: Seq<char>) -> Option<JsonData>;

/// The models of a sequence of parsed values, element by element.
pub open spec fn json_seq_of(s: Seq<serde_json::Value>) -> Seq<JsonData> {
    s.map_values(|v: serde_json::Value| json_of(v))
}

/// Relies on `serde_json::from_str::<Value>`: parses a complete JSON text,
/// succeeding exactly on valid JSON.
#[verifier::external_body]
pub fn parse_json(s: &str) -> (r: Result<serde_json::Value, serde_json::Error>)
    ensures
        r is Ok <==> json_text_of(s@) is Some,
        r is Ok ==> json_of(r->Ok_0) == json_text_of(s@)->Some_0,
{
    serde_json::from_str(s)
}

/// Relies on `serde_json::Value::as_array`: returns the element vector
/// exactly when the value is a JSON array.
#[verifier::external_body]
pub fn as_array(v: &serde_json::Value) -> (r: Option<&Vec<serde_json::Value>>)
    ensures
        r is Some <==> json_of(*v) is Arr,
        r is Some ==> json_seq_of(r->Some_0@) == json_of(*v)->Arr_0,
{
    v.as_array()
}

/// Relies on `serde_json::Value::get` with a string key: looks the key up
/// exactly when the value is a JSON object that has it.
#[verifier::external_body]
pub fn get_field<'a>(v: &'a serde_json::Value, key: &str) -> (r: Option<
    &'a serde_json::Value,
>)
    ensures
        r is Some <==> (json_of(*v) is Obj && json_of(*v)->Obj_0.dom().contains(key@)),
        r is Some ==> json_of(*r->Some_0) == json_of(*v)->Obj_0[key@],
{
    v.get(key)
}

/// Relies on `serde_json::Value::as_str`: returns the text exactly when the
/// value is a JSON string.
#[verifier::external_body]
pub fn as_str<'a>(v: &'a serde_json::Value) -> (r: Option<&'a str>)
    ensures
        r is Some <==> json_of(*v) is Str,
        r is Some ==> r->Some_0@ == json_of(*v)->Str_0,
{
    v.as_str()
}

/// Relies on `serde_json::Value::is_object`: true exactly on a JSON object.
#[verifier::external_body]
pub fn is_object(v: &serde_json::Value) -> (r: bool)
    ensures
        r == (json_of(*v) is Obj),
{
    v.is_object()
}

/// Relies on `serde_json::Value::is_null`: true exactly on JSON null.
#[verifier::external_body]
pub fn is_null(v: &serde_json::Value) -> (r: bool)
    ensures
        r == (json_of(*v) is Null),
{
    v.is_null()
}

} // verus!
