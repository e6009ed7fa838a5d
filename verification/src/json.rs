//! JSON values as the protocol sees them: built, rendered and parsed by
//! `serde_json`, and described to the verifier by a mathematical model.

use serde_json::Value;
use vstd::prelude::*;

verus! {

/// A JSON document as a mathematical value.
pub ghost enum Json {
    Null,
    Bool(bool),
    /// A number held as an integer.
    Int(int),
    /// A number held in binary floating point, by its 64-bit pattern.
    Real(u64),
    Str(Seq<char>),
    Array(Seq<Json>),
    /// The members by key; a key occurs once.
    Object(Map<Seq<char>, Json>),
}

/// `serde_json::Value`, which the verifier carries without looking inside.
#[verifier::external_type_specification]
#[verifier::external_body]
pub struct ExValue(serde_json::Value);

/// `serde_json::Error`, which the verifier carries without looking inside.
#[verifier::external_type_specification]
#[verifier::external_body]
pub struct ExJsonError(serde_json::Error);

/// `serde_json::Map`, which the verifier carries without looking inside.
#[verifier::external_type_specification]
#[verifier::external_body]
#[verifier::reject_recursive_types(K)]
#[verifier::reject_recursive_types(V)]
pub struct ExJsonMap<K, V>(serde_json::Map<K, V>);

/// The document that a `serde_json::Value` holds.
pub uninterp spec fn json_model(v: Value) -> Json;

/// The members that a `serde_json::Map` holds, by key.
pub uninterp spec fn object_members(m: serde_json::Map<String, Value>) -> Map<Seq<char>, Json>;

/// The compact text that `serde_json` renders for a document. It is a
/// function of the document because the crate's map keeps its members
/// sorted by key, as it does unless built to preserve their order.
pub uninterp spec fn json_text(doc: Json) -> Seq<char>;

/// The document that `serde_json` reads from a text, or `None` where it does
/// not accept the text as one JSON document.
pub uninterp spec fn json_parse(text: Seq<char>) -> Option<Json>;

/// `serde_json::Value::String`: the document is the given string.
#[verifier::external_body]
pub(crate) fn string_value(s: String) -> (v: Value)
    ensures
        json_model(v) == Json::Str(s@),
{
    Value::String(s)
}

/// `From<u32> for serde_json::Value`: the document is the given integer.
#[verifier::external_body]
pub(crate) fn number_value(n: u32) -> (v: Value)
    ensures
        json_model(v) == Json::Int(n as int),
{
    Value::from(n)
}

/// The members of an object without members.
pub open spec fn no_members() -> Map<Seq<char>, Json> {
    Map::empty()
}

/// `serde_json::Map::new`: a map without members.
#[verifier::external_body]
pub(crate) fn new_object() -> (m: serde_json::Map<String, Value>)
    ensures
        object_members(m) == no_members(),
{
    serde_json::Map::new()
}

/// `serde_json::Map::insert`: the member under `key` is now `value`, in place
/// of an earlier one if there was one; the other members stay.
#[verifier::external_body]
pub(crate) fn insert_member(m: &mut serde_json::Map<String, Value>, key: String, value: Value)
    ensures
        object_members(*final(m)) == object_members(*old(m)).insert(key@, json_model(value)),
{
    m.insert(key, value);
}

/// `serde_json::Value::Object`: the document is the object with the map's members.
#[verifier::external_body]
pub(crate) fn object_value(m: serde_json::Map<String, Value>) -> (v: Value)
    ensures
        json_model(v) == Json::Object(object_members(m)),
{
    Value::Object(m)
}

/// `Display for serde_json::Value`, through `to_string`: the compact
/// rendering of the document.
#[verifier::external_body]
pub(crate) fn render(v: &Value) -> (text: String)
    ensures
        text@ == json_text(json_model(*v)),
{
    v.to_string()
}

/// `serde_json::from_str` at `Value`: the document read from `text`, or the
/// crate's error where it does not accept the text as one JSON document.
#[verifier::external_body]
pub(crate) fn parse(text: &str) -> (r: Result<Value, serde_json::Error>)
    ensures
        match r {
            Ok(v) => json_parse(text@) == Some(json_model(v)),
            Err(_) => json_parse(text@) is None,
        },
{
    serde_json::from_str::<Value>(text)
}

} // verus!
