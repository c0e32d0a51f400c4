//! JSON values as the relay sees them.
//!
//! Payloads are `serde_json::Value`s that the relay carries without looking
//! inside. The few documents that the relay builds itself are put together
//! through the functions of this module, whose contracts are stated over
//! [`Json`], a mathematical model of a JSON document.

use vstd::prelude::*;

verus! {

/// Mathematical model of a JSON document.
///
/// `Number` holds an integral number. A payload may carry other numbers; what
/// [`json_view`] gives for them is left open, and the relay never reads them.
pub enum Json {
    Null,
    Bool(bool),
    Number(int),
    Text(Seq<char>),
    Array(Seq<Json>),
    Object(Map<Seq<char>, Json>),
}

/// `serde_json::Value`, carried as an opaque value.
#[verifier::external_type_specification]
#[verifier::external_body]
pub struct ExValue(serde_json::Value);

/// `serde_json::Map`, the key/value collection behind a JSON object.
#[verifier::external_type_specification]
#[verifier::external_body]
#[verifier::reject_recursive_types(K)]
#[verifier::reject_recursive_types(V)]
pub struct ExObjectMap<K, V>(serde_json::Map<K, V>);

/// The collection behind a JSON object, keyed by strings.
pub type ObjectMap = serde_json::Map<String, serde_json::Value>;

/// The document that a `serde_json::Value` holds. Nothing is known of it
/// but what the functions of this module state.
pub uninterp spec fn json_view(v: serde_json::Value) -> Json;

/// The entries that a `serde_json::Map` holds, each value as a document.
/// Nothing is known of them but what the functions of this module state.
pub uninterp spec fn object_view(m: ObjectMap) -> Map<Seq<char>, Json>;

/// The entries of an object without entries.
pub open spec fn no_entries() -> Map<Seq<char>, Json> {
    Map::empty()
}

/// The documents held by a sequence of values, in order.
pub open spec fn json_views(values: Seq<serde_json::Value>) -> Seq<Json> {
    values.map_values(|v: serde_json::Value| json_view(v))
}

/// Wraps `serde_json::Value::String`: the value is the JSON string with the
/// characters of `s`.
#[verifier::external_body]
pub(crate) fn value_text(s: String) -> (v: serde_json::Value)
    ensures
        json_view(v) == Json::Text(s@),
{
    serde_json::Value::String(s)
}

/// Wraps `serde_json::Value::from` for a `usize`: the value is the JSON
/// number `n`.
#[verifier::external_body]
pub(crate) fn value_count(n: usize) -> (v: serde_json::Value)
    ensures
        json_view(v) == Json::Number(n as int),
{
    serde_json::Value::from(n)
}

/// Wraps `serde_json::Value::Array`: the value is the JSON array of the
/// documents of `items`, in the same order.
#[verifier::external_body]
pub(crate) fn value_array(items: Vec<serde_json::Value>) -> (v: serde_json::Value)
    ensures
        json_view(v) == Json::Array(json_views(items@)),
{
    serde_json::Value::Array(items)
}

/// Wraps `serde_json::Map::new`: the map has no entry.
#[verifier::external_body]
pub(crate) fn object_new() -> (fresh: ObjectMap)
    ensures
        object_view(fresh) == no_entries(),
{
    serde_json::Map::new()
}

/// Wraps `serde_json::Map::insert`: afterwards the key maps to the document
/// of `v`, replacing what it mapped to before; other entries stay.
#[verifier::external_body]
pub(crate) fn object_insert(
    m: &mut ObjectMap,
    k: String,
    v: serde_json::Value,
)
    ensures
        object_view(*final(m)) == object_view(*old(m)).insert(k@, json_view(v)),
{
    m.insert(k, v);
}

/// Wraps `serde_json::Value::Object`: the value is the JSON object with the
/// entries of `m`.
#[verifier::external_body]
pub(crate) fn value_object(m: ObjectMap) -> (v: serde_json::Value)
    ensures
        json_view(v) == Json::Object(object_view(m)),
{
    serde_json::Value::Object(m)
}

/// `Clone::clone` of `serde_json::Value`: the copy holds the same document.
pub assume_specification[ <serde_json::Value as Clone>::clone ](v: &serde_json::Value) -> (c:
    serde_json::Value)
    ensures
        json_view(c) == json_view(*v),
;

} // verus!
