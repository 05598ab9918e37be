//! The JSON values of `serde_json` as seen by the library: a mathematical
//! model and the constructors the code generator builds them with.
use vstd::prelude::*;
use crate::text::string_of;

verus! {

#[verifier::external_type_specification]
#[verifier::external_body]
pub struct ExValue(serde_json::Value);

#[verifier::external_type_specification]
#[verifier::external_body]
#[verifier::reject_recursive_types(K)]
#[verifier::reject_recursive_types(V)]
pub struct ExJsonMap<K, V>(serde_json::Map<K, V>);

/// A JSON object's entries, keyed by text.
pub type JsonMap = serde_json::Map<String, serde_json::Value>;

/// The JSON value a `serde_json::Value` holds (the kinds the generator uses).
pub enum JsonV {
    Str(Seq<char>),
    Arr(Seq<JsonV>),
    Obj(Map<Seq<char>, JsonV>),
}

/// What a `serde_json::Value` holds.
pub uninterp spec fn json_view(v: serde_json::Value) -> JsonV;

/// The entries a `serde_json::Map` holds.
pub uninterp spec fn json_map_view(m: JsonMap) -> Map<Seq<char>, JsonV>;

pub open spec fn no_entries() -> Map<Seq<char>, JsonV> {
    Map::empty()
}

pub open spec fn values_view(v: Seq<serde_json::Value>) -> Seq<JsonV> {
    v.map_values(|x: serde_json::Value| json_view(x))
}

/// Relies on `serde_json::Value::String`: a JSON string holding `s`.
#[verifier::external_body]
pub(crate) fn json_string(s: String) -> (r: serde_json::Value)
    ensures
        json_view(r) == JsonV::Str(s@),
{
    serde_json::Value::String(s)
}

/// Relies on `serde_json::Value::Array`: a JSON array of the given elements.
#[verifier::external_body]
pub(crate) fn json_array(v: Vec<serde_json::Value>) -> (r: serde_json::Value)
    ensures
        json_view(r) == JsonV::Arr(values_view(v@)),
{
    serde_json::Value::Array(v)
}

/// Relies on `serde_json::Map::new`: an empty map.
#[verifier::external_body]
pub(crate) fn json_map_new() -> (r: JsonMap)
    ensures
        json_map_view(r) == no_entries(),
{
    serde_json::Map::new()
}

/// Relies on `serde_json::Map::insert`: the key now maps to the value.
#[verifier::external_body]
pub(crate) fn json_map_insert(m: &mut JsonMap, k: String, v: serde_json::Value)
    ensures
        json_map_view(*final(m)) == json_map_view(*old(m)).insert(k@, json_view(v)),
{
    m.insert(k, v);
}

/// Relies on `serde_json::Value::Object`: a JSON object with the map's entries.
#[verifier::external_body]
pub(crate) fn json_object(m: JsonMap) -> (r: serde_json::Value)
    ensures
        json_view(r) == JsonV::Obj(json_map_view(m)),
{
    serde_json::Value::Object(m)
}

/// A JSON string holding the given text.
pub(crate) fn json_text(s: &str) -> (r: serde_json::Value)
    ensures
        json_view(r) == JsonV::Str(s@),
{
    json_string(string_of(s))
}

} // verus!
