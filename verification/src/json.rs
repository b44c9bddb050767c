//! JSON values as the synchronisation engine sees them.
//!
//! JSON text is parsed, inspected, built and printed by `serde_json`. This
//! module gives the values of that crate a mathematical model, [`JsonTree`],
//! and states, for each call that the engine makes, what the call does in terms
//! of that model. None of these statements is proved: they are the assumptions
//! on which the rest of the crate is verified.

use crate::order::text_before;
use serde_json::Value;
use vstd::prelude::*;

verus! {

/// The mathematical content of a JSON value.
pub enum JsonTree {
    Null,
    Bool(bool),
    /// A number, carried as its literal.
    Number(Seq<char>),
    Str(Seq<char>),
    Array(Seq<JsonTree>),
    Object(Map<Seq<char>, JsonTree>),
}

impl JsonTree {
    /// The member stored under `key`, or `Null` where `self` is not an object
    /// or has no such member.
    pub open spec fn member(self, key: Seq<char>) -> JsonTree {
        match self {
            JsonTree::Object(members) => if members.contains_key(key) {
                members[key]
            } else {
                JsonTree::Null
            },
            _ => JsonTree::Null,
        }
    }

    /// The array without elements.
    pub open spec fn empty_array() -> JsonTree {
        JsonTree::Array(Seq::empty())
    }
}

/// The members of the object without members.
pub open spec fn empty_members() -> Map<Seq<char>, JsonTree> {
    Map::empty()
}

/// The contents of each value of a sequence, in order.
pub open spec fn contents_of(values: Seq<Value>) -> Seq<JsonTree> {
    Seq::new(values.len(), |i: int| json_contents(values[i]))
}

/// What the text of stored coordinates stands for: the value that the text
/// parses to, and the empty array where it does not parse.
pub open spec fn decoded(text: Seq<char>) -> JsonTree {
    match json_parse(text) {
        Some(tree) => tree,
        None => JsonTree::empty_array(),
    }
}

/// `serde_json::Value`, a JSON value. Nothing is assumed of it here.
#[verifier::external_type_specification]
#[verifier::external_body]
pub struct ExValue(serde_json::Value);

/// `serde_json::Map`, the members of a JSON object. Nothing is assumed of it
/// here.
#[verifier::external_type_specification]
#[verifier::external_body]
#[verifier::reject_recursive_types(K)]
#[verifier::reject_recursive_types(V)]
pub struct ExJsonMap<K, V>(serde_json::Map<K, V>);

/// `serde_json::Error`, why a text was refused or a value not written.
/// Nothing is assumed of it here.
#[verifier::external_type_specification]
#[verifier::external_body]
pub struct ExJsonError(serde_json::Error);

/// What a `serde_json::Value` holds.
pub uninterp spec fn json_contents(value: Value) -> JsonTree;

/// What a `serde_json::Map` holds: its values by their keys.
pub uninterp spec fn json_map_contents(map: serde_json::Map<String, Value>) -> Map<
    Seq<char>,
    JsonTree,
>;

/// The value that `serde_json::from_str` reads from `text`, or `None` where it
/// refuses the text.
pub uninterp spec fn json_parse(text: Seq<char>) -> Option<JsonTree>;

/// The compact text that `serde_json::to_string` writes for a value, or `None`
/// where it fails.
pub uninterp spec fn json_text(tree: JsonTree) -> Option<Seq<char>>;

/// `serde_json::from_str`, read as a `Value`. Assumed: the outcome depends on
/// the text alone, and is the one that [`json_parse`] names.
#[verifier::external_body]
pub(crate) fn parse_value(text: &str) -> (r: Result<Value, serde_json::Error>)
    ensures
        match r {
            Ok(value) => json_parse(text@) == Some(json_contents(value)),
            Err(_) => json_parse(text@) is None,
        },
{
    serde_json::from_str::<Value>(text)
}

/// `serde_json::to_string` of a `Value`. Assumed: the outcome depends on what
/// the value holds alone, and is the one that [`json_text`] names.
#[verifier::external_body]
pub(crate) fn to_text(value: &Value) -> (r: Result<String, serde_json::Error>)
    ensures
        match r {
            Ok(text) => json_text(json_contents(*value)) == Some(text@),
            Err(_) => json_text(json_contents(*value)) is None,
        },
{
    serde_json::to_string(value)
}

/// Indexing a `Value` by a string. Assumed: the result is the member under
/// that key, and `Null` where the value is no object or has no such key.
#[verifier::external_body]
pub(crate) fn member<'a>(value: &'a Value, key: &str) -> (r: &'a Value)
    ensures
        json_contents(*r) == json_contents(*value).member(key@),
{
    &value[key]
}

/// `Value::as_array`. Assumed: the elements where the value is an array, and
/// `None` where it is anything else.
#[verifier::external_body]
pub(crate) fn as_array(value: &Value) -> (r: Option<&Vec<Value>>)
    ensures
        match r {
            Some(items) => json_contents(*value) == JsonTree::Array(contents_of(items@)),
            None => !(json_contents(*value) is Array),
        },
{
    value.as_array()
}

/// `Value::as_str`. Assumed: the string where the value is a string, and
/// `None` where it is anything else.
#[verifier::external_body]
pub(crate) fn as_str(value: &Value) -> (r: Option<&str>)
    ensures
        match r {
            Some(text) => json_contents(*value) == JsonTree::Str(text@),
            None => !(json_contents(*value) is Str),
        },
{
    value.as_str()
}

/// `Value::as_object`. Assumed: the map where the value is an object, and
/// `None` where it is anything else.
#[verifier::external_body]
pub(crate) fn as_object(value: &Value) -> (r: Option<&serde_json::Map<String, Value>>)
    ensures
        match r {
            Some(map) => json_contents(*value) == JsonTree::Object(json_map_contents(*map)),
            None => !(json_contents(*value) is Object),
        },
{
    value.as_object()
}

/// `Map::iter`, each entry copied out. Assumed: every key of the map comes out
/// once, with the value stored under it, and the keys come out in ascending
/// order. (The map keeps its entries in a `BTreeMap`, which is walked by
/// ascending key; a `String` compares as its bytes do, which is the order of
/// its characters' code points.)
#[verifier::external_body]
pub(crate) fn map_entries(map: &serde_json::Map<String, Value>) -> (r: Vec<(String, Value)>)
    ensures
        forall|i: int|
            0 <= i < r@.len() ==> {
                &&& json_map_contents(*map).contains_key((#[trigger] r@[i]).0@)
                &&& json_contents(r@[i].1) == json_map_contents(*map)[r@[i].0@]
            },
        forall|i: int, j: int|
            0 <= i < j < r@.len() ==> text_before((#[trigger] r@[i]).0@, (#[trigger] r@[j]).0@),
        forall|key: Seq<char>| #[trigger]
            json_map_contents(*map).contains_key(key) ==> exists|i: int|
                0 <= i < r@.len() && (#[trigger] r@[i]).0@ == key,
{
    map.iter().map(|(key, value)| (key.clone(), value.clone())).collect()
}

/// `Map::new`. Assumed: the new map holds nothing.
#[verifier::external_body]
pub(crate) fn map_new() -> (r: serde_json::Map<String, Value>)
    ensures
        json_map_contents(r) == empty_members(),
{
    serde_json::Map::new()
}

/// `Map::insert`. Assumed: afterwards the key holds the new value, whether or
/// not it held one before, and every other key holds what it held.
#[verifier::external_body]
pub(crate) fn map_insert(map: &mut serde_json::Map<String, Value>, key: String, value: Value)
    ensures
        json_map_contents(*final(map)) == json_map_contents(*old(map)).insert(
            key@,
            json_contents(value),
        ),
{
    map.insert(key, value);
}

/// The variant `Value::Object`. Assumed: the value holds what the map holds.
#[verifier::external_body]
pub(crate) fn object_value(map: serde_json::Map<String, Value>) -> (r: Value)
    ensures
        json_contents(r) == JsonTree::Object(json_map_contents(map)),
{
    Value::Object(map)
}

/// The variant `Value::Array`. Assumed: the value holds the items, in order.
#[verifier::external_body]
pub(crate) fn array_value(items: Vec<Value>) -> (r: Value)
    ensures
        json_contents(r) == JsonTree::Array(contents_of(items@)),
{
    Value::Array(items)
}

/// The variant `Value::String`. Assumed: the value holds the text.
#[verifier::external_body]
pub(crate) fn string_value(text: String) -> (r: Value)
    ensures
        json_contents(r) == JsonTree::Str(text@),
{
    Value::String(text)
}

/// The value that stored coordinates stand for: what their text parses to, and
/// the empty array where it does not parse.
pub fn decode_coordinates(text: &str) -> (r: Value)
    ensures
        json_contents(r) == decoded(text@),
{
    match parse_value(text) {
        Ok(value) => value,
        Err(_) => {
            let r = array_value(Vec::new());
            assert(contents_of(Seq::<Value>::empty()) =~= Seq::<JsonTree>::empty());
            r
        },
    }
}

} // verus!
