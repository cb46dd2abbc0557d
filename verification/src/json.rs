//! JSON values, built with `serde_json` and described by a mathematical model.

use serde_json::Value;
use vstd::prelude::*;

verus! {

/// `serde_json::Value`, opaque to the verifier: [`json_of`] says what one holds.
#[verifier::external_type_specification]
#[verifier::external_body]
pub struct ExValue(serde_json::Value);

/// `serde_json::Map`, opaque to the verifier: [`fields_of`] says what one holds.
#[verifier::external_type_specification]
#[verifier::external_body]
#[verifier::reject_recursive_types(K)]
#[verifier::reject_recursive_types(V)]
pub struct ExJsonMap<K, V>(serde_json::Map<K, V>);

/// The model of a JSON value, as far as the commands build one.
pub enum Json {
    Text(Seq<char>),
    Number(int),
    Array(Seq<Json>),
    Object(Map<Seq<char>, Json>),
}

/// What a JSON value holds.
pub uninterp spec fn json_of(value: Value) -> Json;

/// The fields that a JSON object under construction holds, by their names.
pub uninterp spec fn fields_of(fields: serde_json::Map<String, Value>) -> Map<Seq<char>, Json>;

/// `serde_json::Map::new`: an object without fields.
#[verifier::external_body]
pub(crate) fn no_fields() -> (fields: serde_json::Map<String, Value>)
    ensures
        fields_of(fields) == (Map::<Seq<char>, Json>::empty()),
{
    serde_json::Map::new()
}

/// `serde_json::Map::insert`: the field `name` holds `value` afterwards, whatever it held before,
/// and the other fields are as they were. What it held before is dropped.
#[verifier::external_body]
pub(crate) fn set_field(fields: &mut serde_json::Map<String, Value>, name: &str, value: Value)
    ensures
        fields_of(*final(fields)) == fields_of(*old(fields)).insert(name@, json_of(value)),
{
    fields.insert(name.to_owned(), value);
}

/// `Value::from` of a `&str`: the JSON string of the same characters.
#[verifier::external_body]
pub(crate) fn text_value(text: &str) -> (value: Value)
    ensures
        json_of(value) == Json::Text(text@),
{
    Value::from(text)
}

/// `Value::from` of a `usize`: the JSON number of the same value.
#[verifier::external_body]
pub(crate) fn number_value(number: usize) -> (value: Value)
    ensures
        json_of(value) == Json::Number(number as int),
{
    Value::from(number)
}

/// `Value::from` of a `serde_json::Map`: the JSON object of the same fields.
#[verifier::external_body]
pub(crate) fn object_value(fields: serde_json::Map<String, Value>) -> (value: Value)
    ensures
        json_of(value) == Json::Object(fields_of(fields)),
{
    Value::from(fields)
}

/// `Value::from` of a `Vec<Value>`: the JSON array of the same values, in the same order.
#[verifier::external_body]
pub(crate) fn array_value(items: Vec<Value>) -> (value: Value)
    ensures
        json_of(value) == Json::Array(items@.map_values(|item: Value| json_of(item))),
{
    Value::from(items)
}

} // verus!
