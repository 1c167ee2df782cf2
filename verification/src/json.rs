//! Records as JSON objects.
//!
//! The JSON side is `serde_json`'s: the library hands it the fields of a
//! record one by one and lets it write the text. What is said here of
//! `serde_json` is taken on trust.

use crate::record::{fields_map, FieldValue, Fields, Record, Scalar};
use vstd::prelude::*;

verus! {

/// `serde_json::Map`, taken as it is. What one holds is spoken of through
/// [`object_fields`] only.
#[verifier::external_type_specification]
#[verifier::external_body]
#[verifier::reject_recursive_types(K)]
#[verifier::reject_recursive_types(V)]
pub struct ExJsonMap<K, V>(serde_json::Map<K, V>);

/// `serde_json::Value`, taken as it is: the library makes such values and
/// never looks into one.
#[verifier::external_type_specification]
#[verifier::external_body]
pub struct ExJsonValue(serde_json::Value);

/// `serde_json::Error`, taken as it is: nothing is said of what it holds.
#[verifier::external_type_specification]
#[verifier::external_body]
pub struct ExJsonError(serde_json::Error);

/// A JSON object: keys and their values.
pub type JsonObject = serde_json::Map<String, serde_json::Value>;

/// What a JSON object holds: each key with the scalar that its value stands
/// for. Null stands for nothing, a boolean for its truth value, a whole
/// number for itself and a string for its text.
pub uninterp spec fn object_fields(object: serde_json::Map<String, serde_json::Value>) -> Map<
    Seq<char>,
    Scalar,
>;

/// What `serde_json::to_string` gives for an object that holds these
/// fields: the text that it writes, or nothing where it fails.
pub uninterp spec fn json_text(fields: Map<Seq<char>, Scalar>) -> Option<Seq<char>>;

/// `serde_json::Map::new`: an object without fields.
#[verifier::external_body]
fn object_new() -> (object: JsonObject)
    ensures
        (object_fields(object) == Fields::empty()),
{
    serde_json::Map::new()
}

/// `serde_json::Map::insert`: the key holds the value afterwards, whether or
/// not it held one before, and no other key is touched. The value goes in as
/// the JSON value of its kind: null, a boolean, a number or a string.
#[verifier::external_body]
fn object_insert(object: &mut JsonObject, key: String, value: FieldValue)
    ensures
        object_fields(*final(object)) == object_fields(*old(object)).insert(key@, value@),
{
    let value = match value {
        FieldValue::Null => serde_json::Value::Null,
        FieldValue::Bool(b) => serde_json::Value::Bool(b),
        FieldValue::I64(n) => serde_json::Value::from(n),
        FieldValue::U64(n) => serde_json::Value::from(n),
        FieldValue::Str(s) => serde_json::Value::String(s),
    };
    object.insert(key, value);
}

/// `serde_json::to_string` on an object: whether it succeeds, and the text
/// that it writes where it does, depend on the fields of the object alone.
/// An object keeps its keys in ascending order, so the order in which they
/// were inserted leaves no trace, and nothing but the object is read.
#[verifier::external_body]
fn object_to_string(object: &JsonObject) -> (r: Result<String, serde_json::Error>)
    ensures
        r matches Ok(text) ==> json_text(object_fields(*object)) == Some(text@),
        r is Err ==> json_text(object_fields(*object)) is None,
{
    serde_json::to_string(object)
}

/// The JSON object that holds the fields of the record.
pub fn to_object(record: &Record) -> (object: JsonObject)
    ensures
        object_fields(object) == record@,
{
    let fields = record.fields();
    let mut object = object_new();
    let mut i: usize = 0;
    while i < fields.len()
        invariant
            i <= fields.len(),
            object_fields(object) == fields_map(fields@.take(i as int)),
        decreases fields.len() - i,
    {
        assert(fields@.take(i + 1).drop_last() =~= fields@.take(i as int));
        object_insert(&mut object, fields[i].name.clone(), fields[i].value.clone());
        i = i + 1;
    }
    assert(fields@.take(i as int) =~= fields@);
    object
}

/// Writes the record as one line of JSON: the text that `serde_json` gives
/// for the fields of the record, and its failure where it gives none.
pub fn to_json(record: &Record) -> (r: Result<String, serde_json::Error>)
    ensures
        r matches Ok(text) ==> json_text(record@) == Some(text@),
        r is Err ==> json_text(record@) is None,
{
    let object = to_object(record);
    object_to_string(&object)
}

} // verus!
