//! JSON documents. They are built with `serde_json`; the contracts speak of
//! the tree that a document holds.

use vstd::prelude::*;

verus! {

/// A JSON document of `serde_json`.
#[verifier::external_type_specification]
#[verifier::external_body]
pub struct ExJsonValue(serde_json::Value);

/// A JSON object of `serde_json`, under construction.
#[verifier::external_type_specification]
#[verifier::external_body]
#[verifier::reject_recursive_types(K)]
#[verifier::reject_recursive_types(V)]
pub struct ExJsonObject<K, V>(serde_json::Map<K, V>);

/// The error of `serde_json`.
#[verifier::external_type_specification]
#[verifier::external_body]
pub struct ExJsonError(serde_json::Error);

/// The tree of a JSON document. Numbers are told apart only as far as the
/// library writes them: an integer has its value, any other number is `Real`.
pub enum JsonModel {
    Null,
    Bool(bool),
    Int(int),
    Real,
    Text(Seq<char>),
    Array(Seq<JsonModel>),
    Object(Map<Seq<char>, JsonModel>),
}

/// The tree that a document holds.
pub uninterp spec fn json_model(value: serde_json::Value) -> JsonModel;

/// The members of an object: the tree under each key.
pub uninterp spec fn object_members(object: serde_json::Map<String, serde_json::Value>) -> Map<
    Seq<char>,
    JsonModel,
>;

/// No members at all.
pub open spec fn no_members() -> Map<Seq<char>, JsonModel> {
    Map::empty()
}

/// The document that is the list of `texts`.
pub open spec fn texts_model(texts: Seq<String>) -> JsonModel {
    JsonModel::Array(Seq::new(texts.len(), |i: int| JsonModel::Text(texts[i]@)))
}

/// `model` is a list of texts.
pub open spec fn is_texts(model: JsonModel) -> bool {
    model is Array && forall|i: int|
        0 <= i < model->Array_0.len() ==> (#[trigger] model->Array_0[i]) is Text
}

/// `from_value` of `serde_json` for a list of strings. It succeeds exactly
/// on an array whose items are all strings, and gives those strings in order.
#[verifier::external_body]
pub(crate) fn texts_from_value(value: serde_json::Value) -> (r: Result<
    Vec<String>,
    serde_json::Error,
>)
    ensures
        r is Ok <==> is_texts(json_model(value)),
        r is Ok ==> json_model(value) == texts_model(r->Ok_0@),
{
    serde_json::from_value(value)
}

/// `to_value` of `serde_json` on a list of strings. It succeeds, with the
/// array of those strings in order.
#[verifier::external_body]
pub(crate) fn texts_to_value(texts: &Vec<String>) -> (r: Result<
    serde_json::Value,
    serde_json::Error,
>)
    ensures
        r is Ok,
        r is Ok ==> json_model(r->Ok_0) == texts_model(texts@),
{
    serde_json::to_value(texts)
}

/// `Map::new` of `serde_json`: an object without members.
#[verifier::external_body]
pub(crate) fn object_new() -> (object: serde_json::Map<String, serde_json::Value>)
    ensures
        object_members(object) == no_members(),
{
    serde_json::Map::new()
}

/// `Map::insert` of `serde_json`: afterwards `key` holds `value`, in place of
/// what it held before, if anything, and the other members are as they were.
#[verifier::external_body]
pub(crate) fn object_insert(
    object: &mut serde_json::Map<String, serde_json::Value>,
    key: String,
    value: serde_json::Value,
)
    ensures
        object_members(*final(object)) == object_members(*old(object)).insert(
            key@,
            json_model(value),
        ),
{
    object.insert(key, value);
}

/// `Value::from` of `serde_json` on an `i64`: the number itself.
#[verifier::external_body]
pub(crate) fn json_int(n: i64) -> (value: serde_json::Value)
    ensures
        json_model(value) == JsonModel::Int(n as int),
{
    serde_json::Value::from(n)
}

/// `Value::from` of `serde_json` on a `bool`: the truth value itself.
#[verifier::external_body]
pub(crate) fn json_bool(b: bool) -> (value: serde_json::Value)
    ensures
        json_model(value) == JsonModel::Bool(b),
{
    serde_json::Value::from(b)
}

/// `Value::from` of `serde_json` on a `String`: the text itself.
#[verifier::external_body]
pub(crate) fn json_text(text: String) -> (value: serde_json::Value)
    ensures
        json_model(value) == JsonModel::Text(text@),
{
    serde_json::Value::from(text)
}

/// `Value::from` of `serde_json` on an object: the document that is that
/// object.
#[verifier::external_body]
pub(crate) fn json_object(object: serde_json::Map<String, serde_json::Value>) -> (value:
    serde_json::Value)
    ensures
        json_model(value) == JsonModel::Object(object_members(object)),
{
    serde_json::Value::from(object)
}

} // verus!
