//! What the engine has from `serde_json`: JSON values, the few ways in
//! which it makes and reads them, and the decoding of a backend's text.
//! None of the calls in this file is proved; each says what it takes on
//! trust.

use vstd::prelude::*;

verus! {

/// `serde_json::Value`, a JSON value. Verus sees nothing inside one.
#[verifier::external_type_specification]
#[verifier::external_body]
pub struct ExJsonValue(serde_json::Value);

/// `serde_json::Error`, the reason for which a text is no JSON of the
/// expected shape.
#[verifier::external_type_specification]
#[verifier::external_body]
pub struct ExJsonError(serde_json::Error);

/// `Clone::clone` of `serde_json::Value`: the copy is the same JSON value.
pub assume_specification[ <serde_json::Value as Clone>::clone ](v: &serde_json::Value) -> (r:
    serde_json::Value)
    ensures
        r == *v,
;

/// What a JSON value holds, as plain data.
pub enum Json {
    Null,
    Bool(bool),
    /// A number, by the text that stands for it.
    Number(Seq<char>),
    String(Seq<char>),
    Array(Seq<Json>),
    Object(Map<Seq<char>, Json>),
}

/// What `value` holds.
pub uninterp spec fn json_model(value: serde_json::Value) -> Json;

/// What the JSON document that the bytes `bytes` spell holds, if they
/// spell one.
pub uninterp spec fn json_parse(bytes: Seq<u8>) -> Option<Json>;

/// What each of `items` holds.
pub open spec fn models_of(items: Seq<serde_json::Value>) -> Seq<Json> {
    Seq::new(items.len(), |i: int| json_model(items[i]))
}

/// No two of `fields` have the same name.
pub open spec fn distinct_names(fields: Seq<(Seq<char>, serde_json::Value)>) -> bool {
    forall|i: int, j: int|
        0 <= i < j < fields.len() ==> (#[trigger] fields[i]).0 != (#[trigger] fields[j]).0
}

/// The members of the object that is filled with the first `n` of
/// `fields`.
pub open spec fn members_of(fields: Seq<(Seq<char>, serde_json::Value)>, n: int) -> Map<
    Seq<char>,
    Json,
>
    decreases n,
{
    if n <= 0 {
        Map::empty()
    } else {
        members_of(fields, n - 1).insert(fields[n - 1].0, json_model(fields[n - 1].1))
    }
}

/// The member `name` of `json`, if `json` is an object that has one.
pub open spec fn member_of(json: Json, name: Seq<char>) -> Option<Json> {
    match json {
        Json::Object(members) => if members.contains_key(name) {
            Some(members[name])
        } else {
            None
        },
        _ => None,
    }
}

/// The element at `index` of `json`, if `json` is an array that long.
pub open spec fn element_of(json: Json, index: int) -> Option<Json> {
    match json {
        Json::Array(items) => if 0 <= index < items.len() {
            Some(items[index])
        } else {
            None
        },
        _ => None,
    }
}

/// The text of `json`, if `json` is a string.
pub open spec fn text_in(json: Json) -> Option<Seq<char>> {
    match json {
        Json::String(text) => Some(text),
        _ => None,
    }
}

/// The names and values of `fields`, each name as its characters.
pub open spec fn field_views(fields: Seq<(String, serde_json::Value)>) -> Seq<
    (Seq<char>, serde_json::Value),
> {
    Seq::new(fields.len(), |i: int| (fields[i].0@, fields[i].1))
}

/// `From<String>` of `serde_json::Value`. Trusted: the result is a JSON
/// string that holds `text`.
#[verifier::external_body]
pub(crate) fn string_value(text: String) -> (value: serde_json::Value)
    ensures
        json_model(value) == Json::String(text@),
{
    serde_json::Value::from(text)
}

/// `From<Vec<Value>>` of `serde_json::Value`. Trusted: the result is a
/// JSON array that holds `items` in order.
#[verifier::external_body]
pub(crate) fn array_value(items: Vec<serde_json::Value>) -> (value: serde_json::Value)
    ensures
        json_model(value) == Json::Array(models_of(items@)),
{
    serde_json::Value::from(items)
}

/// `FromIterator<(String, Value)>` of `serde_json::Value`. Trusted: for
/// fields of different names the result is a JSON object with exactly
/// these members.
#[verifier::external_body]
pub(crate) fn object_value(fields: Vec<(String, serde_json::Value)>) -> (value:
    serde_json::Value)
    requires
        distinct_names(field_views(fields@)),
    ensures
        json_model(value) == Json::Object(
            members_of(field_views(fields@), fields.len() as int),
        ),
{
    fields.into_iter().collect::<serde_json::Value>()
}

/// `serde_json::from_slice` at `serde_json::Value`. Trusted: whether
/// `bytes` decode, and what the value that they decode to holds, depends
/// on `bytes` alone.
#[verifier::external_body]
pub(crate) fn parse_document(bytes: &[u8]) -> (r: Result<serde_json::Value, serde_json::Error>)
    ensures
        r is Ok <==> json_parse(bytes@) is Some,
        r is Ok ==> json_parse(bytes@) == Some(json_model(r->Ok_0)),
{
    serde_json::from_slice::<serde_json::Value>(bytes)
}

/// Takes a `serde_json::Value` apart by its variant `Array`. Trusted: an
/// array gives the items that it holds, in order, and anything else gives
/// nothing.
#[verifier::external_body]
pub(crate) fn into_items(value: serde_json::Value) -> (r: Option<Vec<serde_json::Value>>)
    ensures
        r is Some <==> json_model(value) is Array,
        r is Some ==> json_model(value) == Json::Array(models_of(r->Some_0@)),
{
    match value {
        serde_json::Value::Array(items) => Some(items),
        _ => None,
    }
}

/// `serde_json::Value::is_object`. Trusted: the result says whether the
/// value is an object.
#[verifier::external_body]
pub(crate) fn is_object(value: &serde_json::Value) -> (r: bool)
    ensures
        r == (json_model(*value) is Object),
{
    value.is_object()
}

/// `serde_json::Value::get` with a name. Trusted: the result is the
/// member of that name if the value is an object that has one, and
/// nothing otherwise.
#[verifier::external_body]
pub(crate) fn member<'a>(value: &'a serde_json::Value, name: &str) -> (r: Option<
    &'a serde_json::Value,
>)
    ensures
        r is Some <==> member_of(json_model(*value), name@) is Some,
        r is Some ==> member_of(json_model(*value), name@) == Some(json_model(*r->Some_0)),
{
    value.get(name)
}

/// `serde_json::Value::get` with a position. Trusted: the result is the
/// element at that position if the value is an array that long, and
/// nothing otherwise.
#[verifier::external_body]
pub(crate) fn element<'a>(value: &'a serde_json::Value, index: usize) -> (r: Option<
    &'a serde_json::Value,
>)
    ensures
        r is Some <==> element_of(json_model(*value), index as int) is Some,
        r is Some ==> element_of(json_model(*value), index as int) == Some(
            json_model(*r->Some_0),
        ),
{
    value.get(index)
}

/// `serde_json::Value::as_str`. Trusted: the result is the text of the
/// value if the value is a string, and nothing otherwise.
#[verifier::external_body]
pub(crate) fn text_of<'a>(value: &'a serde_json::Value) -> (r: Option<&'a str>)
    ensures
        r is Some <==> text_in(json_model(*value)) is Some,
        r is Some ==> text_in(json_model(*value)) == Some(r->Some_0@),
{
    value.as_str()
}

} // verus!
