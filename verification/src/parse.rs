//! Reading a line as a JSON document.
//!
//! The parser is `serde_json`. The first part of this file is taken on trust
//! from that crate; the second part turns what the parser returns into a
//! `Json` and is verified against the first.

use serde_json::Value;
use vstd::prelude::*;

use crate::json::{member_model, Json, JsonModel};

verus! {

/// `serde_json::Value`, known by name only: what it holds is spoken of
/// through `value_model`.
#[verifier::external_type_specification]
#[verifier::external_body]
pub struct ExValue(serde_json::Value);

/// What a parsed value holds. A number stands by the text that the parser
/// prints for it; the members of an object stand in the order in which the
/// parser walks them, which is the order of their first appearance in the
/// document.
pub uninterp spec fn value_model(value: serde_json::Value) -> JsonModel;

/// The document that a line holds, or `None` where the line as a whole is
/// not one JSON document.
pub uninterp spec fn parsed_document(line: Seq<char>) -> Option<JsonModel>;

/// `serde_json::from_str` at the type `Value`. The result depends on the
/// text alone: an error for text that is not exactly one document, the
/// document otherwise.
#[verifier::external_body]
pub(crate) fn from_text(line: &str) -> (r: Option<Value>)
    ensures
        match r {
            Some(value) => parsed_document(line@) == Some(value_model(value)),
            None => parsed_document(line@) is None,
        },
{
    match serde_json::from_str::<Value>(line) {
        Ok(value) => Some(value),
        Err(_) => None,
    }
}

/// `Value::is_null`: whether the value is `null`.
#[verifier::external_body]
pub(crate) fn is_null(value: &Value) -> (r: bool)
    ensures
        r == (value_model(*value) is Null),
{
    value.is_null()
}

/// `Value::as_bool`: the truth value of a boolean, nothing for any other
/// value.
#[verifier::external_body]
pub(crate) fn as_bool(value: &Value) -> (r: Option<bool>)
    ensures
        match r {
            Some(truth) => value_model(*value) == JsonModel::Bool(truth),
            None => !(value_model(*value) is Bool),
        },
{
    value.as_bool()
}

/// `Value::as_number` and the number's `to_string`: the text that the parser
/// prints for a number, nothing for any other value.
#[verifier::external_body]
pub(crate) fn number_text(value: &Value) -> (r: Option<String>)
    ensures
        match r {
            Some(text) => value_model(*value) == JsonModel::Number(text@),
            None => !(value_model(*value) is Number),
        },
{
    match value.as_number() {
        Some(number) => Some(number.to_string()),
        None => None,
    }
}

/// `Value::as_str`: the content of a string, nothing for any other value.
#[verifier::external_body]
pub(crate) fn as_str(value: &Value) -> (r: Option<&str>)
    ensures
        match r {
            Some(text) => value_model(*value) == JsonModel::String(text@),
            None => !(value_model(*value) is String),
        },
{
    value.as_str()
}

/// `Value::as_array`: the elements of an array in their order, nothing for
/// any other value.
#[verifier::external_body]
pub(crate) fn as_array(value: &Value) -> (r: Option<&Vec<Value>>)
    ensures
        match r {
            Some(items) => {
                &&& value_model(*value) is Array
                &&& value_model(*value)->Array_0.len() == items@.len()
                &&& forall|i: int|
                    0 <= i < items@.len() ==> value_model(*value)->Array_0[i] == value_model(
                        #[trigger] items@[i],
                    )
            },
            None => !(value_model(*value) is Array),
        },
{
    value.as_array()
}

/// `Value::as_object` and the map's `iter`: the members of an object, key
/// and value, in the order in which the map walks them; nothing for any
/// other value.
#[verifier::external_body]
pub(crate) fn as_members(value: &Value) -> (r: Option<Vec<(&String, &Value)>>)
    ensures
        match r {
            Some(members) => {
                &&& value_model(*value) is Object
                &&& value_model(*value)->Object_0.len() == members@.len()
                &&& forall|i: int|
                    0 <= i < members@.len() ==> value_model(*value)->Object_0[i] == (
                        (#[trigger] members@[i]).0@,
                        value_model(*members@[i].1),
                    )
            },
            None => !(value_model(*value) is Object),
        },
{
    match value.as_object() {
        Some(map) => Some(map.iter().collect()),
        None => None,
    }
}

/// The value that the parser returned, as a `Json`.
pub fn json_of(value: &Value) -> (r: Json)
    ensures
        r@ == value_model(*value),
    decreases value_model(*value),
{
    let ghost model = value_model(*value);
    if let Some(text) = as_str(value) {
        Json::String(text.to_owned())
    } else if let Some(items) = as_array(value) {
        let mut elements: Vec<Json> = Vec::new();
        let mut index: usize = 0;
        while index < items.len()
            invariant
                index <= items.len(),
                elements@.len() == index,
                model == value_model(*value),
                model is Array,
                model->Array_0.len() == items@.len(),
                forall|i: int|
                    0 <= i < items@.len() ==> model->Array_0[i] == value_model(
                        #[trigger] items@[i],
                    ),
                forall|i: int| 0 <= i < index ==> (#[trigger] elements@[i])@ == model->Array_0[i],
            decreases items.len() - index,
        {
            let element = json_of(&items[index]);
            elements.push(element);
            index += 1;
        }
        let r = Json::Array(elements);
        assert(r@->Array_0 =~= model->Array_0);
        r
    } else if let Some(entries) = as_members(value) {
        let mut members: Vec<(String, Json)> = Vec::new();
        let mut index: usize = 0;
        while index < entries.len()
            invariant
                index <= entries.len(),
                members@.len() == index,
                model == value_model(*value),
                model is Object,
                model->Object_0.len() == entries@.len(),
                forall|i: int|
                    0 <= i < entries@.len() ==> model->Object_0[i] == (
                        (#[trigger] entries@[i]).0@,
                        value_model(*entries@[i].1),
                    ),
                forall|i: int|
                    0 <= i < index ==> member_model(#[trigger] members@[i]) == model->Object_0[i],
            decreases entries.len() - index,
        {
            let entry = &entries[index];
            let key = entry.0.clone();
            proof {
                let pair = model->Object_0[index as int];
                assert(pair == (entries@[index as int].0@, value_model(*entries@[index as int].1)));
                assert(decreases_to!(model => pair.1));
            }
            let member = json_of(entry.1);
            members.push((key, member));
            index += 1;
        }
        let r = Json::Object(members);
        assert(r@->Object_0 =~= model->Object_0);
        r
    } else if let Some(truth) = as_bool(value) {
        Json::Bool(truth)
    } else if let Some(text) = number_text(value) {
        Json::Number(text)
    } else {
        let _ = is_null(value);
        Json::Null
    }
}

/// Reads a line as one JSON document. The result is `None` exactly where
/// the line, taken whole, is not a document.
pub fn parse_line(line: &str) -> (r: Option<Json>)
    ensures
        match r {
            Some(document) => parsed_document(line@) == Some(document@),
            None => parsed_document(line@) is None,
        },
{
    match from_text(line) {
        Some(value) => Some(json_of(&value)),
        None => None,
    }
}

} // verus!
