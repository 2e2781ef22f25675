//! JSON documents: the values that are rendered, and what they stand for.

use vstd::prelude::*;

verus! {

/// A JSON value as mathematics: text is a sequence of characters, an array a
/// sequence of values, an object a sequence of members in the order in which
/// the document gave them.
pub enum JsonModel {
    Null,
    Bool(bool),
    /// A number, by its canonical text.
    Number(Seq<char>),
    String(Seq<char>),
    Array(Seq<JsonModel>),
    Object(Seq<(Seq<char>, JsonModel)>),
}

/// A JSON value. A number is held by its canonical text: digits alone for an
/// integer, at least one fractional digit for anything else. An object keeps
/// its members in the order in which the document gave them.
#[derive(Debug, PartialEq, Eq)]
pub enum Json {
    Null,
    Bool(bool),
    Number(String),
    String(String),
    Array(Vec<Json>),
    Object(Vec<(String, Json)>),
}

impl View for Json {
    type V = JsonModel;

    open spec fn view(&self) -> JsonModel
        decreases self,
    {
        match self {
            Json::Null => JsonModel::Null,
            Json::Bool(b) => JsonModel::Bool(*b),
            Json::Number(text) => JsonModel::Number(text@),
            Json::String(text) => JsonModel::String(text@),
            Json::Array(items) => JsonModel::Array(
                Seq::new(
                    items@.len(),
                    |i: int|
                        if 0 <= i < items@.len() {
                            items[i]@
                        } else {
                            JsonModel::Null
                        },
                ),
            ),
            Json::Object(members) => JsonModel::Object(
                Seq::new(
                    members@.len(),
                    |i: int|
                        if 0 <= i < members@.len() {
                            member_model(members[i])
                        } else {
                            (Seq::empty(), JsonModel::Null)
                        },
                ),
            ),
        }
    }
}

/// What one member of an object stands for: its key and its value.
pub open spec fn member_model(member: (String, Json)) -> (Seq<char>, JsonModel)
    decreases member,
{
    (member.0@, member.1@)
}

} // verus!
