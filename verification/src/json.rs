//! JSON documents as plain data.

use vstd::prelude::*;
use crate::text::same_text;

verus! {

/// A JSON value.
#[derive(Debug, PartialEq, Eq)]
pub enum Json {
    Null,
    Bool(bool),
    /// A number, with its value where the document writes it as an integer
    /// that fits `i64`.
    Number(Option<i64>),
    Text(String),
    Array(Vec<Json>),
    /// The fields of an object, each a name and a value.
    Object(Vec<(String, Json)>),
}

/// The mathematical value of a [`Json`].
pub enum JsonValue {
    Null,
    Bool(bool),
    Number(Option<i64>),
    Text(Seq<char>),
    Array(Seq<JsonValue>),
    Object(Seq<(Seq<char>, JsonValue)>),
}

/// The values of the items of an array.
pub open spec fn items_view(items: Seq<Json>) -> Seq<JsonValue>
    decreases items,
{
    Seq::new(
        items.len(),
        |i: int|
            if 0 <= i < items.len() {
                items[i]@
            } else {
                JsonValue::Null
            },
    )
}

/// The names and values of the fields of an object.
pub open spec fn fields_view(fields: Seq<(String, Json)>) -> Seq<(Seq<char>, JsonValue)>
    decreases fields,
{
    Seq::new(
        fields.len(),
        |i: int|
            if 0 <= i < fields.len() {
                (fields[i].0@, fields[i].1@)
            } else {
                (Seq::empty(), JsonValue::Null)
            },
    )
}

impl View for Json {
    type V = JsonValue;

    open spec fn view(&self) -> JsonValue
        decreases self,
    {
        match self {
            Json::Null => JsonValue::Null,
            Json::Bool(b) => JsonValue::Bool(*b),
            Json::Number(n) => JsonValue::Number(*n),
            Json::Text(s) => JsonValue::Text(s@),
            Json::Array(items) => JsonValue::Array(items_view(items@)),
            Json::Object(fields) => JsonValue::Object(fields_view(fields@)),
        }
    }
}

/// The value of the last field called `name`, if there is such a field.
pub open spec fn field_value(fields: Seq<(Seq<char>, JsonValue)>, name: Seq<char>) -> Option<JsonValue>
    decreases fields.len(),
{
    if fields.len() == 0 {
        None
    } else if fields.last().0 == name {
        Some(fields.last().1)
    } else {
        field_value(fields.drop_last(), name)
    }
}

/// The value of the last of `fields` that is called `name`.
pub fn find_field<'a>(fields: &'a [(String, Json)], name: &str) -> (found: Option<&'a Json>)
    ensures
        match found {
            Some(value) => field_value(fields_view(fields@), name@) == Some(value@),
            None => field_value(fields_view(fields@), name@) is None,
        },
{
    let ghost all = fields_view(fields@);
    let mut left: usize = fields.len();
    assert(all.subrange(0, left as int) =~= all);
    while left > 0
        invariant
            left <= fields@.len(),
            all == fields_view(fields@),
            field_value(all, name@) == field_value(all.subrange(0, left as int), name@),
        decreases left,
    {
        let ghost upto = all.subrange(0, left as int);
        left -= 1;
        assert(upto.drop_last() =~= all.subrange(0, left as int));
        if same_text(fields[left].0.as_str(), name) {
            return Some(&fields[left].1);
        }
    }
    None
}

/// A document as `serde_json` holds it. Nothing of its inside is known here.
#[verifier::external_type_specification]
#[verifier::external_body]
pub struct ExValue(serde_json::Value);

/// The error of `serde_json`. Nothing of its inside is known here.
#[verifier::external_type_specification]
#[verifier::external_body]
pub struct ExError(serde_json::Error);

/// The document that `serde_json` reads out of a text, or `None` where it
/// reports an error.
pub uninterp spec fn json_document(text: Seq<char>) -> Option<JsonValue>;

/// What a `serde_json::Value` holds.
pub uninterp spec fn json_content(value: serde_json::Value) -> JsonValue;

/// Calls `serde_json::from_str` for a `serde_json::Value`. Nothing is claimed
/// of the result but that it holds the document that [`json_document`] names
/// for this text, and that an error comes where that is `None`.
#[verifier::external_body]
fn read_value(text: &str) -> (read: Result<serde_json::Value, serde_json::Error>)
    ensures
        match read {
            Ok(value) => json_document(text@) == Some(json_content(value)),
            Err(_) => json_document(text@) is None,
        },
{
    serde_json::from_str::<serde_json::Value>(text)
}

/// Moves a `serde_json::Value` into a [`Json`], variant by variant: a number
/// by `Number::as_i64`, the items of an array and the fields of an object in
/// the order in which `serde_json` hands them out. The result is what
/// [`json_content`] names.
#[verifier::external_body]
fn json_of(value: serde_json::Value) -> (json: Json)
    ensures
        json@ == json_content(value),
{
    match value {
        serde_json::Value::Null => Json::Null,
        serde_json::Value::Bool(b) => Json::Bool(b),
        serde_json::Value::Number(n) => Json::Number(n.as_i64()),
        serde_json::Value::String(s) => Json::Text(s),
        serde_json::Value::Array(items) => Json::Array(items.into_iter().map(json_of).collect()),
        serde_json::Value::Object(fields) => Json::Object(
            fields.into_iter().map(|(name, value)| (name, json_of(value))).collect(),
        ),
    }
}

/// Reads a JSON document from a text. An object that comes back holds each
/// name once: where the text repeats a name, the value written last stays.
pub fn parse_json(text: &str) -> (parsed: Option<Json>)
    ensures
        match parsed {
            Some(json) => json_document(text@) == Some(json@),
            None => json_document(text@) is None,
        },
{
    match read_value(text) {
        Ok(value) => Some(json_of(value)),
        Err(_) => None,
    }
}

} // verus!
