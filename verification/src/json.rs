//! JSON texts, read one level at a time.
use vstd::prelude::*;

use crate::error::SimdeckError;
use crate::text::{option_view, owned, str_eq, views};

verus! {

/// A JSON value: what it is, with the texts of the values inside it.
#[derive(Debug)]
pub enum JsonShape {
    Null,
    Bool(bool),
    Number(String),
    Text(String),
    Array(Vec<String>),
    Object(Vec<(String, String)>),
}

/// A JSON value as the contracts speak of it.
pub enum JsonShapeView {
    Null,
    Bool(bool),
    Number(Seq<char>),
    Text(Seq<char>),
    Array(Seq<Seq<char>>),
    Object(Seq<(Seq<char>, Seq<char>)>),
}

/// The names and values of the fields of an object.
pub open spec fn field_views(fields: Seq<(String, String)>) -> Seq<(Seq<char>, Seq<char>)> {
    fields.map_values(|field: (String, String)| (field.0@, field.1@))
}

impl View for JsonShape {
    type V = JsonShapeView;

    open spec fn view(&self) -> JsonShapeView {
        match self {
            JsonShape::Null => JsonShapeView::Null,
            JsonShape::Bool(value) => JsonShapeView::Bool(*value),
            JsonShape::Number(text) => JsonShapeView::Number(text@),
            JsonShape::Text(text) => JsonShapeView::Text(text@),
            JsonShape::Array(items) => JsonShapeView::Array(views(items@)),
            JsonShape::Object(fields) => JsonShapeView::Object(field_views(fields@)),
        }
    }
}

/// An error of the JSON reader or writer.
#[verifier::external_type_specification]
#[verifier::external_body]
pub struct JsonFailure(serde_json::Error);

/// What `serde_json::from_str` makes of a text, one level deep, each value
/// inside it as the text that its `Display` impl writes; nothing where the text
/// is not JSON.
pub uninterp spec fn json_shape(text: Seq<char>) -> Option<JsonShapeView>;

/// Reads a text with `serde_json::from_str` as a `serde_json::Value`, and takes
/// it apart one level deep. The result depends on the text alone, and bears a
/// name; what JSON is is not said here.
#[verifier::external_body]
fn read_json(text: &str) -> (result: Result<JsonShape, serde_json::Error>)
    ensures
        match result {
            Ok(shape) => json_shape(text@) == Some(shape@),
            Err(_) => json_shape(text@) is None,
        },
{
    Ok(match serde_json::from_str::<serde_json::Value>(text)? {
        serde_json::Value::Null => JsonShape::Null,
        serde_json::Value::Bool(value) => JsonShape::Bool(value),
        serde_json::Value::Number(number) => JsonShape::Number(number.to_string()),
        serde_json::Value::String(text) => JsonShape::Text(text),
        serde_json::Value::Array(items) => {
            JsonShape::Array(items.iter().map(|item| item.to_string()).collect())
        },
        serde_json::Value::Object(fields) => {
            JsonShape::Object(fields.into_iter().map(|(k, v)| (k, v.to_string())).collect())
        },
    })
}

/// Reads a JSON text, one level deep.
pub fn parse_json(text: &str) -> (result: Result<JsonShape, SimdeckError>)
    ensures
        match result {
            Ok(shape) => json_shape(text@) == Some(shape@),
            Err(error) => json_shape(text@) is None && error.text() == "parse JSON"@,
        },
{
    match read_json(text) {
        Ok(shape) => Ok(shape),
        Err(_) => Err(SimdeckError::from_text("parse JSON")),
    }
}

/// What `serde_json::to_string` writes for a list of strings.
pub uninterp spec fn json_list(list: Seq<Seq<char>>) -> Seq<char>;

/// Writes a list of strings with `serde_json::to_string`, which does not fail on
/// strings. The result depends on the strings alone, and bears a name; what it
/// looks like is not said here.
#[verifier::external_body]
fn write_json_list(list: &Vec<String>) -> (result: Result<String, serde_json::Error>)
    ensures
        result is Ok,
        result->Ok_0@ == json_list(views(list@)),
{
    serde_json::to_string(list)
}

/// A list of strings as a JSON text.
pub fn json_string_list(list: &Vec<String>) -> (result: Result<String, SimdeckError>)
    ensures
        result matches Ok(text) && text@ == json_list(views(list@)),
{
    match write_json_list(list) {
        Ok(text) => Ok(text),
        Err(_) => Err(SimdeckError::from_text("write JSON")),
    }
}

/// The value of the last field with a name.
pub open spec fn lookup(fields: Seq<(Seq<char>, Seq<char>)>, name: Seq<char>) -> Option<Seq<char>>
    decreases fields.len(),
{
    if fields.len() == 0 {
        None
    } else if fields.last().0 == name {
        Some(fields.last().1)
    } else {
        lookup(fields.drop_last(), name)
    }
}

/// The text of a field of a JSON value, where it is an object with that field.
pub open spec fn field_of(shape: JsonShapeView, name: Seq<char>) -> Option<Seq<char>> {
    match shape {
        JsonShapeView::Object(fields) => lookup(fields, name),
        _ => None,
    }
}

impl JsonShape {
    /// The text of a field, where the value is an object with that field.
    pub fn field(&self, name: &str) -> (value: Option<&str>)
        ensures
            crate::text::option_str_view(value) == field_of(self@, name@),
    {
        match self {
            JsonShape::Object(fields) => {
                let ghost all = field_views(fields@);
                let mut i: usize = fields.len();
                assert(all.take(i as int) =~= all);
                while i > 0
                    invariant
                        i <= fields@.len(),
                        all == field_views(fields@),
                        self@ == JsonShapeView::Object(all),
                        lookup(all, name@) == lookup(all.take(i as int), name@),
                    decreases i,
                {
                    i -= 1;
                    assert(all.take(i + 1).drop_last() =~= all.take(i as int));
                    assert(all.take(i + 1).last() == (fields@[i as int].0@, fields@[i as int].1@));
                    if str_eq(fields[i].0.as_str(), name) {
                        return Some(fields[i].1.as_str());
                    }
                }
                assert(all.take(0) =~= Seq::empty());
                None
            },
            _ => None,
        }
    }
}

/// The text of a field of a JSON text, where that is an object with the field.
pub open spec fn json_field(text: Seq<char>, name: Seq<char>) -> Option<Seq<char>> {
    match json_shape(text) {
        Some(shape) => field_of(shape, name),
        None => None,
    }
}

/// The string that a field of a JSON text holds, where it holds one.
pub open spec fn string_field(text: Seq<char>, name: Seq<char>) -> Option<Seq<char>> {
    match json_field(text, name) {
        Some(value) => match json_shape(value) {
            Some(JsonShapeView::Text(held)) => Some(held),
            _ => None,
        },
        None => None,
    }
}

/// The truth value that a field of a JSON text holds, where it holds one.
pub open spec fn bool_field(text: Seq<char>, name: Seq<char>) -> Option<bool> {
    match json_field(text, name) {
        Some(value) => match json_shape(value) {
            Some(JsonShapeView::Bool(held)) => Some(held),
            _ => None,
        },
        None => None,
    }
}

/// The texts of the elements of the array that a field of a JSON text holds;
/// none where it holds no array.
pub open spec fn array_field(text: Seq<char>, name: Seq<char>) -> Seq<Seq<char>> {
    match json_field(text, name) {
        Some(value) => match json_shape(value) {
            Some(JsonShapeView::Array(items)) => items,
            _ => Seq::empty(),
        },
        None => Seq::empty(),
    }
}

/// The text of a field of a JSON text.
pub fn get_field(text: &str, name: &str) -> (value: Option<String>)
    ensures
        option_view(value) == json_field(text@, name@),
{
    match read_json(text) {
        Ok(shape) => match shape.field(name) {
            Some(value) => Some(owned(value)),
            None => None,
        },
        Err(_) => None,
    }
}

/// The string that a field of a JSON text holds.
pub fn get_string(text: &str, name: &str) -> (value: Option<String>)
    ensures
        option_view(value) == string_field(text@, name@),
{
    match get_field(text, name) {
        Some(field) => match read_json(field.as_str()) {
            Ok(JsonShape::Text(held)) => Some(held),
            _ => None,
        },
        None => None,
    }
}

/// The truth value that a field of a JSON text holds.
pub fn get_bool(text: &str, name: &str) -> (value: Option<bool>)
    ensures
        value == bool_field(text@, name@),
{
    match get_field(text, name) {
        Some(field) => match read_json(field.as_str()) {
            Ok(JsonShape::Bool(held)) => Some(held),
            _ => None,
        },
        None => None,
    }
}

/// The texts of the elements of the array that a field of a JSON text holds.
pub fn get_array(text: &str, name: &str) -> (items: Vec<String>)
    ensures
        views(items@) == array_field(text@, name@),
{
    let none: Vec<String> = Vec::new();
    assert(views(none@) =~= Seq::empty());
    match get_field(text, name) {
        Some(field) => match read_json(field.as_str()) {
            Ok(JsonShape::Array(items)) => items,
            _ => none,
        },
        None => none,
    }
}

/// A field has the value that is written last under its name, whatever other fields
/// there are.
pub proof fn last_field_of_a_name_counts(
    front: Seq<(Seq<char>, Seq<char>)>,
    name: Seq<char>,
    value: Seq<char>,
    back: Seq<(Seq<char>, Seq<char>)>,
)
    requires
        forall|i: int| 0 <= i < back.len() ==> (#[trigger] back[i]).0 != name,
    ensures
        lookup(front + seq![(name, value)] + back, name) == Some(value),
        lookup(back, name) is None,
        field_of(JsonShapeView::Object(front + seq![(name, value)] + back), name) == Some(value),
    decreases back.len(),
{
    let fields = front + seq![(name, value)] + back;
    if back.len() > 0 {
        let rest = back.drop_last();
        assert forall|i: int| 0 <= i < rest.len() implies (#[trigger] rest[i]).0 != name by {
            assert(rest[i] == back[i]);
        }
        last_field_of_a_name_counts(front, name, value, rest);
        assert(fields.drop_last() =~= front + seq![(name, value)] + rest);
        assert(fields.last() == back[back.len() - 1]);
        assert(back.last() == back[back.len() - 1]);
    } else {
        assert(fields.last() == (name, value));
    }
}

/// A field is read as what it is: a string where it holds one, a truth value where it
/// holds one, and the elements of an array where it holds one; a text that is no
/// object has no fields.
pub proof fn fields_are_read_as_what_they_are(
    text: Seq<char>,
    name: Seq<char>,
    value: Seq<char>,
    held: Seq<char>,
    flag: bool,
    items: Seq<Seq<char>>,
)
    ensures
        json_field(text, name) == Some(value) && json_shape(value) == Some(
            JsonShapeView::Text(held),
        ) ==> string_field(text, name) == Some(held) && bool_field(text, name) is None
            && array_field(text, name).len() == 0,
        json_field(text, name) == Some(value) && json_shape(value) == Some(
            JsonShapeView::Bool(flag),
        ) ==> bool_field(text, name) == Some(flag) && string_field(text, name) is None
            && array_field(text, name).len() == 0,
        json_field(text, name) == Some(value) && json_shape(value) == Some(
            JsonShapeView::Array(items),
        ) ==> array_field(text, name) == items && string_field(text, name) is None && bool_field(
            text,
            name,
        ) is None,
        json_field(text, name) is None ==> string_field(text, name) is None && bool_field(
            text,
            name,
        ) is None && array_field(text, name).len() == 0,
        !(json_shape(text) matches Some(JsonShapeView::Object(_))) ==> json_field(text, name)
            is None,
{
}

} // verus!
