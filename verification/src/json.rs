//! JSON documents: what they hold, and how they are read, taken apart, filled and written.
//!
//! The documents themselves are `serde_json::Value`s. `JsonView` is what such a document holds.

use vstd::prelude::*;

verus! {

/// What a JSON document holds.
pub enum JsonView {
    Null,
    Bool(bool),
    /// A number that is held as a 64-bit integer.
    Integer(int),
    /// Any other number, as it is written out.
    Real(Seq<char>),
    Text(Seq<char>),
    Array(Seq<JsonView>),
    Object(Map<Seq<char>, JsonView>),
}

impl JsonView {
    /// The member `key` of an object.
    pub open spec fn member(self, key: Seq<char>) -> Option<JsonView> {
        match self {
            JsonView::Object(members) => if members.contains_key(key) {
                Some(members[key])
            } else {
                None
            },
            _ => None,
        }
    }

    /// The text of a string.
    pub open spec fn text(self) -> Option<Seq<char>> {
        match self {
            JsonView::Text(text) => Some(text),
            _ => None,
        }
    }

    /// The value of a boolean.
    pub open spec fn flag(self) -> Option<bool> {
        match self {
            JsonView::Bool(flag) => Some(flag),
            _ => None,
        }
    }

    /// The items of an array.
    pub open spec fn items(self) -> Option<Seq<JsonView>> {
        match self {
            JsonView::Array(items) => Some(items),
            _ => None,
        }
    }

    /// The member `key` of an object, if it is a string.
    pub open spec fn text_member(self, key: Seq<char>) -> Option<Seq<char>> {
        match self.member(key) {
            Some(value) => value.text(),
            None => None,
        }
    }

    /// The member `key` of an object, if it is a boolean.
    pub open spec fn flag_member(self, key: Seq<char>) -> Option<bool> {
        match self.member(key) {
            Some(value) => value.flag(),
            None => None,
        }
    }

    /// The member `key` of an object, if it is an array.
    pub open spec fn array_member(self, key: Seq<char>) -> Option<Seq<JsonView>> {
        match self.member(key) {
            Some(value) => value.items(),
            None => None,
        }
    }
}

/// A JSON array of strings.
pub open spec fn text_array(texts: Seq<Seq<char>>) -> JsonView {
    JsonView::Array(texts.map_values(|text: Seq<char>| JsonView::Text(text)))
}

/// A document of `serde_json`.
#[verifier::external_type_specification]
#[verifier::external_body]
pub struct ExValue(serde_json::Value);

/// What `value` holds.
pub uninterp spec fn value_view(value: serde_json::Value) -> JsonView;

/// What `serde_json::from_str` makes of a text: the document, or the message of its error.
pub uninterp spec fn json_reading(text: Seq<char>) -> Result<JsonView, Seq<char>>;

/// The text that `serde_json::to_string` writes for a document, or the message of its error.
pub uninterp spec fn json_writing(document: JsonView) -> Result<Seq<char>, Seq<char>>;

/// `serde_json::from_str` reads a document; what comes out depends on the text alone. An error
/// is handed on by its message.
#[verifier::external_body]
pub(crate) fn read_value(text: &str) -> (r: Result<serde_json::Value, String>)
    ensures
        match r {
            Ok(value) => json_reading(text@) == Ok::<JsonView, Seq<char>>(value_view(value)),
            Err(message) => json_reading(text@) == Err::<JsonView, Seq<char>>(message@),
        },
{
    serde_json::from_str(text).map_err(|e| e.to_string())
}

/// `serde_json::to_string` writes a document, the members of an object in the order of their
/// keys; the text depends on what the document holds alone. An error is handed on by its message.
#[verifier::external_body]
pub(crate) fn write_value(value: &serde_json::Value) -> (r: Result<String, String>)
    ensures
        match r {
            Ok(text) => json_writing(value_view(*value)) == Ok::<Seq<char>, Seq<char>>(text@),
            Err(message) => json_writing(value_view(*value)) == Err::<Seq<char>, Seq<char>>(
                message@,
            ),
        },
{
    serde_json::to_string(value).map_err(|e| e.to_string())
}

/// `serde_json::Value::get` with a string finds the member of an object; there is none in
/// anything but an object.
#[verifier::external_body]
pub(crate) fn member<'a>(value: &'a serde_json::Value, key: &str) -> (r: Option<
    &'a serde_json::Value,
>)
    ensures
        match r {
            Some(found) => value_view(*value).member(key@) == Some(value_view(*found)),
            None => value_view(*value).member(key@) is None,
        },
{
    value.get(key)
}

/// `serde_json::Value::as_str` gives the text of a string, and nothing for anything else.
pub assume_specification[ serde_json::Value::as_str ](value: &serde_json::Value) -> (r: Option<
    &str,
>)
    ensures
        match r {
            Some(text) => value_view(*value).text() == Some(text@),
            None => value_view(*value).text() is None,
        },
;

/// `serde_json::Value::as_bool` gives the value of a boolean, and nothing for anything else.
pub assume_specification[ serde_json::Value::as_bool ](value: &serde_json::Value) -> (r: Option<
    bool,
>)
    ensures
        r == value_view(*value).flag(),
;

/// `serde_json::Value::as_array` gives the items of an array in their order, and nothing for
/// anything else.
pub assume_specification[ serde_json::Value::as_array ](value: &serde_json::Value) -> (r: Option<
    &Vec<serde_json::Value>,
>)
    ensures
        match r {
            Some(items) => value_view(*value).items() == Some(
                items@.map_values(|item: serde_json::Value| value_view(item)),
            ),
            None => value_view(*value).items() is None,
        },
;

/// The member `key` of `value`, if it is a string.
pub(crate) fn text_member<'a>(value: &'a serde_json::Value, key: &str) -> (r: Option<&'a str>)
    ensures
        match r {
            Some(text) => value_view(*value).text_member(key@) == Some(text@),
            None => value_view(*value).text_member(key@) is None,
        },
{
    match member(value, key) {
        Some(found) => found.as_str(),
        None => None,
    }
}

/// The member `key` of `value`, if it is a boolean.
pub(crate) fn flag_member(value: &serde_json::Value, key: &str) -> (r: Option<bool>)
    ensures
        r == value_view(*value).flag_member(key@),
{
    match member(value, key) {
        Some(found) => found.as_bool(),
        None => None,
    }
}

/// The member `key` of `value`, if it is an array.
pub(crate) fn array_member<'a>(value: &'a serde_json::Value, key: &str) -> (r: Option<
    &'a Vec<serde_json::Value>,
>)
    ensures
        match r {
            Some(items) => value_view(*value).array_member(key@) == Some(
                items@.map_values(|item: serde_json::Value| value_view(item)),
            ),
            None => value_view(*value).array_member(key@) is None,
        },
{
    match member(value, key) {
        Some(found) => found.as_array(),
        None => None,
    }
}

/// `serde_json::Map::new` gives an object without members.
#[verifier::external_body]
pub(crate) fn empty_object() -> (r: serde_json::Value)
    ensures
        value_view(r) == JsonView::Object(Map::empty()),
{
    serde_json::Value::Object(serde_json::Map::new())
}

/// Assigning to `value[key]`, the `IndexMut` of `serde_json::Value`, gives an object that member:
/// a new one, or in place of the one that it had. On anything but an object or null it panics.
#[verifier::external_body]
pub(crate) fn set_member(value: &mut serde_json::Value, key: &str, member: serde_json::Value)
    requires
        value_view(*old(value)) is Object,
    ensures
        value_view(*final(value)) == JsonView::Object(
            value_view(*old(value))->Object_0.insert(key@, value_view(member)),
        ),
{
    value[key] = member;
}

/// `serde_json::Value::from` makes a string of a text.
#[verifier::external_body]
pub(crate) fn text_value(text: &str) -> (r: serde_json::Value)
    ensures
        value_view(r) == JsonView::Text(text@),
{
    serde_json::Value::from(text)
}

/// `serde_json::Value::from` makes an integer number of a `u32`.
#[verifier::external_body]
pub(crate) fn integer_value(number: u32) -> (r: serde_json::Value)
    ensures
        value_view(r) == JsonView::Integer(number as int),
{
    serde_json::Value::from(number)
}

/// `serde_json::Value::from` makes a boolean of a `bool`.
#[verifier::external_body]
pub(crate) fn flag_value(flag: bool) -> (r: serde_json::Value)
    ensures
        value_view(r) == JsonView::Bool(flag),
{
    serde_json::Value::from(flag)
}

/// `serde_json::Value::from` makes an array of strings of a slice of texts, in their order.
#[verifier::external_body]
pub(crate) fn text_array_value(texts: &[String]) -> (r: serde_json::Value)
    ensures
        value_view(r) == text_array(texts@.map_values(|text: String| text@)),
{
    serde_json::Value::from(texts)
}

} // verus!
