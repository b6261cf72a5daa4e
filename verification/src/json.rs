//! JSON values as `serde_json` reads them.

use vstd::prelude::*;

use serde_json::Value;

use crate::table;

verus! {

/// A JSON value.
#[verifier::external_type_specification]
#[verifier::external_body]
pub struct ExValue(serde_json::Value);

/// Why bytes are no JSON text, or a JSON value not of the type asked for.
#[verifier::external_type_specification]
#[verifier::external_body]
pub struct ExJsonError(serde_json::Error);

/// The outermost layer of a JSON value.
pub enum Node {
    /// `null`.
    Null,
    /// `true` or `false`.
    Bool(bool),
    /// A number, with its value where that is an integer in the range of `i64`.
    Number(Option<i64>),
    /// A string.
    Text(Seq<char>),
    /// An array.
    List(Seq<Value>),
    /// An object.
    Record(Map<Seq<char>, Value>),
}

/// What a JSON value holds.
pub uninterp spec fn node(value: Value) -> Node;

/// The JSON value that bytes write down, or why they are no JSON text.
pub uninterp spec fn json_value(bytes: Seq<u8>) -> Result<Value, serde_json::Error>;

/// Why a JSON value is no integer in the range of `i64`, in words.
pub uninterp spec fn integer_error(value: Value) -> Seq<char>;

/// Why a JSON value is no string, in words.
pub uninterp spec fn text_error(value: Value) -> Seq<char>;

/// Why a JSON value is no array, in words.
pub uninterp spec fn list_error(value: Value) -> Seq<char>;

/// Why a JSON value is no object of integers, in words.
pub uninterp spec fn counts_error(value: Value) -> Seq<char>;

impl Node {
    /// The integer that a value is.
    pub open spec fn integer(self) -> Option<i64> {
        match self {
            Node::Number(n) => n,
            _ => None,
        }
    }

    /// The text that a value is.
    pub open spec fn text(self) -> Option<Seq<char>> {
        match self {
            Node::Text(s) => Some(s),
            _ => None,
        }
    }

    /// The elements of a value that is an array.
    pub open spec fn list(self) -> Option<Seq<Value>> {
        match self {
            Node::List(items) => Some(items),
            _ => None,
        }
    }

    /// What stands under `key` in a value that is an object.
    pub open spec fn field(self, key: Seq<char>) -> Option<Value> {
        match self {
            Node::Record(fields) => if fields.dom().contains(key) {
                Some(fields[key])
            } else {
                None
            },
            _ => None,
        }
    }

    /// The entries of an object whose values are all integers.
    pub open spec fn counts(self) -> Option<Map<Seq<char>, i64>> {
        match self {
            Node::Record(fields) => if forall|key: Seq<char>|
                fields.dom().contains(key) ==> node(#[trigger] fields[key]).integer() is Some {
                Some(fields.map_values(|field: Value| node(field).integer()->0))
            } else {
                None
            },
            _ => None,
        }
    }
}

/// Reads one JSON text with `serde_json::from_slice::<Value>`. The outcome depends on the bytes
/// alone.
#[verifier::external_body]
pub(crate) fn parse(bytes: &[u8]) -> (value: Result<Value, serde_json::Error>)
    ensures
        value == json_value(bytes@),
{
    serde_json::from_slice::<Value>(bytes)
}

/// The elements of an array, by `Value::as_array`, which gives `None` for any other value.
#[verifier::external_body]
pub(crate) fn as_list(value: &Value) -> (items: Option<&Vec<Value>>)
    ensures
        match items {
            Some(v) => node(*value).list() == Some(v@),
            None => node(*value).list() is None,
        },
{
    value.as_array()
}

/// What stands under `key` in an object, by `Value::get` with a text for index, which gives
/// `None` where the key is missing and for any other value.
#[verifier::external_body]
pub(crate) fn get_field<'a>(value: &'a Value, key: &str) -> (found: Option<&'a Value>)
    ensures
        match found {
            Some(v) => node(*value).field(key@) == Some(*v),
            None => node(*value).field(key@) is None,
        },
{
    value.get(key)
}

/// Whether a value is an object, by `Value::is_object`.
#[verifier::external_body]
pub(crate) fn is_record(value: &Value) -> (record: bool)
    ensures
        record == (node(*value) is Record),
{
    value.is_object()
}

/// The elements of an array that is given up, by `serde_json::from_value::<Vec<Value>>`, which keeps
/// each element as it is. For any other value it gives the text of the error, which depends on the
/// value alone.
#[verifier::external_body]
pub(crate) fn read_list(value: Value) -> (items: Result<Vec<Value>, String>)
    ensures
        match items {
            Ok(v) => node(value).list() == Some(v@),
            Err(cause) => node(value).list() is None && cause@ == list_error(value),
        },
{
    match serde_json::from_value::<Vec<Value>>(value) {
        Ok(items) => Ok(items),
        Err(e) => Err(e.to_string()),
    }
}

/// An integer in the range of `i64`, by `serde_json::from_value::<i64>`. For any other number and
/// any other value it gives the text of the error, which depends on the value alone.
#[verifier::external_body]
pub(crate) fn read_integer(value: &Value) -> (n: Result<i64, String>)
    ensures
        match n {
            Ok(n) => node(*value).integer() == Some(n),
            Err(cause) => node(*value).integer() is None && cause@ == integer_error(*value),
        },
{
    match serde_json::from_value::<i64>(value.clone()) {
        Ok(n) => Ok(n),
        Err(e) => Err(e.to_string()),
    }
}

/// A string, by `serde_json::from_value::<String>`. For any other value it gives the text of the
/// error, which depends on the value alone.
#[verifier::external_body]
pub(crate) fn read_text(value: &Value) -> (text: Result<String, String>)
    ensures
        match text {
            Ok(t) => node(*value).text() == Some(t@),
            Err(cause) => node(*value).text() is None && cause@ == text_error(*value),
        },
{
    match serde_json::from_value::<String>(value.clone()) {
        Ok(text) => Ok(text),
        Err(e) => Err(e.to_string()),
    }
}

/// An object of integers, by `serde_json::from_value::<HashMap<String, i64>>`, which succeeds for
/// exactly the objects whose values are all integers in the range of `i64`. The entries come in
/// the order in which the hash map is walked: each key once, in an order that is not fixed. For any
/// other value it gives the text of the error, which depends on the value alone. Where the value is
/// no object at all, the text ends with what was expected, a map.
#[verifier::external_body]
pub(crate) fn read_counts(value: &Value) -> (entries: Result<Vec<(String, i64)>, String>)
    ensures
        match entries {
            Ok(list) => table::distinct_keys(list@) && node(*value).counts() == Some(
                table::entry_map(list@),
            ),
            Err(cause) => {
                &&& node(*value).counts() is None
                &&& cause@ == counts_error(*value)
                &&& node(*value) !is Record ==> "a map"@.is_suffix_of(cause@)
            },
        },
{
    match serde_json::from_value::<std::collections::HashMap<String, i64>>(value.clone()) {
        Ok(map) => Ok(map.into_iter().collect()),
        Err(e) => Err(e.to_string()),
    }
}

} // verus!
