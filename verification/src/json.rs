//! JSON documents: what the JSON parser reports of a text and of the values
//! in it.

use serde_json::Value;
use vstd::prelude::*;

verus! {

/// A JSON value of the `serde_json` crate.
#[verifier::external_type_specification]
#[verifier::external_body]
pub struct ExValue(serde_json::Value);

/// The JSON value that `serde_json::from_str` reads from a text, or `None`
/// where it rejects the text.
pub uninterp spec fn json_document(text: Seq<char>) -> Option<Value>;

/// The elements of a JSON array, as `Value::as_array` returns them; `None`
/// for a value that is not an array.
pub uninterp spec fn json_array(value: Value) -> Option<Seq<Value>>;

/// The member of a JSON object under a key, as `Value::get` returns it;
/// `None` for a value that is not an object and for an object without that
/// key.
pub uninterp spec fn json_member(value: Value, key: Seq<char>) -> Option<Value>;

/// The text of a JSON string, as `Value::as_str` returns it; `None` for a
/// value that is not a string.
pub uninterp spec fn json_text(value: Value) -> Option<Seq<char>>;

/// The truth value of a JSON boolean, as `Value::as_bool` returns it; `None`
/// for a value that is not a boolean.
pub uninterp spec fn json_flag(value: Value) -> Option<bool>;

/// `serde_json::from_str`, reading a `Value`, with its error dropped. The
/// result depends on the text alone, and is `None` exactly where the text is
/// not valid JSON.
#[verifier::external_body]
pub(crate) fn parse_value(text: &str) -> (r: Option<Value>)
    ensures
        r == json_document(text@),
{
    serde_json::from_str::<Value>(text).ok()
}

/// `Value::get` with a text key: the member of an object under that key.
#[verifier::external_body]
pub(crate) fn member<'a>(value: &'a Value, key: &str) -> (r: Option<&'a Value>)
    ensures
        match r {
            Some(found) => json_member(*value, key@) == Some(*found),
            None => json_member(*value, key@) is None,
        },
{
    value.get(key)
}

/// `Value::as_array` returns the elements of an array, in their order.
pub assume_specification<'a>[ Value::as_array ](value: &'a Value) -> (r: Option<&'a Vec<Value>>)
    ensures
        match r {
            Some(items) => json_array(*value) == Some(items@),
            None => json_array(*value) is None,
        },
;

/// `Value::as_str` returns the text of a string.
pub assume_specification<'a>[ Value::as_str ](value: &'a Value) -> (r: Option<&'a str>)
    ensures
        match r {
            Some(text) => json_text(*value) == Some(text@),
            None => json_text(*value) is None,
        },
;

/// `Value::as_bool` returns the truth value of a boolean.
pub assume_specification[ Value::as_bool ](value: &Value) -> (r: Option<bool>)
    ensures
        r == json_flag(*value),
;

} // verus!
