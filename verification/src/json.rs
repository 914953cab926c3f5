//! What the parsers read out of JSON text. `serde_json` does the reading; the
//! library names what it gives back, as a function of the text and the keys.
use vstd::prelude::*;
use crate::text::opt_view;

verus! {

/// The string that member `key` of the JSON object in `text` holds, as
/// `serde_json` reads it; `None` when `text` is not JSON, not an object, has
/// no such member, or the member is not a string.
pub uninterp spec fn json_str_member(text: Seq<char>, key: Seq<char>) -> Option<Seq<char>>;

/// Member `key` as `serde_json::Value::as_i64` reads it.
pub uninterp spec fn json_i64_member(text: Seq<char>, key: Seq<char>) -> Option<i64>;

/// Member `key` as `serde_json::Value::as_u64` reads it.
pub uninterp spec fn json_u64_member(text: Seq<char>, key: Seq<char>) -> Option<u64>;

/// Member `key` as `serde_json::Value::as_bool` reads it.
pub uninterp spec fn json_bool_member(text: Seq<char>, key: Seq<char>) -> Option<bool>;

/// The number of elements of the array that member `key` holds; `None` when
/// the member is not an array (or `text` is not a JSON object).
pub uninterp spec fn json_array_member_len(text: Seq<char>, key: Seq<char>) -> Option<nat>;

/// Element `index` of the array that member `key` holds, written back as
/// JSON text by `serde_json`.
pub uninterp spec fn json_array_member_item(text: Seq<char>, key: Seq<char>, index: nat) -> Option<
    Seq<char>,
>;

/// The message of the error with which `serde_json::from_str` refuses
/// `text` as a JSON value; `None` when it accepts it.
pub uninterp spec fn json_syntax_error(text: Seq<char>) -> Option<Seq<char>>;

/// Calls `serde_json::from_str::<Value>`, `Value::get` and `Value::as_str`.
/// Claims only that the result is `json_str_member` of the arguments, that
/// is, that the same text and key always read the same.
#[verifier::external_body]
pub(crate) fn str_member(text: &str, key: &str) -> (r: Option<String>)
    ensures
        opt_view(r) == json_str_member(text@, key@),
{
    match serde_json::from_str::<serde_json::Value>(text) {
        Ok(v) => match v.get(key) {
            Some(m) => m.as_str().map(String::from),
            None => None,
        },
        Err(_) => None,
    }
}

/// Calls `serde_json::from_str::<Value>`, `Value::get` and `Value::as_i64`;
/// claims that the result is `json_i64_member` of the arguments.
#[verifier::external_body]
pub(crate) fn i64_member(text: &str, key: &str) -> (r: Option<i64>)
    ensures
        r == json_i64_member(text@, key@),
{
    match serde_json::from_str::<serde_json::Value>(text) {
        Ok(v) => match v.get(key) {
            Some(m) => m.as_i64(),
            None => None,
        },
        Err(_) => None,
    }
}

/// Calls `serde_json::from_str::<Value>`, `Value::get` and `Value::as_u64`;
/// claims that the result is `json_u64_member` of the arguments.
#[verifier::external_body]
pub(crate) fn u64_member(text: &str, key: &str) -> (r: Option<u64>)
    ensures
        r == json_u64_member(text@, key@),
{
    match serde_json::from_str::<serde_json::Value>(text) {
        Ok(v) => match v.get(key) {
            Some(m) => m.as_u64(),
            None => None,
        },
        Err(_) => None,
    }
}

/// Calls `serde_json::from_str::<Value>`, `Value::get` and `Value::as_bool`;
/// claims that the result is `json_bool_member` of the arguments.
#[verifier::external_body]
pub(crate) fn bool_member(text: &str, key: &str) -> (r: Option<bool>)
    ensures
        r == json_bool_member(text@, key@),
{
    match serde_json::from_str::<serde_json::Value>(text) {
        Ok(v) => match v.get(key) {
            Some(m) => m.as_bool(),
            None => None,
        },
        Err(_) => None,
    }
}

/// Calls `serde_json::from_str::<Value>`, `Value::get`, `Value::as_array` and
/// `Vec::len`; claims that the result is `json_array_member_len` of the
/// arguments.
#[verifier::external_body]
pub(crate) fn array_member_len(text: &str, key: &str) -> (r: Option<usize>)
    ensures
        match r {
            Some(n) => json_array_member_len(text@, key@) == Some(n as nat),
            None => json_array_member_len(text@, key@) is None,
        },
{
    match serde_json::from_str::<serde_json::Value>(text) {
        Ok(v) => match v.get(key) {
            Some(m) => m.as_array().map(|a| a.len()),
            None => None,
        },
        Err(_) => None,
    }
}

/// Calls `serde_json::from_str::<Value>`, `Value::get`, `Value::as_array`,
/// `slice::get` and `Value::to_string`; claims that the result is
/// `json_array_member_item` of the arguments.
#[verifier::external_body]
pub(crate) fn array_member_item(text: &str, key: &str, index: usize) -> (r: Option<String>)
    ensures
        opt_view(r) == json_array_member_item(text@, key@, index as nat),
{
    match serde_json::from_str::<serde_json::Value>(text) {
        Ok(v) => match v.get(key) {
            Some(m) => match m.as_array() {
                Some(a) => a.get(index).map(|e| e.to_string()),
                None => None,
            },
            None => None,
        },
        Err(_) => None,
    }
}

/// Calls `serde_json::from_str::<Value>` and, on an error, its `Display`;
/// claims that the result is `json_syntax_error` of the text.
#[verifier::external_body]
pub(crate) fn syntax_error(text: &str) -> (r: Option<String>)
    ensures
        opt_view(r) == json_syntax_error(text@),
{
    match serde_json::from_str::<serde_json::Value>(text) {
        Ok(_) => None,
        Err(e) => Some(e.to_string()),
    }
}

} // verus!
