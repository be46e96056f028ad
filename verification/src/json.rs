//! The JSON decoding that the library asks of `serde_json`.
//!
//! Each function here makes one call into `serde_json` and hands back plain
//! strings. What a call returns is named by a specification function: the
//! JSON grammar is `serde_json`'s, and the library states its own logic over
//! these names.
use vstd::prelude::*;

verus! {

/// The elements of a JSON array text, each as its own JSON text, in order;
/// or, when the text is not a JSON array, the parser's error message.
pub uninterp spec fn json_array_parse(text: Seq<char>) -> Result<Seq<Seq<char>>, Seq<char>>;

/// The elements of a JSON array text read as JSON values, each printed back
/// in compact form, in order; or, when the text is not an array of values,
/// the parser's error message.
pub uninterp spec fn json_value_array(text: Seq<char>) -> Result<Seq<Seq<char>>, Seq<char>>;

/// The members of a JSON object text as (key, JSON text of the value) pairs,
/// ordered by key, a repeated key keeping its last value (`None` when the text
/// is not a JSON object).
pub uninterp spec fn json_object_members(text: Seq<char>) -> Option<Seq<(Seq<char>, Seq<char>)>>;

/// The decoded string of a JSON string text (`None` when the text is not a
/// JSON string).
pub uninterp spec fn json_string_value(text: Seq<char>) -> Option<Seq<char>>;

/// The compact re-serialisation of a JSON text (`None` when it is not JSON).
pub uninterp spec fn json_compact(text: Seq<char>) -> Option<Seq<char>>;

/// The value of a JSON text that deserializes as a `u64`.
pub uninterp spec fn json_u64_value(text: Seq<char>) -> Option<u64>;

/// The value of a JSON text that deserializes as an `i64`.
pub uninterp spec fn json_i64_value(text: Seq<char>) -> Option<i64>;

/// The value of a JSON text that deserializes as an `i32`.
pub uninterp spec fn json_i32_value(text: Seq<char>) -> Option<i32>;

/// The JSON string text that encodes a string.
pub uninterp spec fn json_quoted(s: Seq<char>) -> Seq<char>;

pub open spec fn texts(v: Seq<String>) -> Seq<Seq<char>> {
    v.map_values(|s: String| s@)
}

pub open spec fn pair_texts(v: Seq<(String, String)>) -> Seq<(Seq<char>, Seq<char>)> {
    v.map_values(|p: (String, String)| (p.0@, p.1@))
}

/// Calls `serde_json::from_str` for a `Vec` of raw values: the array's
/// elements, each as the exact JSON text it spans, or the error's display
/// text. The contract claims that the result is `json_array_parse` of the
/// text, and that there are no more elements than characters (each element
/// spans at least one).
#[verifier::external_body]
pub fn array_items(text: &str) -> (r: Result<Vec<String>, String>)
    ensures
        r matches Ok(v) ==> (json_array_parse(text@) matches Ok(items) && items == texts(v@)),
        r matches Err(e) ==> (json_array_parse(text@) matches Err(m) && m == e@),
        r matches Ok(v) ==> v.len() <= text@.len(),
{
    match serde_json::from_str::<Vec<&serde_json::value::RawValue>>(text) {
        Ok(items) => Ok(items.iter().map(|v| v.get().to_string()).collect()),
        Err(e) => Err(e.to_string()),
    }
}

/// Calls `serde_json::from_str` for a `Vec` of `serde_json::Value`s and
/// prints each element back in compact form, or gives the error's display
/// text. The contract claims that the result is `json_value_array` of the
/// text.
#[verifier::external_body]
pub fn value_items(text: &str) -> (r: Result<Vec<String>, String>)
    ensures
        r matches Ok(v) ==> (json_value_array(text@) matches Ok(items) && items == texts(v@)),
        r matches Err(e) ==> (json_value_array(text@) matches Err(m) && m == e@),
{
    match serde_json::from_str::<Vec<serde_json::Value>>(text) {
        Ok(items) => Ok(items.iter().map(|v| v.to_string()).collect()),
        Err(e) => Err(e.to_string()),
    }
}

/// Calls `serde_json::from_str` for a `BTreeMap` from keys to raw values. The
/// contract claims that the result is `json_object_members` of the text.
#[verifier::external_body]
pub fn object_members(text: &str) -> (r: Option<Vec<(String, String)>>)
    ensures
        r is Some <==> json_object_members(text@) is Some,
        r matches Some(v) ==> json_object_members(text@) == Some(pair_texts(v@)),
{
    serde_json::from_str::<std::collections::BTreeMap<String, &serde_json::value::RawValue>>(text)
        .ok()
        .map(|m| m.into_iter().map(|(k, v)| (k, v.get().to_string())).collect())
}

/// Calls `serde_json::from_str` for a `String`. The contract claims that the
/// result is `json_string_value` of the text.
#[verifier::external_body]
pub fn string_value(text: &str) -> (r: Option<String>)
    ensures
        r is Some <==> json_string_value(text@) is Some,
        r matches Some(s) ==> json_string_value(text@) == Some(s@),
{
    serde_json::from_str::<String>(text).ok()
}

/// Calls `serde_json::from_str` for a `serde_json::Value` and prints the value
/// back in compact form. The contract claims that the result is `json_compact`
/// of the text.
#[verifier::external_body]
pub fn compact(text: &str) -> (r: Option<String>)
    ensures
        r is Some <==> json_compact(text@) is Some,
        r matches Some(s) ==> json_compact(text@) == Some(s@),
{
    serde_json::from_str::<serde_json::Value>(text).ok().map(|v| v.to_string())
}

/// Calls `serde_json::from_str` for a `u64`. The contract claims that the
/// result is `json_u64_value` of the text.
#[verifier::external_body]
pub fn u64_value(text: &str) -> (r: Option<u64>)
    ensures
        r == json_u64_value(text@),
{
    serde_json::from_str::<u64>(text).ok()
}

/// Calls `serde_json::from_str` for an `i64`. The contract claims that the
/// result is `json_i64_value` of the text.
#[verifier::external_body]
pub fn i64_value(text: &str) -> (r: Option<i64>)
    ensures
        r == json_i64_value(text@),
{
    serde_json::from_str::<i64>(text).ok()
}

/// Calls `serde_json::from_str` for an `i32`. The contract claims that the
/// result is `json_i32_value` of the text.
#[verifier::external_body]
pub fn i32_value(text: &str) -> (r: Option<i32>)
    ensures
        r == json_i32_value(text@),
{
    serde_json::from_str::<i32>(text).ok()
}

/// Calls `serde_json::to_string` on a string slice, which writes it as a
/// JSON string (it cannot fail on a `str`). The contract claims that the
/// result is `json_quoted` of the string, and that decoding it as a JSON
/// string gives the string back.
#[verifier::external_body]
pub fn quote(s: &str) -> (r: String)
    ensures
        r@ == json_quoted(s@),
        json_string_value(r@) == Some(s@),
{
    serde_json::to_string(s).unwrap_or_default()
}

} // verus!
