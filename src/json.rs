//! Reading JSON text through serde_json. Each reader takes JSON text and
//! hands back plain values; nested values come back as their compact JSON
//! text, so that they can be read in turn.

use vstd::prelude::*;

verus! {

/// The members of a JSON object, each value as compact JSON text.
pub uninterp spec fn json_members(text: Seq<char>) -> Option<Seq<(Seq<char>, Seq<char>)>>;

/// The elements of a JSON array, each as compact JSON text.
pub uninterp spec fn json_elements(text: Seq<char>) -> Option<Seq<Seq<char>>>;

/// The string that a JSON string literal denotes.
pub uninterp spec fn json_string(text: Seq<char>) -> Option<Seq<char>>;

/// A JSON string or `null`.
pub uninterp spec fn json_nullable_string(text: Seq<char>) -> Option<Option<Seq<char>>>;

/// A JSON integer that fits in `i64`.
pub uninterp spec fn json_i64(text: Seq<char>) -> Option<i64>;

pub open spec fn pairs_view(v: Seq<(String, String)>) -> Seq<(Seq<char>, Seq<char>)> {
    v.map_values(|p: (String, String)| (p.0@, p.1@))
}

pub open spec fn strings_view(v: Seq<String>) -> Seq<Seq<char>> {
    v.map_values(|s: String| s@)
}

/// Relies on `serde_json::from_str` into a `serde_json::Map<String, Value>`
/// (succeeds on exactly one JSON object), and on `Value`'s `Display`, which
/// writes a value back as compact JSON.
#[verifier::external_body]
pub(crate) fn object_members(text: &str) -> (r: Result<Vec<(String, String)>, String>)
    ensures
        r is Ok == json_members(text@) is Some,
        r matches Ok(v) ==> pairs_view(v@) == json_members(text@)->0,
{
    match serde_json::from_str::<serde_json::Map<String, serde_json::Value>>(text) {
        Ok(m) => Ok(m.into_iter().map(|(k, v)| (k, v.to_string())).collect()),
        Err(e) => Err(e.to_string()),
    }
}

/// Relies on `serde_json::from_str` into a `Vec<Value>` (succeeds on exactly
/// one JSON array), and on `Value`'s `Display` (compact JSON).
#[verifier::external_body]
pub(crate) fn array_elements(text: &str) -> (r: Option<Vec<String>>)
    ensures
        r is Some == json_elements(text@) is Some,
        r matches Some(v) ==> strings_view(v@) == json_elements(text@)->0,
{
    serde_json::from_str::<Vec<serde_json::Value>>(text).ok().map(
        |v| v.into_iter().map(|e| e.to_string()).collect(),
    )
}

/// Relies on `serde_json::from_str` into a `String`: succeeds on one JSON
/// string literal, with its escapes resolved.
#[verifier::external_body]
pub(crate) fn string_value(text: &str) -> (r: Option<String>)
    ensures
        r is Some == json_string(text@) is Some,
        r matches Some(s) ==> s@ == json_string(text@)->0,
{
    serde_json::from_str::<String>(text).ok()
}

/// Relies on `serde_json::from_str` into an `Option<String>`: `null` gives
/// `None`, a JSON string literal gives its string.
#[verifier::external_body]
pub(crate) fn nullable_string_value(text: &str) -> (r: Option<Option<String>>)
    ensures
        r is Some == json_nullable_string(text@) is Some,
        r matches Some(o) ==> match o {
            Some(s) => json_nullable_string(text@)->0 == Some(s@),
            None => json_nullable_string(text@)->0 is None,
        },
{
    serde_json::from_str::<Option<String>>(text).ok()
}

/// Relies on `serde_json::from_str` into an `i64`: succeeds on one JSON
/// integer within `i64`'s range.
#[verifier::external_body]
pub(crate) fn i64_value(text: &str) -> (r: Option<i64>)
    ensures
        r == json_i64(text@),
{
    serde_json::from_str::<i64>(text).ok()
}

/// A list of strings written as a compact JSON array, where writing succeeds.
pub uninterp spec fn json_of_strings(v: Seq<Seq<char>>) -> Option<Seq<char>>;

/// Relies on `serde_json::to_string` of a `Vec<String>`: a compact JSON array
/// of the strings.
#[verifier::external_body]
pub(crate) fn strings_to_json(v: &Vec<String>) -> (r: Option<String>)
    ensures
        r is Some == json_of_strings(strings_view(v@)) is Some,
        r matches Some(s) ==> s@ == json_of_strings(strings_view(v@))->0,
{
    serde_json::to_string(v).ok()
}

} // verus!
