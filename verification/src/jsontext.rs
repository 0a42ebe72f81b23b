//! The JSON boundary. Parsed JSON values are opaque to the verified
//! code: each read goes through a trusted wrapper, and whether a text
//! parses at all is captured by a name that the parse wrapper applies.

use vstd::prelude::*;

verus! {

#[verifier::external_type_specification]
#[verifier::external_body]
pub struct ExJsonValue(json::JsonValue);

/// Whether `json::parse` accepts a text: a function of the text alone.
pub uninterp spec fn json_parses(s: Seq<char>) -> bool;

/// Relies on `json::parse`: it returns `Ok` exactly on the texts it
/// accepts, which depends on the text alone.
#[verifier::external_body]
pub fn json_parse(s: &str) -> (r: Result<json::JsonValue, ()>)
    ensures
        r is Ok <==> json_parses(s@),
{
    match json::parse(s) {
        Ok(parsed) => Ok(parsed),
        Err(_err) => Err(()),
    }
}

/// Relies on `Index<&str>` for `json::JsonValue`: the member under the
/// key of an object, and the null value for everything else.
#[verifier::external_body]
pub fn json_member<'a>(v: &'a json::JsonValue, key: &str) -> &'a json::JsonValue {
    &v[key]
}

/// Relies on `json::JsonValue::is_string`.
#[verifier::external_body]
pub fn json_is_string(v: &json::JsonValue) -> bool {
    v.is_string()
}

/// Relies on `json::JsonValue::as_str`: the text of a string value.
#[verifier::external_body]
pub fn json_as_string(v: &json::JsonValue) -> Option<String> {
    match v.as_str() {
        Some(s) => Some(s.to_owned()),
        None => None,
    }
}

/// Relies on `json::JsonValue::is_number`.
#[verifier::external_body]
pub fn json_is_number(v: &json::JsonValue) -> bool {
    v.is_number()
}

/// Relies on `json::JsonValue::as_number` and the number's rendering.
#[verifier::external_body]
pub fn json_number_string(v: &json::JsonValue) -> Option<String> {
    match v.as_number() {
        Some(num) => Some(num.to_string()),
        None => None,
    }
}

} // verus!
