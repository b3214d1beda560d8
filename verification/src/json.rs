use vstd::prelude::*;

verus! {

/// The string held under `key` in the JSON object that `text` encodes, or
/// `None` where `text` is no JSON, no object, or has no string under `key`.
pub uninterp spec fn json_str_field(text: Seq<char>, key: Seq<char>) -> Option<Seq<char>>;

/// Calls `serde_json::from_str` into a `serde_json::Value`, then `Value::get`
/// with `key` and `Value::as_str` on what it finds: the value is an outside type
/// that Verus cannot see into, so the reading of the one field stays in this
/// call. Claimed: the result is a function of the text and the key alone, named
/// `json_str_field`. Nothing is claimed of what JSON parsing gives.
#[verifier::external_body]
pub(crate) fn parse_str_field(text: &str, key: &str) -> (r: Option<String>)
    ensures
        r matches Some(s) ==> json_str_field(text@, key@) == Some(s@),
        r is None ==> json_str_field(text@, key@) is None,
{
    match serde_json::from_str::<serde_json::Value>(text) {
        Ok(value) => value.get(key).and_then(|field| field.as_str()).map(|s| s.to_string()),
        Err(_) => None,
    }
}

} // verus!
