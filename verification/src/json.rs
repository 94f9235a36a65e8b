//! The crate's only trusted boundary: projecting a field out of a JSON
//! object and reading a JSON string literal, both done by serde_json.
//!
//! Both results are functions of the argument text alone, so each is
//! given a name that the callers' contracts compose; nothing else is
//! assumed of them.
use vstd::prelude::*;

verus! {

/// The field named `key` of the JSON object written in `s`, rendered
/// back to compact JSON text; nothing when `s` is not JSON text, not
/// an object, or has no such field.
pub uninterp spec fn json_field(s: Seq<char>, key: Seq<char>) -> Option<Seq<char>>;

/// The character content of the JSON string literal written in `s`;
/// nothing when `s` is not the JSON text of a string.
pub uninterp spec fn json_string_value(s: Seq<char>) -> Option<Seq<char>>;

/// The view of an optional owned string.
pub open spec fn opt_view(o: Option<String>) -> Option<Seq<char>> {
    match o {
        Some(t) => Some(t@),
        None => None,
    }
}

/// Relies on serde_json::from_str::<Value>, Value::get and
/// Value::to_string: parses `s`, looks `key` up in the top-level
/// object, and renders the field's value back to compact JSON text.
/// The result depends on `s` and `key` alone.
#[verifier::external_body]
pub fn field_text(s: &str, key: &str) -> (r: Option<String>)
    ensures
        opt_view(r) == json_field(s@, key@),
{
    let v: serde_json::Value = match serde_json::from_str(s) {
        Ok(v) => v,
        Err(_) => return None,
    };
    match v.get(key) {
        Some(f) => Some(f.to_string()),
        None => None,
    }
}

/// Relies on serde_json::from_str::<String>: reads the JSON text of a
/// string literal back into the string it denotes. The result depends
/// on `s` alone.
#[verifier::external_body]
pub fn string_value(s: &str) -> (r: Option<String>)
    ensures
        opt_view(r) == json_string_value(s@),
{
    match serde_json::from_str(s) {
        Ok(t) => Some(t),
        Err(_) => None,
    }
}

} // verus!
