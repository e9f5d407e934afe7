//! The JSON values that requests and responses carry, and the few facts of
//! serde_json that the library relies on.
use vstd::prelude::*;

verus! {

/// serde_json's dynamically typed JSON value, carried through unread.
#[verifier::external_type_specification]
#[verifier::external_body]
pub struct ExValue(serde_json::Value);

/// Relies on serde_json's derived Clone for Value: a copy equal to the value.
pub assume_specification[ <serde_json::Value as Clone>::clone ](v: &serde_json::Value) -> (r: serde_json::Value)
    ensures
        r == *v,
;

/// What parsing `s` as JSON gives for its `id` member: `None` when `s` is not
/// JSON at all, `Some(Some(n))` when the member is the non-negative integer `n`,
/// and `Some(None)` otherwise.
pub uninterp spec fn json_id_field(s: Seq<char>) -> Option<Option<u64>>;

/// Relies on serde_json::from_str::<Value> to parse the text, on Value::get to
/// look up its `id` member and on Value::as_u64 to read that as an integer.
#[verifier::external_body]
pub(crate) fn json_id(s: &str) -> (r: Option<Option<u64>>)
    ensures
        r == json_id_field(s@),
{
    match serde_json::from_str::<serde_json::Value>(s) {
        Ok(v) => Some(v.get("id").and_then(serde_json::Value::as_u64)),
        Err(_) => None,
    }
}

} // verus!

verus! {

/// The empty JSON object.
pub uninterp spec fn empty_json_object(unit: ()) -> serde_json::Value;

/// Relies on serde_json::Map::new, wrapped in Value::Object: an empty object,
/// the same one on every call.
#[verifier::external_body]
pub(crate) fn empty_object() -> (r: serde_json::Value)
    ensures
        r == empty_json_object(()),
{
    serde_json::Value::Object(serde_json::Map::new())
}

/// The JSON number `n`.
pub uninterp spec fn json_u64(n: u64) -> serde_json::Value;

/// Relies on serde_json's From<u64> for Value: the number `n`, which depends
/// on `n` alone.
#[verifier::external_body]
pub(crate) fn u64_value(n: u64) -> (r: serde_json::Value)
    ensures
        r == json_u64(n),
{
    serde_json::Value::from(n)
}

} // verus!
