//! Reading single numbers out of a JSON document, through `serde_json`.

use vstd::prelude::*;

verus! {

/// The whole number that the JSON document `text` holds at the place that the JSON
/// pointer `pointer` names; `None` where `text` is not a JSON document, where it has
/// no value at that place, or where the value is not a whole number from 0 to
/// 2^64 - 1.
pub uninterp spec fn json_unsigned_at(text: Seq<char>, pointer: Seq<char>) -> Option<u64>;

/// The number that the JSON document `text` holds at the place that the JSON pointer
/// `pointer` names, as the bit pattern of the nearest binary64 value; `None` where
/// `text` is not a JSON document, where it has no value at that place, or where the
/// value is not a number.
pub uninterp spec fn json_binary64_at(text: Seq<char>, pointer: Seq<char>) -> Option<u64>;

/// `serde_json::from_str` into a `serde_json::Value`, then `Value::pointer` and
/// `Value::as_u64` on what it returned. Trusted: the outcome depends on the two
/// texts alone.
#[verifier::external_body]
pub(crate) fn unsigned_at(text: &str, pointer: &str) -> (r: Option<u64>)
    ensures
        r == json_unsigned_at(text@, pointer@),
{
    let document: serde_json::Value = serde_json::from_str(text).ok()?;
    document.pointer(pointer)?.as_u64()
}

/// `serde_json::from_str` into a `serde_json::Value`, then `Value::pointer` and
/// `Value::as_f64` on what it returned, and std's `to_bits` of that number. Trusted:
/// the outcome depends on the two texts alone.
#[verifier::external_body]
pub(crate) fn binary64_at(text: &str, pointer: &str) -> (r: Option<u64>)
    ensures
        r == json_binary64_at(text@, pointer@),
{
    let document: serde_json::Value = serde_json::from_str(text).ok()?;
    Some(document.pointer(pointer)?.as_f64()?.to_bits())
}

} // verus!
