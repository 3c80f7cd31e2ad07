//! The structured-output probe's JSON interface: parsing is `serde_json`'s;
//! these trusted items name what the parsed document holds at top level.

use vstd::prelude::*;

verus! {

#[verifier::external_type_specification]
#[verifier::external_body]
pub struct ExValue(serde_json::Value);

/// Whether the text parses as a JSON document, as `serde_json::from_str`
/// decides it.
pub uninterp spec fn json_parses(s: Seq<char>) -> bool;

/// The top-level fields of the document the text parses to whose values are
/// strings, keyed by field name.
pub uninterp spec fn json_strs_of(s: Seq<char>) -> Map<Seq<char>, Seq<char>>;

/// The top-level fields of the document the text parses to whose values are
/// unsigned integers representable in sixty-four bits.
pub uninterp spec fn json_u64s_of(s: Seq<char>) -> Map<Seq<char>, u64>;

/// The string-valued top-level fields a parsed JSON value holds.
pub uninterp spec fn json_strs(v: serde_json::Value) -> Map<Seq<char>, Seq<char>>;

/// The unsigned-integer-valued top-level fields a parsed JSON value holds.
pub uninterp spec fn json_u64s(v: serde_json::Value) -> Map<Seq<char>, u64>;

/// Relies on `serde_json::from_str::<Value>`: whether the text parses, and
/// what the document holds, are pure functions of the text.
#[verifier::external_body]
pub fn json_parse(s: &str) -> (r: Option<serde_json::Value>)
    ensures
        r is Some <==> json_parses(s@),
        r matches Some(v) ==> json_strs(v) == json_strs_of(s@) && json_u64s(v) == json_u64s_of(s@),
{
    serde_json::from_str::<serde_json::Value>(s).ok()
}

/// Relies on `serde_json::Value::get` and `Value::as_str`: the named top-level
/// field when it holds a string, absent otherwise.
#[verifier::external_body]
pub fn json_get_str(v: &serde_json::Value, key: &str) -> (r: Option<String>)
    ensures
        match r {
            Some(x) => json_strs(*v).contains_key(key@) && x@ == json_strs(*v)[key@],
            None => !json_strs(*v).contains_key(key@),
        },
{
    match v.get(key) {
        Some(f) => match f.as_str() {
            Some(x) => Some(x.to_string()),
            None => None,
        },
        None => None,
    }
}

/// Relies on `serde_json::Value::get` and `Value::as_u64`: the named top-level
/// field when it holds an unsigned integer, absent otherwise.
#[verifier::external_body]
pub fn json_get_u64(v: &serde_json::Value, key: &str) -> (r: Option<u64>)
    ensures
        match r {
            Some(x) => json_u64s(*v).contains_key(key@) && x == json_u64s(*v)[key@],
            None => !json_u64s(*v).contains_key(key@),
        },
{
    match v.get(key) {
        Some(f) => f.as_u64(),
        None => None,
    }
}

} // verus!
