//! A thin trusted view of `serde_json`: parsing, pretty printing, and
//! reading or building values. Every statement about a JSON value goes
//! through the named functions below; building and reading structures out of
//! entries and items is verified code elsewhere.

use vstd::prelude::*;

verus! {

#[verifier::external_type_specification]
#[verifier::external_body]
pub struct ExValue(serde_json::Value);

/// The JSON value a byte sequence parses to, if it is well-formed JSON.
pub uninterp spec fn json_of(bytes: Seq<u8>) -> Option<serde_json::Value>;

/// The pretty-printed bytes of a JSON value.
pub uninterp spec fn json_pretty_of(v: serde_json::Value) -> Seq<u8>;

/// The object entries of a value, when it is an object.
pub uninterp spec fn json_obj(v: serde_json::Value) -> Option<Map<Seq<char>, serde_json::Value>>;

/// The items of a value, when it is an array.
pub uninterp spec fn json_arr(v: serde_json::Value) -> Option<Seq<serde_json::Value>>;

/// The characters of a value, when it is a string.
pub uninterp spec fn json_str_of(v: serde_json::Value) -> Option<Seq<char>>;

/// The value as an unsigned 64-bit integer, when it is one.
pub uninterp spec fn json_u64_of(v: serde_json::Value) -> Option<u64>;

/// The value as a signed 64-bit integer, when it is one.
pub uninterp spec fn json_i64_of(v: serde_json::Value) -> Option<i64>;

/// The container nesting depth of a value: 0 for scalars, one more than the
/// deepest member for objects and arrays. The parser refuses documents
/// nested deeper than 127 levels, so printing only round-trips under that
/// bound.
pub uninterp spec fn json_depth(v: serde_json::Value) -> nat;

/// Every entry's value has depth at most `d`.
pub open spec fn entries_depth_le(es: Seq<(String, serde_json::Value)>, d: nat) -> bool {
    forall|i: int| 0 <= i < es.len() ==> json_depth((#[trigger] es[i]).1) <= d
}

/// Every item has depth at most `d`.
pub open spec fn items_depth_le(items: Seq<serde_json::Value>, d: nat) -> bool {
    forall|i: int| 0 <= i < items.len() ==> json_depth(#[trigger] items[i]) <= d
}

/// The object that a list of entries builds: entries inserted left to
/// right, a later key overwriting an earlier one.
pub open spec fn entries_map(es: Seq<(String, serde_json::Value)>) -> Map<
    Seq<char>,
    serde_json::Value,
>
    decreases es.len(),
{
    if es.len() == 0 {
        Map::empty()
    } else {
        entries_map(es.drop_last()).insert(es.last().0@, es.last().1)
    }
}

/// True when no two entries share a key.
pub open spec fn distinct_keys(es: Seq<(String, serde_json::Value)>) -> bool {
    crate::assoc::keys_distinct(es)
}

/// Relies on `serde_json::from_slice`: parsing depends on the bytes alone,
/// and the parser's recursion limit admits only values nested at most 127
/// levels deep.
#[verifier::external_body]
pub fn json_parse(bytes: &[u8]) -> (r: Option<serde_json::Value>)
    ensures
        r == json_of(bytes@),
        r is Some ==> json_depth(r.unwrap()) <= 127,
{
    serde_json::from_slice::<serde_json::Value>(bytes).ok()
}

/// Relies on `serde_json::to_vec_pretty`: printing depends on the value
/// alone, and parsing the printed bytes gives the value back as long as the
/// value stays within the parser's recursion limit.
#[verifier::external_body]
pub fn json_pretty(v: &serde_json::Value) -> (r: Vec<u8>)
    ensures
        r@ == json_pretty_of(*v),
        json_depth(*v) <= 127 ==> json_of(r@) == Some(*v),
{
    serde_json::to_vec_pretty(v).unwrap_or_default()
}

/// The compactly-printed bytes of a JSON value.
pub uninterp spec fn json_compact_of(v: serde_json::Value) -> Seq<u8>;

/// Relies on `serde_json::to_vec`: printing depends on the value alone, and
/// parsing the printed bytes gives the value back as long as the value stays
/// within the parser's recursion limit.
#[verifier::external_body]
pub fn json_compact(v: &serde_json::Value) -> (r: Vec<u8>)
    ensures
        r@ == json_compact_of(*v),
        json_depth(*v) <= 127 ==> json_of(r@) == Some(*v),
{
    serde_json::to_vec(v).unwrap_or_default()
}

/// Relies on `serde_json::Value::get`: the member of an object under a key;
/// `None` on non-objects and absent keys.
#[verifier::external_body]
pub fn json_get<'a>(v: &'a serde_json::Value, key: &str) -> (r: Option<&'a serde_json::Value>)
    ensures
        match r {
            Some(m) => {
                &&& json_obj(*v) is Some
                &&& json_obj(*v).unwrap().dom().contains(key@)
                &&& *m == json_obj(*v).unwrap()[key@]
                &&& json_depth(*m) < json_depth(*v)
            },
            None => json_obj(*v) is None || !json_obj(*v).unwrap().dom().contains(key@),
        },
{
    v.get(key)
}

/// Relies on `serde_json::Value::as_str`.
#[verifier::external_body]
pub fn json_as_str(v: &serde_json::Value) -> (r: Option<String>)
    ensures
        match r {
            Some(s) => json_str_of(*v) == Some(s@),
            None => json_str_of(*v) is None,
        },
{
    v.as_str().map(|s| s.to_string())
}

/// Relies on `serde_json::Value::as_u64`.
#[verifier::external_body]
pub fn json_as_u64(v: &serde_json::Value) -> (r: Option<u64>)
    ensures
        r == json_u64_of(*v),
{
    v.as_u64()
}

/// Relies on `serde_json::Value::as_i64`.
#[verifier::external_body]
pub fn json_as_i64(v: &serde_json::Value) -> (r: Option<i64>)
    ensures
        r == json_i64_of(*v),
{
    v.as_i64()
}

/// Relies on `serde_json::Value::as_array`; the items are cloned out.
#[verifier::external_body]
pub fn json_items(v: &serde_json::Value) -> (r: Option<Vec<serde_json::Value>>)
    ensures
        match r {
            Some(items) => json_arr(*v) == Some(items@) && json_depth(*v) >= 1 && (forall|i: int|
                0 <= i < items@.len() ==> json_depth(#[trigger] items@[i]) < json_depth(*v)),
            None => json_arr(*v) is None,
        },
{
    v.as_array().cloned()
}

/// Relies on `serde_json::Value::as_object`; entries come out in iteration
/// order with their keys, which are unique.
#[verifier::external_body]
pub fn json_entries(v: &serde_json::Value) -> (r: Option<Vec<(String, serde_json::Value)>>)
    ensures
        match r {
            Some(es) => {
                &&& json_obj(*v) == Some(entries_map(es@))
                &&& distinct_keys(es@)
                &&& json_depth(*v) >= 1
                &&& forall|i: int|
                    0 <= i < es@.len() ==> json_depth((#[trigger] es@[i]).1) < json_depth(*v)
            },
            None => json_obj(*v) is None,
        },
{
    v.as_object().map(|m| m.iter().map(|(k, val)| (k.clone(), val.clone())).collect())
}

/// Relies on `serde_json::Map::from_iter`: builds an object from entries, a
/// later duplicate key overwriting an earlier one.
#[verifier::external_body]
pub fn json_object(entries: Vec<(String, serde_json::Value)>) -> (r: serde_json::Value)
    ensures
        json_obj(r) == Some(entries_map(entries@)),
        json_arr(r) is None,
        json_str_of(r) is None,
        json_u64_of(r) is None,
        json_i64_of(r) is None,
        forall|d: nat| #[trigger] entries_depth_le(entries@, d) ==> json_depth(r) <= d + 1,
{
    serde_json::Value::Object(entries.into_iter().collect())
}

/// Relies on `serde_json::Value::Array`.
#[verifier::external_body]
pub fn json_array(items: Vec<serde_json::Value>) -> (r: serde_json::Value)
    ensures
        json_arr(r) == Some(items@),
        json_obj(r) is None,
        json_str_of(r) is None,
        json_u64_of(r) is None,
        json_i64_of(r) is None,
        forall|d: nat| #[trigger] items_depth_le(items@, d) ==> json_depth(r) <= d + 1,
{
    serde_json::Value::Array(items)
}

/// Relies on `serde_json::Value::String`.
#[verifier::external_body]
pub fn json_string(s: &str) -> (r: serde_json::Value)
    ensures
        json_str_of(r) == Some(s@),
        json_obj(r) is None,
        json_arr(r) is None,
        json_u64_of(r) is None,
        json_i64_of(r) is None,
        json_depth(r) == 0,
{
    serde_json::Value::String(s.to_string())
}

/// Relies on `serde_json::Number::from` for signed integers.
#[verifier::external_body]
pub fn json_i64(n: i64) -> (r: serde_json::Value)
    ensures
        json_i64_of(r) == Some(n),
        json_u64_of(r) == if n >= 0 {
            Some(n as u64)
        } else {
            None::<u64>
        },
        json_obj(r) is None,
        json_arr(r) is None,
        json_str_of(r) is None,
        json_depth(r) == 0,
{
    serde_json::Value::Number(serde_json::Number::from(n))
}

/// Relies on `serde_json::Value::clone`: the clone is the same value.
#[verifier::external_body]
pub fn json_clone(v: &serde_json::Value) -> (r: serde_json::Value)
    ensures
        r == *v,
{
    v.clone()
}

} // verus!
