//! JSON payloads read and written through serde_json: integers, lists of strings and
//! sets of byte strings.
use vstd::prelude::*;
use crate::text::strs_view;
use crate::crypto::byte_strings;

verus! {

/// The integer a JSON payload holds, if it is one that fits in 64 bits.
pub uninterp spec fn json_i64(bytes: Seq<u8>) -> Option<i64>;

/// The integer held by the JSON payload `bytes`.
///
/// Calls `serde_json::from_slice::<i64>`; the outcome depends on the bytes alone. Which
/// payloads parse is not written out here.
#[verifier::external_body]
pub(crate) fn decode_json_i64(bytes: &[u8]) -> (r: Option<i64>)
    ensures
        r == json_i64(bytes@),
{
    serde_json::from_slice::<i64>(bytes).ok()
}

/// The strings a JSON payload holds, if it is an array of strings.
pub uninterp spec fn json_strings(bytes: Seq<u8>) -> Option<Seq<Seq<char>>>;

/// The strings held by the JSON payload `bytes`.
///
/// Calls `serde_json::from_slice::<Vec<String>>`; the outcome depends on the bytes alone.
#[verifier::external_body]
pub(crate) fn decode_json_strings(bytes: &[u8]) -> (r: Option<Vec<String>>)
    ensures
        match r {
            Some(v) => json_strings(bytes@) == Some(strs_view(v@)),
            None => json_strings(bytes@) is None,
        },
{
    serde_json::from_slice::<Vec<String>>(bytes).ok()
}

/// The JSON text of an array of strings, as serde_json writes it compactly.
pub uninterp spec fn json_string_array(items: Seq<Seq<char>>) -> Seq<u8>;

/// The compact JSON array of `items`.
///
/// Calls `serde_json::to_vec` on the list, which cannot fail for strings; the bytes
/// depend on the strings alone.
#[verifier::external_body]
pub(crate) fn encode_json_strings(items: &Vec<String>) -> (r: Vec<u8>)
    ensures
        r@ == json_string_array(strs_view(items@)),
{
    serde_json::to_vec(items).unwrap_or_default()
}


/// The views of named lists of byte strings.
pub open spec fn entry_views(v: Seq<(String, Vec<Vec<u8>>)>) -> Seq<(Seq<char>, Seq<Seq<u8>>)> {
    v.map_values(|e: (String, Vec<Vec<u8>>)| (e.0@, byte_strings(e.1@)))
}

/// The entries of a JSON object mapping names to arrays of byte arrays, if the payload
/// is one, in ascending order of name.
pub uninterp spec fn json_byte_set_object(bytes: Seq<u8>) -> Option<Seq<(Seq<char>, Seq<Seq<u8>>)>>;

/// The entries of the JSON object `bytes`, each a name and a list of byte strings.
///
/// Calls `serde_json::from_slice::<BTreeMap<String, Vec<Vec<u8>>>>` and lists the map's
/// entries; the outcome depends on the bytes alone.
#[verifier::external_body]
pub(crate) fn decode_json_byte_set_object(bytes: &[u8]) -> (r: Option<Vec<(String, Vec<Vec<u8>>)>>)
    ensures
        match r {
            Some(v) => json_byte_set_object(bytes@) == Some(entry_views(v@)),
            None => json_byte_set_object(bytes@) is None,
        },
{
    match serde_json::from_slice::<std::collections::BTreeMap<String, Vec<Vec<u8>>>>(bytes) {
        Ok(m) => Some(m.into_iter().collect()),
        Err(_) => None,
    }
}

/// The compact JSON text of an object with the single member `name`, an array of byte
/// arrays.
pub uninterp spec fn json_byte_set_member(name: Seq<char>, items: Seq<Seq<u8>>) -> Seq<u8>;

/// The compact JSON object with the single member `name` holding `items`.
///
/// Calls `serde_json::to_vec` on a one-entry `BTreeMap`, which cannot fail for string
/// keys; the bytes depend on the name and the items alone.
#[verifier::external_body]
pub(crate) fn encode_json_byte_set_member(name: &str, items: &Vec<Vec<u8>>) -> (r: Vec<u8>)
    ensures
        r@ == json_byte_set_member(name@, byte_strings(items@)),
{
    let m = std::collections::BTreeMap::from([(name.to_string(), items.clone())]);
    serde_json::to_vec(&m).unwrap_or_default()
}

} // verus!
