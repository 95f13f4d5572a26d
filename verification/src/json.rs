//! Decoding the JSON objects of strings that list items are stored as.
use vstd::prelude::*;
use crate::strmap::{pairs_to_map, StrMap};

verus! {

/// The entries of the JSON object of strings that `text` holds, as
/// `serde_json::from_str` reads it into a `BTreeMap<String, String>`;
/// `None` where it rejects the text.
pub uninterp spec fn json_string_map(text: Seq<char>) -> Option<Seq<(Seq<char>, Seq<char>)>>;

/// Reads `text` with `serde_json::from_str` as a map from strings to
/// strings and returns its entries. The contract claims only that the
/// result is a function of the text; which texts are accepted and what
/// entries they give is left to `serde_json`.
#[verifier::external_body]
fn json_string_entries(text: &str) -> (r: Option<Vec<(String, String)>>)
    ensures
        match r {
            Some(v) => json_string_map(text@) == Some(v.deep_view()),
            None => json_string_map(text@) is None,
        },
{
    serde_json::from_str::<std::collections::BTreeMap<String, String>>(text).ok().map(
        |m| m.into_iter().collect(),
    )
}

/// The map that a stored JSON object of strings describes.
pub open spec fn decoded_map(text: Seq<char>) -> Option<Map<Seq<char>, Seq<char>>> {
    match json_string_map(text) {
        Some(pairs) => Some(pairs_to_map(pairs)),
        None => None,
    }
}

/// Decodes a stored JSON object of strings.
pub fn decode_string_map(text: &str) -> (r: Option<StrMap>)
    ensures
        match r {
            Some(m) => decoded_map(text@) == Some(m@),
            None => decoded_map(text@) is None,
        },
{
    match json_string_entries(text) {
        Some(v) => Some(StrMap::from_pairs(v)),
        None => None,
    }
}

/// Writes the entries of `m` as a JSON object of strings with
/// `serde_json::to_string` (of a `BTreeMap<String, String>`). The contract
/// claims only the round trip that serde_json's reader and writer keep for
/// maps of strings: reading the text back gives the same map.
#[verifier::external_body]
fn json_object_text(m: &StrMap) -> (r: String)
    ensures
        decoded_map(r@) == Some(m@),
{
    let map: std::collections::BTreeMap<String, String> = m.entries().iter().cloned().collect();
    serde_json::to_string(&map).unwrap_or_default()
}

/// Encodes a map of strings as the JSON object text it is stored as.
pub fn encode_string_map(m: &StrMap) -> (r: String)
    ensures
        decoded_map(r@) == Some(m@),
{
    json_object_text(m)
}

} // verus!
