//! What the library takes on trust from the JSON codec.
//!
//! Each item here states, without proof, what a function of `serde_json` does.
//! The documents are carried through the verified code as opaque values and
//! read only through the functions below.

use vstd::prelude::*;

verus! {

/// A parsed JSON document of `serde_json`.
#[verifier::external_type_specification]
#[verifier::external_body]
pub struct ExValue(serde_json::Value);

/// The error that `serde_json` reports for text it cannot decode.
#[verifier::external_type_specification]
#[verifier::external_body]
pub struct ExError(serde_json::Error);

/// The document that `serde_json::from_str` reads from `text`, or `None`
/// where it reports an error.
pub uninterp spec fn json_document(text: Seq<char>) -> Option<serde_json::Value>;

/// The members of `doc` that are non-negative integers within `u64`, by key.
/// Empty where `doc` is no JSON object.
pub uninterp spec fn json_numbers(doc: serde_json::Value) -> Map<Seq<char>, u64>;

/// The members of `doc` that are strings, by key. Empty where `doc` is no
/// JSON object.
pub uninterp spec fn json_strings(doc: serde_json::Value) -> Map<Seq<char>, Seq<char>>;

/// The member `key` of `doc` as a number, where it is one.
pub open spec fn json_number(doc: serde_json::Value, key: Seq<char>) -> Option<u64> {
    if json_numbers(doc).contains_key(key) {
        Some(json_numbers(doc)[key])
    } else {
        None
    }
}

/// The member `key` of `doc` as a string, where it is one.
pub open spec fn json_string(doc: serde_json::Value, key: Seq<char>) -> Option<Seq<char>> {
    if json_strings(doc).contains_key(key) {
        Some(json_strings(doc)[key])
    } else {
        None
    }
}

/// Calls `serde_json::from_str` for a `serde_json::Value`. The result is a
/// function of the text alone: the same text always reads as the same
/// document, or always fails.
#[verifier::external_body]
pub(crate) fn parse_document(text: &str) -> (res: Result<serde_json::Value, serde_json::Error>)
    ensures
        match res {
            Ok(doc) => json_document(text@) == Some(doc),
            Err(_) => json_document(text@) is None,
        },
{
    serde_json::from_str::<serde_json::Value>(text)
}

/// Indexes `doc` by `key` and calls `Value::as_u64` on what is found. Indexing
/// a document by a key that it lacks, or one that is no object, gives JSON
/// `null`, of which `as_u64` returns `None`.
#[verifier::external_body]
pub(crate) fn member_u64(doc: &serde_json::Value, key: &str) -> (res: Option<u64>)
    ensures
        res == (if json_numbers(*doc).contains_key(key@) {
            Some(json_numbers(*doc)[key@])
        } else {
            None
        }),
{
    doc[key].as_u64()
}

/// Indexes `doc` by `key` and calls `Value::as_str` on what is found, copying
/// the string out.
#[verifier::external_body]
pub(crate) fn member_str(doc: &serde_json::Value, key: &str) -> (res: Option<String>)
    ensures
        match res {
            Some(s) => json_strings(*doc).contains_key(key@) && json_strings(*doc)[key@] == s@,
            None => !json_strings(*doc).contains_key(key@),
        },
{
    doc[key].as_str().map(|s| s.to_string())
}

/// The list of identifiers that `serde_json::from_str` reads from `text` for
/// a `Vec<u64>`, or `None` where it reports an error.
pub uninterp spec fn json_id_list(text: Seq<char>) -> Option<Seq<u64>>;

/// Calls `serde_json::from_str` for a `Vec<u64>`. The result is a function of
/// the text alone.
#[verifier::external_body]
pub(crate) fn parse_id_list(text: &str) -> (res: Result<Vec<u64>, serde_json::Error>)
    ensures
        match res {
            Ok(ids) => json_id_list(text@) == Some(ids@),
            Err(_) => json_id_list(text@) is None,
        },
{
    serde_json::from_str::<Vec<u64>>(text)
}

} // verus!
