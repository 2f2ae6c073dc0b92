//! Watched data files are JSON documents; a file that cannot be read or
//! parsed counts as the empty document, so a bad edit never stops a tick.
use vstd::prelude::*;

verus! {

#[verifier::external_type_specification]
#[verifier::external_body]
pub struct ExValue(serde_json::Value);

/// Whether serde_json reads a text as one JSON value: well-formed, with
/// nothing but whitespace after it, and nested no deeper than its limit.
pub uninterp spec fn json_parses(text: Seq<char>) -> bool;

/// Relies on `serde_json::from_str` into a `Value`: whether it succeeds
/// depends on the text alone.
#[verifier::external_body]
fn parse_json(text: &str) -> (r: Option<serde_json::Value>)
    ensures
        r is Some == json_parses(text@),
{
    serde_json::from_str::<serde_json::Value>(text).ok()
}

/// The content of a watched data file as a script receives it.
pub enum DataDocument {
    Parsed(serde_json::Value),
    Empty,
}

/// The document for a data file, given its text, or `None` when it could not
/// be read.
pub fn load_data_document(text: Option<&str>) -> (r: DataDocument)
    ensures
        match text {
            Some(t) => r is Parsed == json_parses(t@),
            None => r is Empty,
        },
{
    match text {
        Some(t) => match parse_json(t) {
            Some(v) => DataDocument::Parsed(v),
            None => DataDocument::Empty,
        },
        None => DataDocument::Empty,
    }
}

} // verus!
