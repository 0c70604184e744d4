//! Looking into JSON documents.

use vstd::prelude::*;

verus! {

/// The text that a JSON document holds at a place, if the text is a JSON
/// document that holds a string there. The place is written as a JSON
/// Pointer: the names on the way, each behind a slash.
pub uninterp spec fn json_text_at(document: Seq<char>, place: Seq<char>) -> Option<Seq<char>>;

/// The text that a JSON document holds at a place.
///
/// Wraps `serde_json::from_str`, asked for a value of any shape; the place
/// is looked up in that value with `Value::pointer`, and read with
/// `Value::as_str`.
#[verifier::external_body]
pub(crate) fn json_text(document: &str, place: &str) -> (r: Option<String>)
    ensures
        match r {
            Some(text) => json_text_at(document@, place@) == Some(text@),
            None => json_text_at(document@, place@) is None,
        },
{
    let value = serde_json::from_str::<serde_json::Value>(document).ok()?;
    value.pointer(place)?.as_str().map(str::to_owned)
}

} // verus!
