//! Parent id lists as JSON text, the form in which the cache stores them.

use vstd::prelude::*;
use crate::model::strings_view;

verus! {

/// The JSON text that `serde_json::to_string` writes for a list of strings.
pub uninterp spec fn json_of_strings(items: Seq<Seq<char>>) -> Seq<char>;

/// The list of strings that `serde_json::from_str` reads from a text, or
/// `None` where it rejects the text.
pub uninterp spec fn strings_of_json(text: Seq<char>) -> Option<Seq<Seq<char>>>;

/// Writes a list of strings as JSON with `serde_json::to_string`. The call
/// succeeds, and the text is the one that `json_of_strings` names. It can
/// fail only where the value's way of writing itself fails or the value
/// holds a map whose keys are no strings; a list of strings does neither.
#[verifier::external_body]
pub(crate) fn encode_strings(items: &Vec<String>) -> (r: Result<String, serde_json::Error>)
    ensures
        r is Ok,
        r matches Ok(text) ==> text@ == json_of_strings(strings_view(items@)),
{
    serde_json::to_string(items)
}

/// Reads a list of strings from JSON with `serde_json::from_str`. The call
/// succeeds exactly on the texts for which `strings_of_json` names a list,
/// and returns that list.
#[verifier::external_body]
pub(crate) fn decode_strings(text: &str) -> (r: Result<Vec<String>, serde_json::Error>)
    ensures
        match r {
            Ok(items) => strings_of_json(text@) == Some(strings_view(items@)),
            Err(_) => strings_of_json(text@) is None,
        },
{
    serde_json::from_str::<Vec<String>>(text)
}

} // verus!
