//! Reading JSON text, done by `serde_json`.

use crate::inputs::{entries_view, strings_view, InputShape, InputValue};
use vstd::prelude::*;

verus! {

/// The members of the JSON object that `text` holds, as `serde_json` reads
/// them: each name with the shape of its value. `None` where `text` is not a
/// JSON object.
pub uninterp spec fn json_input_entries(text: Seq<char>) -> Option<Seq<(Seq<char>, InputShape)>>;

/// The items of the JSON array of strings that `text` holds, as `serde_json`
/// reads them. `None` where `text` is no such array.
pub uninterp spec fn json_strings(text: Seq<char>) -> Option<Seq<Seq<char>>>;

/// Parses `text` with `serde_json::from_str` as a `serde_json::Map` and hands
/// out its members in the map's order. A number becomes its text, as
/// `Number`'s `Display` writes it, and an array the text of each item of
/// which `Value::as_number` says that it is a number. The contract only
/// names the outcome.
#[verifier::external_body]
pub(crate) fn parse_input_entries(text: &str) -> (r: Option<Vec<(String, InputValue)>>)
    ensures
        (match r {
            Some(v) => Some(entries_view(v@)),
            None => None,
        }) == json_input_entries(text@),
{
    let m: serde_json::Map<String, serde_json::Value> = serde_json::from_str(text).ok()?;
    Some(m.into_iter().map(|(k, v)| (k, match v {
        serde_json::Value::Number(n) => InputValue::Number(n.to_string()),
        serde_json::Value::Array(a) => InputValue::Array(
            a.iter().map(|x| x.as_number().map(|n| n.to_string())).collect()),
        _ => InputValue::Other,
    })).collect())
}

/// Parses `text` with `serde_json::from_str` as a `Vec<String>`. The
/// contract only names the outcome.
#[verifier::external_body]
pub(crate) fn parse_strings(text: &str) -> (r: Option<Vec<String>>)
    ensures
        (match r {
            Some(v) => Some(strings_view(v@)),
            None => None,
        }) == json_strings(text@),
{
    serde_json::from_str::<Vec<String>>(text).ok()
}

} // verus!
