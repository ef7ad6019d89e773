//! JSON values, which `serde_json` holds and writes.

use vstd::prelude::*;

verus! {

/// `serde_json::Value`: a JSON document. What it holds is seen here only
/// through [`json_text`].
#[verifier::external_type_specification]
#[verifier::external_body]
pub struct ExValue(serde_json::Value);

/// The characters of the compact JSON text that a value stands for.
pub uninterp spec fn json_text(value: serde_json::Value) -> Seq<char>;

/// `serde_json::Value::clone` gives a value with the same JSON text.
pub assume_specification[ <serde_json::Value as Clone>::clone ](value: &serde_json::Value) -> (copy:
    serde_json::Value)
    ensures
        json_text(copy) == json_text(*value),
;

/// Calls `to_string` on a `serde_json::Value`: the compact JSON text of the
/// value, with nothing said of how that text looks.
#[verifier::external_body]
pub(crate) fn json_to_string(value: &serde_json::Value) -> (text: String)
    ensures
        text@ == json_text(*value),
{
    value.to_string()
}

} // verus!
