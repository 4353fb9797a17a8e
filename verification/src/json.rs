//! The JSON text of an answer, which serde_json writes.

use vstd::prelude::*;

verus! {

/// The error of serde_json, carried through unopened.
#[verifier::external_type_specification]
#[verifier::external_body]
pub struct ExJsonError(serde_json::Error);

/// What `serde_json::to_string` makes of the JSON object with the one
/// member `key`, whose value is the string `value`.
pub uninterp spec fn json_object_text(key: Seq<char>, value: Seq<char>) -> Seq<char>;

/// Builds the JSON object with the one member `key: value` and calls
/// `serde_json::to_string` on it. The text depends on the two strings
/// alone and is given the name `json_object_text`. The call succeeds:
/// serde_json fails on a key that is no string or on a writer that fails,
/// and here the key is a string and the text is written into memory. No
/// more is claimed of the text.
#[verifier::external_body]
pub(crate) fn write_json_object(key: &str, value: &str) -> (written: Result<
    String,
    serde_json::Error,
>)
    ensures
        match written {
            Ok(text) => text@ == json_object_text(key@, value@),
            Err(_) => false,
        },
{
    let mut object = serde_json::Map::new();
    object.insert(key.to_string(), serde_json::Value::String(value.to_string()));
    serde_json::to_string(&serde_json::Value::Object(object))
}

} // verus!
