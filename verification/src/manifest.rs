//! The circuit manifest: a JSON document that holds the circuit's bytecode as
//! a string under the key `bytecode`. The bytecode itself is the backend's to
//! read; here it is carried, never looked into.

use vstd::prelude::*;

use crate::error::MoproError;

verus! {

/// The string that the JSON document `text` holds under `key`: `Some` where
/// `text` parses as one JSON value, that value is an object, and its member
/// `key` is a string; `None` for every other text.
pub uninterp spec fn json_string_member(text: Seq<char>, key: Seq<char>) -> Option<Seq<char>>;

/// Reads a string member of a JSON document with `serde_json`: the text is
/// parsed by `serde_json::from_str` into a `serde_json::Value`, the value is
/// indexed by `key`, and the member is read by `Value::as_str`.
///
/// Trusted: that the outcome depends on the two texts alone, which is what
/// `json_string_member` names. Parsing fails with an error, which becomes
/// `None` here; indexing a value that is no object, or by a key that it lacks,
/// gives JSON `null`, of which `as_str` makes `None`.
#[verifier::external_body]
fn string_member(text: &str, key: &str) -> (member: Option<String>)
    ensures
        match member {
            Some(found) => json_string_member(text@, key@) == Some(found@),
            None => json_string_member(text@, key@) is None,
        },
{
    match serde_json::from_str::<serde_json::Value>(text) {
        Ok(document) => document[key].as_str().map(String::from),
        Err(_) => None,
    }
}

/// The bytecode that a manifest holds, if it holds any.
pub open spec fn manifest_bytecode(manifest: Seq<char>) -> Option<Seq<char>> {
    json_string_member(manifest, "bytecode"@)
}

/// The bytecode that was found in a manifest, or the error that says that
/// none was.
pub fn bytecode_or_error(member: Option<String>) -> (result: Result<String, MoproError>)
    ensures
        match member {
            Some(bytecode) => result == Ok::<String, MoproError>(bytecode),
            None => result == Err::<String, MoproError>(MoproError::ManifestError),
        },
{
    match member {
        Some(bytecode) => Ok(bytecode),
        None => Err(MoproError::ManifestError),
    }
}

/// Extracts the circuit's bytecode from the text of its manifest.
///
/// Fails with `ManifestError` where the text is not JSON, is no JSON object,
/// or holds no string under `bytecode`. The bytecode is returned as the
/// manifest gives it: its encoding is the backend's affair.
pub fn circuit_bytecode(manifest: &str) -> (result: Result<String, MoproError>)
    ensures
        match result {
            Ok(bytecode) => manifest_bytecode(manifest@) == Some(bytecode@),
            Err(error) => manifest_bytecode(manifest@) is None && error
                == MoproError::ManifestError,
        },
{
    bytecode_or_error(string_member(manifest, "bytecode"))
}

} // verus!
