use vstd::prelude::*;

verus! {

/// Why an operation of this library, or of the proving backend behind it, failed.
#[derive(Debug, PartialEq, Eq)]
pub enum MoproError {
    /// A combined proof is shorter than the public-input words it is said to end with.
    MalformedProof,
    /// A public-input word is not exactly one word wide.
    MalformedPublicInput,
    /// The proving backend reported a failure; the text is the backend's own.
    BackendFailure(String),
    /// A circuit manifest is not a JSON document that holds a string under `bytecode`.
    ManifestError,
}

} // verus!
