//! Bindings-side logic of a mobile prover for Noir circuits: the layout of a
//! combined proof and the count of a circuit's public inputs.

use vstd::prelude::*;

pub mod codec;
pub mod counter;
pub mod error;
pub mod laws;
pub mod manifest;

pub use codec::{combine_proof_and_public_inputs, parse_proof_with_public_inputs, ProofWithPublicInputs};
pub use error::MoproError;

verus! {

/// The greeting by which a binding shows that it reaches this library.
pub fn mopro_hello_world() -> (greeting: String)
    ensures
        greeting@ == "Hello, World!"@,
{
    "Hello, World!".to_string()
}

} // verus!
