//! How many public-input words a circuit declares.
//!
//! The counting itself is the backend's: it reads the bytecode. What is
//! decided here is what to ask the backend, and which number a caller gets
//! for each answer. A count that cannot be determined is reported as
//! `UNKNOWN_COUNT`, never as a failure.

use vstd::prelude::*;

use crate::manifest::{circuit_bytecode, manifest_bytecode};

verus! {

/// The count reported where the manifest or the backend gives none. It is the
/// count of a circuit without public inputs as well: a caller that must tell
/// the two apart validates the manifest with `circuit_bytecode` first.
pub const UNKNOWN_COUNT: u32 = 0;

/// What remains to be done for a count once the manifest has been read.
#[derive(Debug, PartialEq, Eq)]
pub enum CountStep {
    /// Ask the backend how many public inputs this bytecode declares, and
    /// hand its answer to `finish_count`.
    AskBackend(String),
    /// The count is settled without the backend.
    Done(u32),
}

/// The count that a backend's answer stands for: the number it reported,
/// reduced to 32 bits, or `UNKNOWN_COUNT` where it reported a failure.
pub open spec fn reported_count(reported: Option<usize>) -> int {
    match reported {
        Some(size) => size as int % 0x1_0000_0000,
        None => UNKNOWN_COUNT as int,
    }
}

/// First step of a count. `manifest` is the manifest's text, or `None` where
/// it could not be read.
///
/// A manifest that was read and holds bytecode sends the caller to the
/// backend with that bytecode; anything else settles the count as
/// `UNKNOWN_COUNT`.
pub fn start_count(manifest: Option<&str>) -> (step: CountStep)
    ensures
        match step {
            CountStep::AskBackend(bytecode) => manifest matches Some(text) && manifest_bytecode(
                text@,
            ) == Some(bytecode@),
            CountStep::Done(count) => count == UNKNOWN_COUNT && (manifest matches Some(text)
                ==> manifest_bytecode(text@) is None),
        },
{
    match manifest {
        Some(text) => match circuit_bytecode(text) {
            Ok(bytecode) => CountStep::AskBackend(bytecode),
            Err(_) => CountStep::Done(UNKNOWN_COUNT),
        },
        None => CountStep::Done(UNKNOWN_COUNT),
    }
}

/// Last step of a count: the number for the backend's answer. `reported` is
/// the number of public inputs that the backend found in the bytecode, or
/// `None` where it could not read the bytecode.
pub fn finish_count(reported: Option<usize>) -> (count: u32)
    ensures
        count == reported_count(reported),
        reported is None ==> count == UNKNOWN_COUNT,
        reported matches Some(size) ==> (size <= u32::MAX ==> count == size),
{
    match reported {
        Some(size) => ((size as u64) % 0x1_0000_0000) as u32,
        None => UNKNOWN_COUNT,
    }
}

} // verus!
