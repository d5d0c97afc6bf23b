//! What can go wrong.

use vstd::prelude::*;

verus! {

/// The failures that the crate reports. An identifier that is unknown or has
/// expired is no failure: the operations say so in their ordinary results.
#[derive(Clone, Copy, Debug, PartialEq, Eq)]
pub enum Error {
    /// The random source gave no bytes.
    EntropyUnavailable,
}

} // verus!
