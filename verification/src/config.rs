//! The constants that shape the store. They are fixed when the crate is built.

use vstd::prelude::*;

verus! {

/// Number of characters in every identifier that the crate hands out.
pub const ID_LENGTH: usize = 5;

/// Most entries the store holds once an insertion has completed.
pub const MAX_ENTRIES: usize = 10_000;

/// Lifetime of an entry in milliseconds, counted from its creation.
pub const TTL_MILLIS: u64 = 300_000;

/// Milliseconds between two sweeps of the store.
pub const SWEEP_INTERVAL_MILLIS: u64 = 30_000;

} // verus!
