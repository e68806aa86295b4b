//! Fixed settings of a session.

use vstd::prelude::*;

verus! {

/// Longest wait for input before the next tick, in milliseconds.
pub const INTERVAL_MS: u64 = 500;

/// Distance of one seek step, in milliseconds.
pub const SEEK_MS: u64 = 5000;

/// Length of the near-silent segment queued behind every track, in milliseconds.
pub const SILENCE_PADDING_MS: u64 = 5000;

/// The number of entries that is one too many for a catalog.
pub const CATALOG_LIMIT: usize = 4096;

} // verus!
