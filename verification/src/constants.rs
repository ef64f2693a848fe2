//! Configuration values for the default backing store and fresh buffers.

use vstd::prelude::*;

verus! {

/// Spool threshold of the default backing store: bytes are kept in memory up
/// to this size and spill to secondary storage beyond it.
pub const MAX_SIZE: usize = 5 * 1024 * 1024;

/// The byte a read buffer is pre-filled with before the store overwrites it.
pub const ZERO_BYTE: u8 = 0;

/// Where the cursor of every fresh buffer starts.
pub const START_INDEX: usize = 0;

} // verus!
