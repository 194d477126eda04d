//! Network definition creation flags.

use vstd::prelude::*;

verus! {

/// Requests explicit batch-dimension semantics (bit 0). This is the only
/// supported network-creation mode at this layer.
pub const EXPLICIT_BATCH: u32 = 1;

} // verus!
