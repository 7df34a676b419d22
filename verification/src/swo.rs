//! The trace-port writer: atomic byte, half-word and word output through
//! the stimulus ports of the trace block.

use vstd::prelude::*;

pub mod port;

verus! {

/// Number of stimulus ports the trace block exposes.
pub const PORTS_COUNT: u8 = 32;

} // verus!
