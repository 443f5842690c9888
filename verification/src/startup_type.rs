use vstd::prelude::*;

verus! {

// Startup types of the Startup command.

/// Start with cleared state.
pub const CLEAR: u16 = 0;

/// Resume saved state.
pub const STATE: u16 = 1;

} // verus!
