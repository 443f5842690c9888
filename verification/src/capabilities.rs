use vstd::prelude::*;

verus! {

// Capability classes that GetCapability can query.

/// Tagged TPM properties.
pub const TPM_PROPERTIES: u32 = 0x00000006;

/// Supported command codes.
pub const COMMANDS: u32 = 0x00000002;

/// Transient object handles.
pub const HANDLES_TRANSIENT: u32 = 0x00000001;

} // verus!
