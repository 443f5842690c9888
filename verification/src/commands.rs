use vstd::prelude::*;

verus! {

// Command codes of the TPM commands the client issues.

/// TPM2_Startup.
pub const STARTUP: u32 = 0x00000144;

/// TPM2_GetCapability.
pub const GET_CAPABILITY: u32 = 0x0000017A;

/// TPM2_PCR_Read.
pub const READ_PCR: u32 = 0x0000017E;

} // verus!
