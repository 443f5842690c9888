use vstd::prelude::*;

verus! {

// Property tags of tagged TPM properties.

pub const FAMILY_INDICATOR: u32 = 0x00000100;

pub const LEVEL: u32 = 0x00000101;

pub const REVISION: u32 = 0x00000102;

pub const MANUFACTURER: u32 = 0x00000105;

} // verus!
