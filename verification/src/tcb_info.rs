use vstd::prelude::*;

verus! {

// The plain-valued parts of the TCB-info attestation documents. The full
// documents (with their string fields) are data definitions consumed
// outside the verified core.

/// The status of a TCB-info TCB level.
#[derive(Debug, Clone, Copy, PartialEq, Eq)]
pub enum TcbStatus {
    OutOfDate,
    OutOfDateConfigurationNeeded,
    SWHardeningNeeded,
    ConfigurationAndSWHardeningNeeded,
}

/// The TCB data of a TCB-info TCB level: the PCE security version number.
#[derive(Debug, Clone, Copy, PartialEq, Eq)]
pub struct Tcb {
    pub pcesvn: u32,
}

} // verus!
