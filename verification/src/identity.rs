use vstd::prelude::*;

verus! {

// The plain-valued parts of the enclave-identity attestation documents.
// The full documents (with their string and timestamp fields) are data
// definitions consumed outside the verified core.

/// The TCB (Trusted Computing Base) data of an enclave-identity TCB
/// level: the ISV security version number.
#[derive(Debug, Clone, Copy, PartialEq, Eq)]
pub struct Tcb {
    pub isvsvn: u32,
}

/// The status of an enclave-identity TCB level.
#[derive(Debug, Clone, Copy, PartialEq, Eq)]
pub enum TcbStatus {
    UpToDate,
    OutOfDate,
    Revoked,
}

} // verus!
