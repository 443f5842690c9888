use vstd::prelude::*;

verus! {

// Structure tags of TPM commands and responses.

pub const NULL: u16 = 0x8000;

/// An unauthenticated command or response.
pub const NO_SESSIONS: u16 = 0x8001;

/// An authenticated command or response.
pub const SESSIONS: u16 = 0x8002;

pub const ATTES_CERTIFY: u16 = 0x8017;

pub const ATTES_QUOTE: u16 = 0x8018;

pub const ATTES_CREATION: u16 = 0x801a;

pub const AUTH_SECRET: u16 = 0x8023;

pub const HASH_CHECK: u16 = 0x8024;

} // verus!
