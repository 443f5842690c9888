//! A verified codec and client for the TPM (Trusted Platform Module) wire
//! protocol: schema-driven big-endian binary encoding and decoding of command
//! and response records, command framing, and polymorphic capability-response
//! parsing over an abstract transport.

pub mod capabilities;
pub mod client;
pub mod codec;
pub mod commands;
pub mod frame;
pub mod identity;
pub mod primitives;
pub mod properties;
pub mod reader;
pub mod startup_type;
pub mod tags;
pub mod tcb_info;
pub mod wire;

pub use client::{build_command, decode_response, Transport, TssClient};
pub use codec::{TssCodec, TssDeserialize, TssError, TssSerialize};
pub use primitives::{
    Capabilities, CapabilitiesResponse, CommandHeader, Empty, GetCapabilityCommand, RawResponse,
    ReadPcrCommand, ResponseHeader, StartupCommand, TaggedProperty,
};
pub use reader::TssReader;
