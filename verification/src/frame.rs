use crate::codec::{TssDeserialize, TssError, TssSerialize};
use crate::primitives::ResponseHeader;
use crate::reader::TssReader;
use crate::wire::u32_be_bytes;
use vstd::prelude::*;

verus! {

// The outer framing that a TPM simulator speaks on its command channel,
// and the fixed opcodes of its platform control channel. The I/O itself
// lives outside the verified core; the byte layouts are defined and
// checked here.

/// Control-channel opcode: deliver one TPM command at a locality.
pub const TPM_SEND_COMMAND: u32 = 0x00000008;

/// Platform-channel opcode: power the simulated TPM on.
pub const POWER_ON: u32 = 0x00000001;

/// Platform-channel opcode: power the simulated TPM off.
pub const POWER_OFF: u32 = 0x00000002;

/// Platform-channel opcode: switch simulated NV storage on.
pub const NV_ON: u32 = 0x0000000B;

/// The outer simulator frame around one TPM command: the 4-byte
/// send-command opcode, one locality byte fixed at 0, the 4-byte
/// big-endian payload length, then the payload.
pub open spec fn spec_outer_frame(command: Seq<u8>) -> Seq<u8> {
    u32_be_bytes(TPM_SEND_COMMAND) + seq![0u8] + u32_be_bytes(command.len() as u32) + command
}

/// Wrap one encoded TPM command in the simulator's outer frame.
pub fn frame_command(command: &[u8]) -> (r: Vec<u8>)
    requires
        command@.len() <= u32::MAX,
    ensures
        r@ == spec_outer_frame(command@),
{
    let mut buffer = TPM_SEND_COMMAND.to_tss_bytes();
    buffer.push(0);
    let len: u32 = command.len() as u32;
    let mut len_bytes = len.to_tss_bytes();
    buffer.append(&mut len_bytes);
    let mut payload = vstd::slice::slice_to_vec(command);
    buffer.append(&mut payload);
    proof {
        assert(buffer@ =~= spec_outer_frame(command@));
    }
    buffer
}

/// Split one raw response frame into its header and body: the first 10
/// bytes decode as the response header, the rest is the body. A frame
/// shorter than a header fails with `InsufficientData`; a non-zero
/// response code is a hard failure for the round trip.
pub fn parse_response(frame: &[u8]) -> (r: Result<(ResponseHeader, Vec<u8>), TssError>)
    ensures
        match ResponseHeader::spec_deser(frame@) {
            Ok((h, n)) => if h.response_code != 0 {
                r matches Err(e) && e == TssError::ProtocolFailure(h.response_code)
            } else {
                r matches Ok(p) && p.0 == h && p.1@ == frame@.skip(10)
            },
            Err((e, n)) => r matches Err(re) && re == e,
        },
{
    let mut reader = TssReader::new(frame);
    let header = match ResponseHeader::from_tss_reader(&mut reader) {
        Ok(h) => h,
        Err(e) => {
            return Err(e);
        },
    };
    if header.response_code != 0 {
        return Err(TssError::ProtocolFailure(header.response_code));
    }
    let body = reader.peek_remaining();
    let body_vec = vstd::slice::slice_to_vec(body);
    Ok((header, body_vec))
}

} // verus!
