use crate::codec::{TssDeserialize, TssError, TssSerialize};
use crate::commands;
use crate::primitives::{
    CapabilitiesResponse, CommandHeader, Empty, GetCapabilityCommand, RawResponse, ReadPcrCommand,
    ResponseHeader, StartupCommand,
};
use crate::tags;
use vstd::prelude::*;

verus! {

/// Abstraction over the byte-stream transport that carries one encoded
/// command to the TPM and hands back the decoded response header together
/// with the raw response body.
///
/// Implementations are expected to surface a non-zero response code as an
/// error of their own; the client nevertheless re-checks the code before
/// decoding any body, so a misbehaving transport cannot make it interpret
/// a failed response.
pub trait Transport {
    /// Send one encoded command and receive the response header and body.
    fn send_command(&mut self, command: &[u8]) -> Result<(ResponseHeader, Vec<u8>), TssError>;
}

/// The full wire bytes of a command: the fixed header for `code` (whose
/// length field counts the 10 header bytes plus the body), then the body.
pub open spec fn spec_command_bytes(code: u32, body: Seq<u8>) -> Seq<u8> {
    CommandHeader {
        tag: tags::NO_SESSIONS,
        length: (10 + body.len()) as u32,
        command_code: code,
    }.spec_ser() + body
}

/// Build the full wire bytes of one command: the fixed header — tag
/// `NO_SESSIONS`, length equal to the 10 header bytes plus the body
/// length, the command code — followed by the encoded body. These are
/// exactly the bytes the client hands to its transport.
pub fn build_command<B: TssSerialize>(command_code: u32, command_body: &B) -> (r: Vec<u8>)
    requires
        command_body.wf_ser(),
        command_body.spec_ser().len() + 10 <= u32::MAX,
    ensures
        r@ == spec_command_bytes(command_code, command_body.spec_ser()),
{
    let body = command_body.to_tss_bytes();
    let header = CommandHeader {
        tag: tags::NO_SESSIONS,
        command_code,
        length: 10 + body.len() as u32,
    };
    let mut buffer = header.to_tss_bytes();
    let mut body_tail = body;
    buffer.append(&mut body_tail);
    proof {
        assert(buffer@ =~= spec_command_bytes(command_code, command_body.spec_ser()));
    }
    buffer
}

/// Validate a response header and decode the typed response body.
///
/// A non-zero response code is a protocol failure: it is returned as
/// `ProtocolFailure` carrying the code, and the body is not decoded at
/// all. On a zero code the body decodes by `TS`'s wire rules.
pub fn decode_response<TS: TssDeserialize>(header: &ResponseHeader, body: &[u8]) -> (r: Result<
    TS,
    TssError,
>)
    ensures
        header.response_code != 0 ==> (r matches Err(e) && e == TssError::ProtocolFailure(
            header.response_code,
        )),
        header.response_code == 0 ==> (match TS::spec_deser(body@) {
            Ok((v, n)) => r matches Ok(rv) && rv.model() == v,
            Err((e, n)) => r matches Err(re) && re == e,
        }),
{
    if header.response_code != 0 {
        return Err(TssError::ProtocolFailure(header.response_code));
    }
    TS::from_tss_bytes(body)
}

/// A client for issuing unauthenticated TPM commands over some transport:
/// it frames command bodies under a fixed header, performs exactly one
/// request/response round trip per call, and decodes the typed response.
pub struct TssClient<T> {
    transport: T,
}

impl<T> TssClient<T> where T: Transport {
    /// A client over the given transport.
    pub fn new(transport: T) -> Self {
        Self { transport }
    }

    /// Issue a Startup command of the given startup type, expecting an
    /// empty response body: the command sent is
    /// `build_command(STARTUP, StartupCommand { startup_type })`, and
    /// success means some returned body decoded as `Empty`.
    pub fn startup(&mut self, startup_type: u16) -> (r: Result<(), TssError>)
        ensures
            r matches Ok(u) ==> exists|s: Seq<u8>| #[trigger] Empty::spec_deser(s) is Ok,
    {
        let command = StartupCommand { startup_type };
        match self.run_command::<Empty, StartupCommand>(commands::STARTUP, command) {
            Ok(_) => Ok(()),
            Err(e) => Err(e),
        }
    }

    /// Issue a GetCapability command and decode the polymorphic
    /// capabilities response. The command sent is
    /// `build_command(GET_CAPABILITY, GetCapabilityCommand { capability,
    /// property, property_count })`.
    pub fn get_capabilities(
        &mut self,
        capability: u32,
        property: u32,
        property_count: u32,
    ) -> (r: Result<CapabilitiesResponse, TssError>)
        ensures
            r matches Ok(rv) ==> exists|s: Seq<u8>|
                #[trigger] CapabilitiesResponse::spec_deser(s) matches Ok(p) && p.0 == rv.model(),
    {
        self.run_command::<CapabilitiesResponse, GetCapabilityCommand>(
            commands::GET_CAPABILITY,
            GetCapabilityCommand { capability, property, property_count },
        )
    }

    /// Issue a PCR_Read command: the command sent is
    /// `build_command(READ_PCR, input)`. An index outside the selection
    /// mask's 24-slot range is rejected with `RangeError` before anything
    /// is sent.
    pub fn read_pcr(&mut self, input: ReadPcrCommand) -> (r: Result<RawResponse, TssError>)
        ensures
            (exists|j: int| 0 <= j < input.pcr_index@.len() && input.pcr_index@[j] >= 24) ==> (
            r matches Err(e) && e matches TssError::RangeError(i) && i >= 24
                && input.pcr_index@.contains(i)),
            r matches Ok(raw) ==> exists|s: Seq<u8>|
                #[trigger] RawResponse::spec_deser(s) matches Ok(p) && p.0 == raw.model(),
    {
        match input.first_out_of_range() {
            Some(i) => Err(TssError::RangeError(i)),
            None => self.run_command::<RawResponse, ReadPcrCommand>(commands::READ_PCR, input),
        }
    }

    /// Send `build_command(command_code, command_body)` — the header with
    /// length 10 + body length, then the body — through the transport,
    /// and decode the typed response with `decode_response`: a non-zero
    /// response code is returned as `ProtocolFailure` without decoding
    /// the body. Exactly one round trip; no retries.
    pub fn run_command<TS: TssDeserialize, B: TssSerialize>(
        &mut self,
        command_code: u32,
        command_body: B,
    ) -> (r: Result<TS, TssError>)
        requires
            command_body.wf_ser(),
            command_body.spec_ser().len() + 10 <= u32::MAX,
        ensures
            r matches Ok(rv) ==> exists|s: Seq<u8>|
                #[trigger] TS::spec_deser(s) matches Ok(p) && p.0 == rv.model(),
    {
        let input = build_command(command_code, &command_body);
        match self.transport.send_command(input.as_slice()) {
            Ok((response_header, response_body)) => {
                let r = decode_response::<TS>(&response_header, response_body.as_slice());
                proof {
                    if r is Ok && response_header.response_code == 0 {
                        assert(TS::spec_deser(response_body@) matches Ok(p) && p.0
                            == r->Ok_0.model());
                    }
                }
                r
            },
            Err(e) => Err(e),
        }
    }
}

} // verus!
