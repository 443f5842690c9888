use crate::codec::{seq_models, TssCodec, TssDeserialize, TssError, TssSerialize};
use crate::reader::TssReader;
use crate::wire::{u16_be_bytes, u32_be_bytes};
use vstd::prelude::*;

verus! {

/// The body of a Startup command: the startup type alone.
#[derive(Debug, Clone, Copy, PartialEq, Eq)]
pub struct StartupCommand {
    pub startup_type: u16,
}

impl TssSerialize for StartupCommand {
    open spec fn spec_ser(&self) -> Seq<u8> {
        u16_be_bytes(self.startup_type)
    }

    fn to_tss_bytes(&self) -> (r: Vec<u8>) {
        self.startup_type.to_tss_bytes()
    }
}

impl TssDeserialize for StartupCommand {
    type Model = StartupCommand;

    open spec fn model(&self) -> StartupCommand {
        *self
    }

    open spec fn spec_deser(s: Seq<u8>) -> Result<(StartupCommand, int), (TssError, int)> {
        match u16::spec_deser(s) {
            Ok((startup_type, n)) => Ok((StartupCommand { startup_type }, n)),
            Err((e, n)) => Err((e, n)),
        }
    }

    fn from_tss_reader(reader: &mut TssReader) -> (r: Result<Self, TssError>) {
        let startup_type = u16::from_tss_reader(reader)?;
        Ok(StartupCommand { startup_type })
    }
}

impl TssCodec for StartupCommand {
    proof fn lemma_roundtrip(x: StartupCommand, rest: Seq<u8>) {
        <u16 as TssCodec>::lemma_roundtrip(x.startup_type, rest);
    }
}

/// The fixed 10-byte header that precedes every command body on the wire:
/// tag, total length including the header, and command code.
#[derive(Debug, Clone, Copy, PartialEq, Eq)]
pub struct CommandHeader {
    pub tag: u16,
    pub length: u32,
    pub command_code: u32,
}

impl TssSerialize for CommandHeader {
    open spec fn spec_ser(&self) -> Seq<u8> {
        u16_be_bytes(self.tag) + u32_be_bytes(self.length) + u32_be_bytes(self.command_code)
    }

    fn to_tss_bytes(&self) -> (r: Vec<u8>) {
        let mut buffer = self.tag.to_tss_bytes();
        let mut rest = self.length.to_tss_bytes();
        buffer.append(&mut rest);
        let mut rest2 = self.command_code.to_tss_bytes();
        buffer.append(&mut rest2);
        proof {
            assert(buffer@ =~= self.spec_ser());
        }
        buffer
    }
}

impl TssDeserialize for CommandHeader {
    type Model = CommandHeader;

    open spec fn model(&self) -> CommandHeader {
        *self
    }

    open spec fn spec_deser(s: Seq<u8>) -> Result<(CommandHeader, int), (TssError, int)> {
        match u16::spec_deser(s) {
            Ok((tag, n1)) => match u32::spec_deser(s.skip(n1)) {
                Ok((length, n2)) => match u32::spec_deser(s.skip(n1 + n2)) {
                    Ok((command_code, n3)) => Ok(
                        (CommandHeader { tag, length, command_code }, n1 + n2 + n3),
                    ),
                    Err((e, n3)) => Err((e, n1 + n2 + n3)),
                },
                Err((e, n2)) => Err((e, n1 + n2)),
            },
            Err((e, n1)) => Err((e, n1)),
        }
    }

    fn from_tss_reader(reader: &mut TssReader) -> (r: Result<Self, TssError>) {
        let tag = u16::from_tss_reader(reader)?;
        proof {
            assert(reader.unread() =~= old(reader).unread().skip(2));
        }
        let length = u32::from_tss_reader(reader)?;
        proof {
            assert(reader.unread() =~= old(reader).unread().skip(6));
        }
        let command_code = u32::from_tss_reader(reader)?;
        Ok(CommandHeader { tag, length, command_code })
    }
}

impl TssCodec for CommandHeader {
    proof fn lemma_roundtrip(x: CommandHeader, rest: Seq<u8>) {
        let s = x.spec_ser() + rest;
        <u16 as TssCodec>::lemma_roundtrip(
            x.tag,
            u32_be_bytes(x.length) + u32_be_bytes(x.command_code) + rest,
        );
        assert(s =~= u16_be_bytes(x.tag) + (u32_be_bytes(x.length) + u32_be_bytes(x.command_code)
            + rest));
        <u32 as TssCodec>::lemma_roundtrip(x.length, u32_be_bytes(x.command_code) + rest);
        assert(s.skip(2) =~= u32_be_bytes(x.length) + (u32_be_bytes(x.command_code) + rest));
        <u32 as TssCodec>::lemma_roundtrip(x.command_code, rest);
        assert(s.skip(6) =~= u32_be_bytes(x.command_code) + rest);
    }
}

/// The body of a GetCapability command: which capability class to query,
/// the first property, and how many properties to return.
#[derive(Debug, Clone, Copy, PartialEq, Eq)]
pub struct GetCapabilityCommand {
    pub capability: u32,
    pub property: u32,
    pub property_count: u32,
}

impl TssSerialize for GetCapabilityCommand {
    open spec fn spec_ser(&self) -> Seq<u8> {
        u32_be_bytes(self.capability) + u32_be_bytes(self.property) + u32_be_bytes(
            self.property_count,
        )
    }

    fn to_tss_bytes(&self) -> (r: Vec<u8>) {
        let mut buffer = self.capability.to_tss_bytes();
        let mut rest = self.property.to_tss_bytes();
        buffer.append(&mut rest);
        let mut rest2 = self.property_count.to_tss_bytes();
        buffer.append(&mut rest2);
        proof {
            assert(buffer@ =~= self.spec_ser());
        }
        buffer
    }
}

impl TssDeserialize for GetCapabilityCommand {
    type Model = GetCapabilityCommand;

    open spec fn model(&self) -> GetCapabilityCommand {
        *self
    }

    open spec fn spec_deser(s: Seq<u8>) -> Result<(GetCapabilityCommand, int), (TssError, int)> {
        match u32::spec_deser(s) {
            Ok((capability, n1)) => match u32::spec_deser(s.skip(n1)) {
                Ok((property, n2)) => match u32::spec_deser(s.skip(n1 + n2)) {
                    Ok((property_count, n3)) => Ok(
                        (GetCapabilityCommand { capability, property, property_count }, n1 + n2
                            + n3),
                    ),
                    Err((e, n3)) => Err((e, n1 + n2 + n3)),
                },
                Err((e, n2)) => Err((e, n1 + n2)),
            },
            Err((e, n1)) => Err((e, n1)),
        }
    }

    fn from_tss_reader(reader: &mut TssReader) -> (r: Result<Self, TssError>) {
        let capability = u32::from_tss_reader(reader)?;
        proof {
            assert(reader.unread() =~= old(reader).unread().skip(4));
        }
        let property = u32::from_tss_reader(reader)?;
        proof {
            assert(reader.unread() =~= old(reader).unread().skip(8));
        }
        let property_count = u32::from_tss_reader(reader)?;
        Ok(GetCapabilityCommand { capability, property, property_count })
    }
}

impl TssCodec for GetCapabilityCommand {
    proof fn lemma_roundtrip(x: GetCapabilityCommand, rest: Seq<u8>) {
        let s = x.spec_ser() + rest;
        <u32 as TssCodec>::lemma_roundtrip(
            x.capability,
            u32_be_bytes(x.property) + u32_be_bytes(x.property_count) + rest,
        );
        assert(s =~= u32_be_bytes(x.capability) + (u32_be_bytes(x.property) + u32_be_bytes(
            x.property_count,
        ) + rest));
        <u32 as TssCodec>::lemma_roundtrip(x.property, u32_be_bytes(x.property_count) + rest);
        assert(s.skip(4) =~= u32_be_bytes(x.property) + (u32_be_bytes(x.property_count) + rest));
        <u32 as TssCodec>::lemma_roundtrip(x.property_count, rest);
        assert(s.skip(8) =~= u32_be_bytes(x.property_count) + rest);
    }
}

/// The fixed 10-byte header that starts every response: tag, total size
/// including the header, and response code. A response code of zero means
/// success; anything else is a protocol failure.
#[derive(Debug, Clone, Copy, PartialEq, Eq)]
pub struct ResponseHeader {
    pub tag: u16,
    pub size: u32,
    pub response_code: u32,
}

impl TssSerialize for ResponseHeader {
    open spec fn spec_ser(&self) -> Seq<u8> {
        u16_be_bytes(self.tag) + u32_be_bytes(self.size) + u32_be_bytes(self.response_code)
    }

    fn to_tss_bytes(&self) -> (r: Vec<u8>) {
        let mut buffer = self.tag.to_tss_bytes();
        let mut rest = self.size.to_tss_bytes();
        buffer.append(&mut rest);
        let mut rest2 = self.response_code.to_tss_bytes();
        buffer.append(&mut rest2);
        proof {
            assert(buffer@ =~= self.spec_ser());
        }
        buffer
    }
}

impl TssDeserialize for ResponseHeader {
    type Model = ResponseHeader;

    open spec fn model(&self) -> ResponseHeader {
        *self
    }

    open spec fn spec_deser(s: Seq<u8>) -> Result<(ResponseHeader, int), (TssError, int)> {
        match u16::spec_deser(s) {
            Ok((tag, n1)) => match u32::spec_deser(s.skip(n1)) {
                Ok((size, n2)) => match u32::spec_deser(s.skip(n1 + n2)) {
                    Ok((response_code, n3)) => Ok(
                        (ResponseHeader { tag, size, response_code }, n1 + n2 + n3),
                    ),
                    Err((e, n3)) => Err((e, n1 + n2 + n3)),
                },
                Err((e, n2)) => Err((e, n1 + n2)),
            },
            Err((e, n1)) => Err((e, n1)),
        }
    }

    fn from_tss_reader(reader: &mut TssReader) -> (r: Result<Self, TssError>) {
        let tag = u16::from_tss_reader(reader)?;
        proof {
            assert(reader.unread() =~= old(reader).unread().skip(2));
        }
        let size = u32::from_tss_reader(reader)?;
        proof {
            assert(reader.unread() =~= old(reader).unread().skip(6));
        }
        let response_code = u32::from_tss_reader(reader)?;
        Ok(ResponseHeader { tag, size, response_code })
    }
}

impl TssCodec for ResponseHeader {
    proof fn lemma_roundtrip(x: ResponseHeader, rest: Seq<u8>) {
        let s = x.spec_ser() + rest;
        <u16 as TssCodec>::lemma_roundtrip(
            x.tag,
            u32_be_bytes(x.size) + u32_be_bytes(x.response_code) + rest,
        );
        assert(s =~= u16_be_bytes(x.tag) + (u32_be_bytes(x.size) + u32_be_bytes(x.response_code)
            + rest));
        <u32 as TssCodec>::lemma_roundtrip(x.size, u32_be_bytes(x.response_code) + rest);
        assert(s.skip(2) =~= u32_be_bytes(x.size) + (u32_be_bytes(x.response_code) + rest));
        <u32 as TssCodec>::lemma_roundtrip(x.response_code, rest);
        assert(s.skip(6) =~= u32_be_bytes(x.response_code) + rest);
    }
}

/// One tagged property from a capability response: a property tag and its
/// value.
#[derive(Debug, Clone, Copy, PartialEq, Eq)]
pub struct TaggedProperty {
    pub tag: u32,
    pub value: u32,
}

impl TssSerialize for TaggedProperty {
    open spec fn spec_ser(&self) -> Seq<u8> {
        u32_be_bytes(self.tag) + u32_be_bytes(self.value)
    }

    fn to_tss_bytes(&self) -> (r: Vec<u8>) {
        let mut buffer = self.tag.to_tss_bytes();
        let mut rest = self.value.to_tss_bytes();
        buffer.append(&mut rest);
        proof {
            assert(buffer@ =~= self.spec_ser());
        }
        buffer
    }
}

impl TssDeserialize for TaggedProperty {
    type Model = TaggedProperty;

    open spec fn model(&self) -> TaggedProperty {
        *self
    }

    open spec fn spec_deser(s: Seq<u8>) -> Result<(TaggedProperty, int), (TssError, int)> {
        match u32::spec_deser(s) {
            Ok((tag, n1)) => match u32::spec_deser(s.skip(n1)) {
                Ok((value, n2)) => Ok((TaggedProperty { tag, value }, n1 + n2)),
                Err((e, n2)) => Err((e, n1 + n2)),
            },
            Err((e, n1)) => Err((e, n1)),
        }
    }

    fn from_tss_reader(reader: &mut TssReader) -> (r: Result<Self, TssError>) {
        let tag = u32::from_tss_reader(reader)?;
        proof {
            assert(reader.unread() =~= old(reader).unread().skip(4));
        }
        let value = u32::from_tss_reader(reader)?;
        Ok(TaggedProperty { tag, value })
    }
}

impl TssCodec for TaggedProperty {
    proof fn lemma_roundtrip(x: TaggedProperty, rest: Seq<u8>) {
        let s = x.spec_ser() + rest;
        <u32 as TssCodec>::lemma_roundtrip(x.tag, u32_be_bytes(x.value) + rest);
        assert(s =~= u32_be_bytes(x.tag) + (u32_be_bytes(x.value) + rest));
        <u32 as TssCodec>::lemma_roundtrip(x.value, rest);
        assert(s.skip(4) =~= u32_be_bytes(x.value) + rest);
    }
}

/// A response body captured uninterpreted: all bytes that remain after the
/// response header.
#[derive(Debug, Clone, PartialEq, Eq)]
pub struct RawResponse {
    pub bytes: Vec<u8>,
}

impl TssDeserialize for RawResponse {
    type Model = Seq<u8>;

    open spec fn model(&self) -> Seq<u8> {
        self.bytes@
    }

    /// Capturing the remaining bytes always succeeds and consumes them all.
    open spec fn spec_deser(s: Seq<u8>) -> Result<(Seq<u8>, int), (TssError, int)> {
        Ok((s, s.len() as int))
    }

    fn from_tss_reader(reader: &mut TssReader) -> (r: Result<Self, TssError>) {
        let count = reader.remaining();
        proof {
            assert(old(reader).unread().take(count as int) =~= old(reader).unread());
        }
        match reader.read_bytes(count) {
            Ok(bytes) => Ok(RawResponse { bytes }),
            Err(e) => Err(e),
        }
    }
}

/// A response body that must be empty; any trailing byte is malformed.
#[derive(Debug, Clone, Copy, PartialEq, Eq)]
pub struct Empty {}

impl TssDeserialize for Empty {
    type Model = Empty;

    open spec fn model(&self) -> Empty {
        *self
    }

    /// A trailing byte is malformed; the reader is never advanced.
    open spec fn spec_deser(s: Seq<u8>) -> Result<(Empty, int), (TssError, int)> {
        if s.len() == 0 {
            Ok((Empty {}, 0))
        } else {
            Err((TssError::InvalidFormat, 0))
        }
    }

    fn from_tss_reader(reader: &mut TssReader) -> (r: Result<Self, TssError>) {
        if reader.remaining() != 0 {
            return Err(TssError::InvalidFormat);
        }
        Ok(Empty {})
    }
}

/// The two recognized capability classes of a GetCapability response.
#[derive(Debug, Clone, PartialEq, Eq)]
pub enum Capabilities {
    Handles(Vec<u32>),
    TaggedProperties(Vec<TaggedProperty>),
}

/// The mathematical model of `Capabilities`: the same union over sequences.
pub enum CapabilitiesModel {
    Handles(Seq<u32>),
    TaggedProperties(Seq<TaggedProperty>),
}

impl Capabilities {
    /// The model of this value.
    pub open spec fn model(&self) -> CapabilitiesModel {
        match self {
            Capabilities::Handles(v) => CapabilitiesModel::Handles(seq_models(v@)),
            Capabilities::TaggedProperties(v) => CapabilitiesModel::TaggedProperties(
                seq_models(v@),
            ),
        }
    }
}

/// A GetCapability response: a more-data flag, then a `u32` discriminant
/// selecting the capability class, then the class's sequence.
#[derive(Debug, Clone, PartialEq, Eq)]
pub struct CapabilitiesResponse {
    pub capabilities: Capabilities,
    pub more_data: bool,
}

/// The mathematical model of `CapabilitiesResponse`.
pub struct CapabilitiesResponseModel {
    pub capabilities: CapabilitiesModel,
    pub more_data: bool,
}

/// The discriminant that selects a sequence of transient handles.
pub const CAP_HANDLES: u32 = 1;

/// The discriminant that selects a sequence of tagged properties.
pub const CAP_TAGGED_PROPERTIES: u32 = 6;

impl TssDeserialize for CapabilitiesResponse {
    type Model = CapabilitiesResponseModel;

    open spec fn model(&self) -> CapabilitiesResponseModel {
        CapabilitiesResponseModel {
            capabilities: self.capabilities.model(),
            more_data: self.more_data,
        }
    }

    /// Capability law: discriminant 1 always decodes to `Handles`,
    /// 6 always to `TaggedProperties`, and any other discriminant fails
    /// with `UnsupportedCapabilityType`, never silently succeeds.
    open spec fn spec_deser(s: Seq<u8>) -> Result<(CapabilitiesResponseModel, int), (TssError, int)> {
        match bool::spec_deser(s) {
            Ok((more_data, n1)) => match u32::spec_deser(s.skip(n1)) {
                Ok((cap, n2)) => if cap == CAP_HANDLES {
                    match Vec::<u32>::spec_deser(s.skip(n1 + n2)) {
                        Ok((handles, n3)) => Ok(
                            (
                                CapabilitiesResponseModel {
                                    capabilities: CapabilitiesModel::Handles(handles),
                                    more_data,
                                },
                                n1 + n2 + n3,
                            ),
                        ),
                        Err((e, n3)) => Err((e, n1 + n2 + n3)),
                    }
                } else if cap == CAP_TAGGED_PROPERTIES {
                    match Vec::<TaggedProperty>::spec_deser(s.skip(n1 + n2)) {
                        Ok((props, n3)) => Ok(
                            (
                                CapabilitiesResponseModel {
                                    capabilities: CapabilitiesModel::TaggedProperties(props),
                                    more_data,
                                },
                                n1 + n2 + n3,
                            ),
                        ),
                        Err((e, n3)) => Err((e, n1 + n2 + n3)),
                    }
                } else {
                    Err((TssError::UnsupportedCapabilityType(cap), n1 + n2))
                },
                Err((e, n2)) => Err((e, n1 + n2)),
            },
            Err((e, n1)) => Err((e, n1)),
        }
    }

    fn from_tss_reader(reader: &mut TssReader) -> (r: Result<Self, TssError>) {
        let more_data = bool::from_tss_reader(reader)?;
        proof {
            assert(reader.unread() =~= old(reader).unread().skip(1));
        }
        let capability = u32::from_tss_reader(reader)?;
        proof {
            assert(reader.unread() =~= old(reader).unread().skip(5));
        }
        if capability == CAP_HANDLES {
            let handles = Vec::<u32>::from_tss_reader(reader)?;
            Ok(CapabilitiesResponse { capabilities: Capabilities::Handles(handles), more_data })
        } else if capability == CAP_TAGGED_PROPERTIES {
            let props = Vec::<TaggedProperty>::from_tss_reader(reader)?;
            Ok(
                CapabilitiesResponse {
                    capabilities: Capabilities::TaggedProperties(props),
                    more_data,
                },
            )
        } else {
            Err(TssError::UnsupportedCapabilityType(capability))
        }
    }
}

/// Capability law: on a response body carrying a valid more-data byte and
/// a discriminant `d`, discriminant 1 can only ever decode to `Handles`,
/// 6 only to `TaggedProperties`, and any other discriminant fails with
/// `UnsupportedCapabilityType`, never silently succeeds.
pub proof fn lemma_capability_law(more_data_byte: u8, d: u32, rest: Seq<u8>)
    requires
        more_data_byte == 0 || more_data_byte == 1,
    ensures
        ({
            let s = seq![more_data_byte] + u32_be_bytes(d) + rest;
            &&& d == CAP_HANDLES ==> (CapabilitiesResponse::spec_deser(s) matches Ok(p)
                ==> p.0.capabilities is Handles)
            &&& d == CAP_TAGGED_PROPERTIES ==> (CapabilitiesResponse::spec_deser(s) matches Ok(p)
                ==> p.0.capabilities is TaggedProperties)
            &&& d != CAP_HANDLES && d != CAP_TAGGED_PROPERTIES ==> CapabilitiesResponse::spec_deser(
                s,
            ) == Err::<(CapabilitiesResponseModel, int), (TssError, int)>(
                (TssError::UnsupportedCapabilityType(d), 5),
            )
        }),
{
    let s = seq![more_data_byte] + u32_be_bytes(d) + rest;
    assert(s[0] == more_data_byte);
    assert(bool::spec_deser(s) matches Ok(p) && p.1 == 1);
    <u32 as TssCodec>::lemma_roundtrip(d, rest);
    assert(s.skip(1) =~= u32_be_bytes(d) + rest);
    assert(u32::spec_deser(s.skip(1)) == Ok::<(u32, int), (TssError, int)>((d, 4)));
}

/// The 24 PCR selection bits accumulated from a sequence of PCR indices:
/// bit `i` is set iff `i` occurs in the sequence.
pub open spec fn spec_pcr_bits(indices: Seq<u32>) -> u32
    decreases indices.len(),
{
    if indices.len() == 0 {
        0
    } else {
        spec_pcr_bits(indices.drop_last()) | (1u32 << indices.last())
    }
}

/// The body of a PCR_Read command: a hash algorithm and the set of PCR
/// indices to read, consumed into a 3-byte selection bitmask on encoding.
#[derive(Debug, Clone, PartialEq, Eq)]
pub struct ReadPcrCommand {
    pub hash: u16,
    pub pcr_index: Vec<u32>,
}

impl ReadPcrCommand {
    /// Scan for a PCR index outside the 24-slot range of the selection
    /// mask. Returns such an index, or `None` when all indices are
    /// encodable.
    pub fn first_out_of_range(&self) -> (r: Option<u32>)
        ensures
            match r {
                Some(i) => i >= 24 && self.pcr_index@.contains(i),
                None => self.wf_ser(),
            },
    {
        let mut k: usize = 0;
        while k < self.pcr_index.len()
            invariant
                0 <= k <= self.pcr_index@.len(),
                forall|j: int| 0 <= j < k ==> self.pcr_index@[j] < 24,
            decreases self.pcr_index@.len() - k,
        {
            let idx = self.pcr_index[k];
            if idx >= 24 {
                return Some(idx);
            }
            k = k + 1;
        }
        None
    }
}

impl TssSerialize for ReadPcrCommand {
    /// Only indices below 24 fit in the 3-byte selection mask.
    open spec fn wf_ser(&self) -> bool {
        forall|j: int| 0 <= j < self.pcr_index@.len() ==> self.pcr_index@[j] < 24
    }

    /// An empty index set encodes as a single 4-byte zero count; otherwise
    /// the hash, the mask size 3, and the 3 mask bytes, least significant
    /// first.
    open spec fn spec_ser(&self) -> Seq<u8> {
        if self.pcr_index@.len() == 0 {
            u32_be_bytes(0)
        } else {
            let bits = spec_pcr_bits(self.pcr_index@);
            u16_be_bytes(self.hash) + seq![
                3u8,
                (bits & 0xff) as u8,
                ((bits >> 8) & 0xff) as u8,
                ((bits >> 16) & 0xff) as u8,
            ]
        }
    }

    #[verifier::loop_isolation(false)]
    fn to_tss_bytes(&self) -> (r: Vec<u8>) {
        let mut buffer: Vec<u8> = Vec::new();
        if self.pcr_index.len() == 0 {
            let zero: u32 = 0;
            let mut z = zero.to_tss_bytes();
            buffer.append(&mut z);
            proof {
                assert(buffer@ =~= u32_be_bytes(0));
            }
            return buffer;
        }
        let mut hash_bytes = self.hash.to_tss_bytes();
        buffer.append(&mut hash_bytes);
        buffer.push(3);
        let mut bits: u32 = 0;
        let mut k: usize = 0;
        proof {
            assert(self.pcr_index@.take(0) =~= Seq::<u32>::empty());
        }
        while k < self.pcr_index.len()
            invariant
                0 <= k <= self.pcr_index@.len(),
                bits == spec_pcr_bits(self.pcr_index@.take(k as int)),
            decreases self.pcr_index@.len() - k,
        {
            let idx = self.pcr_index[k];
            assert(idx < 24);
            bits = bits | (1u32 << idx);
            proof {
                assert(self.pcr_index@.take(k + 1).drop_last() =~= self.pcr_index@.take(k as int));
                assert(self.pcr_index@.take(k + 1).last() == idx);
            }
            k = k + 1;
        }
        proof {
            assert(self.pcr_index@.take(self.pcr_index@.len() as int) =~= self.pcr_index@);
        }
        buffer.push((bits & 0xff) as u8);
        buffer.push(((bits >> 8) & 0xff) as u8);
        buffer.push(((bits >> 16) & 0xff) as u8);
        proof {
            assert(buffer@ =~= self.spec_ser());
        }
        buffer
    }
}

/// Bit `i` of the accumulated selection bits is set iff `i` occurs among
/// the indices.
pub proof fn lemma_pcr_bits_characterization(indices: Seq<u32>, i: u32)
    requires
        i < 24,
        forall|j: int| 0 <= j < indices.len() ==> indices[j] < 24,
    ensures
        ((spec_pcr_bits(indices) >> i) & 1 == 1) == indices.contains(i),
    decreases indices.len(),
{
    if indices.len() == 0 {
        assert((0u32 >> i) & 1 != 1) by (bit_vector);
        assert(!indices.contains(i));
    } else {
        let prev = indices.drop_last();
        let last = indices.last();
        assert(forall|j: int| 0 <= j < prev.len() ==> prev[j] < 24);
        lemma_pcr_bits_characterization(prev, i);
        let x = spec_pcr_bits(prev);
        assert(last < 24);
        assert((((x | (1u32 << last)) >> i) & 1 == 1) == (((x >> i) & 1 == 1) || i == last))
            by (bit_vector)
            requires
                i < 24u32,
                last < 24u32,
        ;
        if indices.contains(i) {
            let w = choose|w: int| 0 <= w < indices.len() && indices[w] == i;
            if w < indices.len() - 1 {
                assert(prev[w] == i);
                assert(prev.contains(i));
            } else {
                assert(last == i);
            }
        }
        if prev.contains(i) {
            let w = choose|w: int| 0 <= w < prev.len() && prev[w] == i;
            assert(indices[w] == i);
            assert(indices.contains(i));
        }
        if i == last {
            assert(indices[indices.len() - 1] == i);
            assert(indices.contains(i));
        }
    }
}

/// PCR mask law: in the non-empty encoding, bit `i mod 8` of mask byte
/// `i div 8` (the mask starting at offset 3) is set iff `i` is one of the
/// selected indices.
pub proof fn lemma_pcr_mask_law(cmd: ReadPcrCommand, i: u32)
    requires
        cmd.wf_ser(),
        i < 24,
        cmd.pcr_index@.len() > 0,
    ensures
        cmd.spec_ser().len() == 6,
        ((cmd.spec_ser()[3 + i / 8] >> (i % 8)) & 1 == 1) == cmd.pcr_index@.contains(i),
{
    lemma_pcr_bits_characterization(cmd.pcr_index@, i);
    let bits = spec_pcr_bits(cmd.pcr_index@);
    if i < 8 {
        assert(((((bits & 0xff) as u8) >> (i % 8)) & 1 == 1) == ((bits >> i) & 1 == 1))
            by (bit_vector)
            requires
                i < 8u32,
        ;
    } else if i < 16 {
        assert((((((bits >> 8) & 0xff) as u8) >> (i % 8)) & 1 == 1) == ((bits >> i) & 1 == 1))
            by (bit_vector)
            requires
                8u32 <= i < 16u32,
        ;
    } else {
        assert((((((bits >> 16) & 0xff) as u8) >> (i % 8)) & 1 == 1) == ((bits >> i) & 1 == 1))
            by (bit_vector)
            requires
                16u32 <= i < 24u32,
        ;
    }
}

/// PCR mask law, degenerate case: an empty index set encodes as a single
/// 4-byte zero count.
pub proof fn lemma_pcr_mask_empty(cmd: ReadPcrCommand)
    requires
        cmd.pcr_index@.len() == 0,
    ensures
        cmd.spec_ser() == u32_be_bytes(0),
        cmd.spec_ser().len() == 4,
{
}

} // verus!
