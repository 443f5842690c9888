use crate::reader::TssReader;
use crate::wire::{
    lemma_u16_be_roundtrip, lemma_u32_be_roundtrip, lemma_u64_be_roundtrip, u16_be_bytes,
    u16_from_be, u32_be_bytes, u32_from_be, u64_be_bytes, u64_from_be,
};
use vstd::prelude::*;

verus! {

/// Errors of the codec and of the client protocol layer.
#[derive(Debug, Clone, PartialEq, Eq)]
pub enum TssError {
    /// The buffer ran out of bytes in the middle of a decode.
    InsufficientData,
    /// A wire value lies outside its type's domain, e.g. a boolean byte
    /// other than 0 or 1.
    InvalidFormat,
    /// A capability discriminant other than the recognized ones.
    UnsupportedCapabilityType(u32),
    /// A PCR index outside the range covered by the selection mask.
    RangeError(u32),
    /// An I/O failure in the transport below the client.
    TransportFailure,
    /// A non-zero TPM response code, carried verbatim.
    ProtocolFailure(u32),
    /// Any other error, described in text.
    Custom(String),
}

impl TssError {
    /// A short description of the error, in text.
    pub fn message(&self) -> String {
        match self {
            TssError::InsufficientData => "insufficient data for deserialization".to_string(),
            TssError::InvalidFormat => "invalid TSS format".to_string(),
            TssError::UnsupportedCapabilityType(_) => "unsupported capability type".to_string(),
            TssError::RangeError(_) => "PCR index out of range".to_string(),
            TssError::TransportFailure => "transport failure".to_string(),
            TssError::ProtocolFailure(_) => "non-zero TPM response code".to_string(),
            TssError::Custom(msg) => msg.clone(),
        }
    }
}

/// Capability to produce the TPM wire bytes of a value.
///
/// `spec_ser` is the mathematical statement of the encoding; `to_tss_bytes`
/// computes exactly those bytes. `wf_ser` restricts encoding to field-valid
/// values (for most types every value is field-valid).
pub trait TssSerialize {
    /// Whether the value is field-valid, i.e. has an encoding at all.
    open spec fn wf_ser(&self) -> bool {
        true
    }

    /// The wire bytes of the value.
    spec fn spec_ser(&self) -> Seq<u8>;

    /// Encode the value into its wire bytes.
    fn to_tss_bytes(&self) -> (r: Vec<u8>)
        requires
            self.wf_ser(),
        ensures
            r@ == self.spec_ser(),
    ;
}

/// Capability to consume a value from a byte cursor.
///
/// Decoding is specified by `spec_deser`, a function from the unread byte
/// sequence to the outcome of the decode: on success, the decoded value's
/// mathematical model and the exact count of consumed bytes; on failure,
/// the exact error and the exact count of bytes consumed before failing.
/// Either way, a decode is fully specified, error paths included.
/// `Model` is the mathematical model of the decoded type (the type itself
/// for plain records, `Seq` for vector-shaped data), and `model` maps a
/// decoded value to it.
pub trait TssDeserialize: Sized {
    /// The mathematical model of a decoded value.
    type Model;

    /// The model of this value.
    spec fn model(&self) -> Self::Model;

    /// What decoding yields on any unread byte sequence: the decoded model
    /// and the exact count of consumed bytes, or the exact error together
    /// with the exact count of bytes consumed before failing.
    spec fn spec_deser(s: Seq<u8>) -> Result<(Self::Model, int), (TssError, int)>;

    /// Deserialize from a reader, consuming exactly the bytes the wire
    /// format assigns to this type; on failure the cursor stands exactly
    /// where `spec_deser` says the decode gave up.
    fn from_tss_reader(reader: &mut TssReader) -> (r: Result<Self, TssError>)
        requires
            old(reader).wf(),
        ensures
            final(reader).wf(),
            final(reader).spec_data() == old(reader).spec_data(),
            old(reader).spec_position() <= final(reader).spec_position(),
            match Self::spec_deser(old(reader).unread()) {
                Ok((v, n)) => r matches Ok(rv) && rv.model() == v && final(reader).spec_position()
                    == old(reader).spec_position() + n,
                Err((e, n)) => r matches Err(re) && re == e && final(reader).spec_position()
                    == old(reader).spec_position() + n,
            },
    ;

    /// Deserialize from raw bytes (convenience method). Trailing bytes
    /// after the decoded value are ignored.
    fn from_tss_bytes(bytes: &[u8]) -> (r: Result<Self, TssError>)
        ensures
            match Self::spec_deser(bytes@) {
                Ok((v, n)) => r matches Ok(rv) && rv.model() == v,
                Err((e, n)) => r matches Err(re) && re == e,
            },
    {
        let mut reader = TssReader::new(bytes);
        Self::from_tss_reader(&mut reader)
    }
}

impl TssSerialize for u8 {
    open spec fn spec_ser(&self) -> Seq<u8> {
        seq![*self]
    }

    fn to_tss_bytes(&self) -> (r: Vec<u8>) {
        let mut buffer: Vec<u8> = Vec::new();
        buffer.push(*self);
        proof {
            assert(buffer@ =~= seq![*self]);
        }
        buffer
    }
}

impl TssSerialize for u16 {
    open spec fn spec_ser(&self) -> Seq<u8> {
        u16_be_bytes(*self)
    }

    fn to_tss_bytes(&self) -> (r: Vec<u8>) {
        let v = *self;
        let mut buffer: Vec<u8> = Vec::new();
        buffer.push((v >> 8) as u8);
        buffer.push(v as u8);
        proof {
            assert(buffer@.len() == 2);
            assert(buffer@[0] == (v >> 8) as u8);
            assert(buffer@[1] == v as u8);
            assert(buffer@ =~= u16_be_bytes(v));
            assert(buffer@ == self.spec_ser());
        }
        buffer
    }
}

impl TssSerialize for u32 {
    open spec fn spec_ser(&self) -> Seq<u8> {
        u32_be_bytes(*self)
    }

    fn to_tss_bytes(&self) -> (r: Vec<u8>) {
        let v = *self;
        let mut buffer: Vec<u8> = Vec::new();
        buffer.push((v >> 24) as u8);
        buffer.push((v >> 16) as u8);
        buffer.push((v >> 8) as u8);
        buffer.push(v as u8);
        proof {
            assert(buffer@.len() == 4);
            assert(buffer@[0] == (v >> 24) as u8);
            assert(buffer@[1] == (v >> 16) as u8);
            assert(buffer@[2] == (v >> 8) as u8);
            assert(buffer@[3] == v as u8);
            assert(buffer@ =~= u32_be_bytes(v));
            assert(buffer@ == self.spec_ser());
        }
        buffer
    }
}

impl TssSerialize for u64 {
    open spec fn spec_ser(&self) -> Seq<u8> {
        u64_be_bytes(*self)
    }

    fn to_tss_bytes(&self) -> (r: Vec<u8>) {
        let v = *self;
        let mut buffer: Vec<u8> = Vec::new();
        buffer.push((v >> 56) as u8);
        buffer.push((v >> 48) as u8);
        buffer.push((v >> 40) as u8);
        buffer.push((v >> 32) as u8);
        buffer.push((v >> 24) as u8);
        buffer.push((v >> 16) as u8);
        buffer.push((v >> 8) as u8);
        buffer.push(v as u8);
        proof {
            assert(buffer@.len() == 8);
            assert(forall|i: int| 0 <= i < 8 ==> buffer@[i] == u64_be_bytes(v)[i]);
            assert(buffer@ =~= u64_be_bytes(v));
            assert(buffer@ == self.spec_ser());
        }
        buffer
    }
}

/// A fixed byte array is encoded as its raw bytes, unchanged.
impl<const N: usize> TssSerialize for [u8; N] {
    open spec fn spec_ser(&self) -> Seq<u8> {
        self@
    }

    fn to_tss_bytes(&self) -> (r: Vec<u8>) {
        let s = self.as_slice();
        vstd::slice::slice_to_vec(s)
    }
}

/// A fixed byte array decodes by taking exactly its declared size from the
/// wire; the size never comes from wire data.
impl<const N: usize> TssDeserialize for [u8; N] {
    type Model = Seq<u8>;

    open spec fn model(&self) -> Seq<u8> {
        self@
    }

    /// Truncated input fails atomically: nothing is consumed.
    open spec fn spec_deser(s: Seq<u8>) -> Result<(Seq<u8>, int), (TssError, int)> {
        if s.len() >= N {
            Ok((s.take(N as int), N as int))
        } else {
            Err((TssError::InsufficientData, 0))
        }
    }

    fn from_tss_reader(reader: &mut TssReader) -> (r: Result<Self, TssError>) {
        reader.read_array::<N>()
    }
}

impl<const N: usize> TssCodec for [u8; N] {
    proof fn lemma_roundtrip(x: [u8; N], rest: Seq<u8>) {
        assert(x@.len() == N);
        assert((x@ + rest).take(N as int) =~= x@);
    }
}

/// A fixed array of `u16` encodes each element independently in
/// big-endian order, concatenated, with no count on the wire.
impl<const N: usize> TssSerialize for [u16; N] {
    open spec fn spec_ser(&self) -> Seq<u8> {
        spec_ser_elems(self@)
    }

    #[verifier::loop_isolation(false)]
    fn to_tss_bytes(&self) -> (r: Vec<u8>) {
        let mut buffer: Vec<u8> = Vec::new();
        let mut i: usize = 0;
        proof {
            assert(self@.take(0) =~= Seq::<u16>::empty());
        }
        while i < N
            invariant
                0 <= i <= N,
                buffer@ == spec_ser_elems(self@.take(i as int)),
            decreases N - i,
        {
            let mut piece = self[i].to_tss_bytes();
            buffer.append(&mut piece);
            proof {
                lemma_ser_elems_push::<u16>(self@.take(i as int), self@[i as int]);
                assert(self@.take(i as int).push(self@[i as int]) =~= self@.take(i + 1));
            }
            i = i + 1;
        }
        proof {
            assert(self@.take(N as int) =~= self@);
        }
        buffer
    }
}

/// A fixed array of `u16` decodes exactly its declared element count from
/// the wire, each element big-endian; the count never comes from wire
/// data.
impl<const N: usize> TssDeserialize for [u16; N] {
    type Model = Seq<u16>;

    open spec fn model(&self) -> Seq<u16> {
        self@
    }

    open spec fn spec_deser(s: Seq<u8>) -> Result<(Seq<u16>, int), (TssError, int)> {
        spec_deser_elems::<u16>(s, N as nat)
    }

    #[verifier::loop_isolation(false)]
    fn from_tss_reader(reader: &mut TssReader) -> (r: Result<Self, TssError>) {
        let mut array: [u16; N] = vstd::array::array_fill_for_copy_types(0u16);
        let ghost s0 = old(reader).unread();
        let ghost pos0 = old(reader).spec_position();
        let mut k: usize = 0;
        proof {
            assert(reader.unread() =~= s0.skip(0));
            match spec_deser_elems::<u16>(s0, N as nat) {
                Ok((vs, m)) => {
                    assert(array@.take(0) + vs =~= vs);
                },
                Err(_) => {},
            }
        }
        while k < N
            invariant
                0 <= k <= N,
                array@.len() == N,
                reader.wf(),
                reader.spec_data() == old(reader).spec_data(),
                pos0 <= reader.spec_position(),
                reader.unread() == s0.skip(reader.spec_position() - pos0),
                spec_deser_elems::<u16>(s0, N as nat) == (match spec_deser_elems::<u16>(
                    reader.unread(),
                    (N - k) as nat,
                ) {
                    Ok((vs, m)) => Ok::<(Seq<u16>, int), (TssError, int)>(
                        (array@.take(k as int) + vs, (reader.spec_position() - pos0) + m),
                    ),
                    Err((e, m)) => Err::<(Seq<u16>, int), (TssError, int)>(
                        (e, (reader.spec_position() - pos0) + m),
                    ),
                }),
            decreases N - k,
        {
            let ghost cur = reader.unread();
            let ghost arr_old = array@;
            match u16::from_tss_reader(reader) {
                Ok(v) => {
                    array[k] = v;
                    proof {
                        match u16::spec_deser(cur) {
                            Ok((vm, n)) => {
                                assert(reader.unread() =~= cur.skip(n));
                                assert(array@.take(k + 1) =~= arr_old.take(k as int) + seq![vm]);
                                assert(array@.take(k as int) =~= arr_old.take(k as int));
                                assert(spec_deser_elems::<u16>(cur, (N - k) as nat) == (
                                match spec_deser_elems::<u16>(cur.skip(n), (N - k - 1) as nat) {
                                    Ok((vs2, m2)) => Ok::<(Seq<u16>, int), (TssError, int)>(
                                        (seq![vm] + vs2, n + m2),
                                    ),
                                    Err((e2, m2)) => Err::<(Seq<u16>, int), (TssError, int)>(
                                        (e2, n + m2),
                                    ),
                                }));
                                match spec_deser_elems::<u16>(
                                    reader.unread(),
                                    (N - k - 1) as nat,
                                ) {
                                    Ok((vs2, m2)) => {
                                        assert(arr_old.take(k as int) + (seq![vm] + vs2) =~= (
                                        arr_old.take(k as int) + seq![vm]) + vs2);
                                    },
                                    Err(_) => {},
                                }
                                assert(reader.unread() =~= s0.skip(
                                    reader.spec_position() - pos0,
                                ));
                            },
                            Err(_) => {
                                assert(false);
                            },
                        }
                    }
                },
                Err(e) => {
                    proof {
                        match u16::spec_deser(cur) {
                            Err((e2, n2)) => {
                                assert(spec_deser_elems::<u16>(cur, (N - k) as nat) == Err::<
                                    (Seq<u16>, int),
                                    (TssError, int),
                                >((e2, n2)));
                            },
                            Ok(_) => {
                                assert(false);
                            },
                        }
                    }
                    return Err(e);
                },
            }
            k = k + 1;
        }
        proof {
            assert(array@.take(N as int) =~= array@);
            match spec_deser_elems::<u16>(reader.unread(), 0) {
                Ok((vs, m)) => {
                    assert(array@ + vs =~= array@);
                },
                Err(_) => {},
            }
        }
        Ok(array)
    }
}

impl<const N: usize> TssCodec for [u16; N] {
    proof fn lemma_roundtrip(x: [u16; N], rest: Seq<u8>) {
        assert(x@.len() == N);
        lemma_deser_elems_of_ser::<u16>(x@, rest);
        assert(seq_models(x@) =~= x@);
    }
}

/// A fixed array of `u32` encodes each element independently in
/// big-endian order, concatenated, with no count on the wire.
impl<const N: usize> TssSerialize for [u32; N] {
    open spec fn spec_ser(&self) -> Seq<u8> {
        spec_ser_elems(self@)
    }

    #[verifier::loop_isolation(false)]
    fn to_tss_bytes(&self) -> (r: Vec<u8>) {
        let mut buffer: Vec<u8> = Vec::new();
        let mut i: usize = 0;
        proof {
            assert(self@.take(0) =~= Seq::<u32>::empty());
        }
        while i < N
            invariant
                0 <= i <= N,
                buffer@ == spec_ser_elems(self@.take(i as int)),
            decreases N - i,
        {
            let mut piece = self[i].to_tss_bytes();
            buffer.append(&mut piece);
            proof {
                lemma_ser_elems_push::<u32>(self@.take(i as int), self@[i as int]);
                assert(self@.take(i as int).push(self@[i as int]) =~= self@.take(i + 1));
            }
            i = i + 1;
        }
        proof {
            assert(self@.take(N as int) =~= self@);
        }
        buffer
    }
}

/// A fixed array of `u32` decodes exactly its declared element count from
/// the wire, each element big-endian; the count never comes from wire
/// data.
impl<const N: usize> TssDeserialize for [u32; N] {
    type Model = Seq<u32>;

    open spec fn model(&self) -> Seq<u32> {
        self@
    }

    open spec fn spec_deser(s: Seq<u8>) -> Result<(Seq<u32>, int), (TssError, int)> {
        spec_deser_elems::<u32>(s, N as nat)
    }

    #[verifier::loop_isolation(false)]
    fn from_tss_reader(reader: &mut TssReader) -> (r: Result<Self, TssError>) {
        let mut array: [u32; N] = vstd::array::array_fill_for_copy_types(0u32);
        let ghost s0 = old(reader).unread();
        let ghost pos0 = old(reader).spec_position();
        let mut k: usize = 0;
        proof {
            assert(reader.unread() =~= s0.skip(0));
            match spec_deser_elems::<u32>(s0, N as nat) {
                Ok((vs, m)) => {
                    assert(array@.take(0) + vs =~= vs);
                },
                Err(_) => {},
            }
        }
        while k < N
            invariant
                0 <= k <= N,
                array@.len() == N,
                reader.wf(),
                reader.spec_data() == old(reader).spec_data(),
                pos0 <= reader.spec_position(),
                reader.unread() == s0.skip(reader.spec_position() - pos0),
                spec_deser_elems::<u32>(s0, N as nat) == (match spec_deser_elems::<u32>(
                    reader.unread(),
                    (N - k) as nat,
                ) {
                    Ok((vs, m)) => Ok::<(Seq<u32>, int), (TssError, int)>(
                        (array@.take(k as int) + vs, (reader.spec_position() - pos0) + m),
                    ),
                    Err((e, m)) => Err::<(Seq<u32>, int), (TssError, int)>(
                        (e, (reader.spec_position() - pos0) + m),
                    ),
                }),
            decreases N - k,
        {
            let ghost cur = reader.unread();
            let ghost arr_old = array@;
            match u32::from_tss_reader(reader) {
                Ok(v) => {
                    array[k] = v;
                    proof {
                        match u32::spec_deser(cur) {
                            Ok((vm, n)) => {
                                assert(reader.unread() =~= cur.skip(n));
                                assert(array@.take(k + 1) =~= arr_old.take(k as int) + seq![vm]);
                                assert(array@.take(k as int) =~= arr_old.take(k as int));
                                assert(spec_deser_elems::<u32>(cur, (N - k) as nat) == (
                                match spec_deser_elems::<u32>(cur.skip(n), (N - k - 1) as nat) {
                                    Ok((vs2, m2)) => Ok::<(Seq<u32>, int), (TssError, int)>(
                                        (seq![vm] + vs2, n + m2),
                                    ),
                                    Err((e2, m2)) => Err::<(Seq<u32>, int), (TssError, int)>(
                                        (e2, n + m2),
                                    ),
                                }));
                                match spec_deser_elems::<u32>(
                                    reader.unread(),
                                    (N - k - 1) as nat,
                                ) {
                                    Ok((vs2, m2)) => {
                                        assert(arr_old.take(k as int) + (seq![vm] + vs2) =~= (
                                        arr_old.take(k as int) + seq![vm]) + vs2);
                                    },
                                    Err(_) => {},
                                }
                                assert(reader.unread() =~= s0.skip(
                                    reader.spec_position() - pos0,
                                ));
                            },
                            Err(_) => {
                                assert(false);
                            },
                        }
                    }
                },
                Err(e) => {
                    proof {
                        match u32::spec_deser(cur) {
                            Err((e2, n2)) => {
                                assert(spec_deser_elems::<u32>(cur, (N - k) as nat) == Err::<
                                    (Seq<u32>, int),
                                    (TssError, int),
                                >((e2, n2)));
                            },
                            Ok(_) => {
                                assert(false);
                            },
                        }
                    }
                    return Err(e);
                },
            }
            k = k + 1;
        }
        proof {
            assert(array@.take(N as int) =~= array@);
            match spec_deser_elems::<u32>(reader.unread(), 0) {
                Ok((vs, m)) => {
                    assert(array@ + vs =~= array@);
                },
                Err(_) => {},
            }
        }
        Ok(array)
    }
}

impl<const N: usize> TssCodec for [u32; N] {
    proof fn lemma_roundtrip(x: [u32; N], rest: Seq<u8>) {
        assert(x@.len() == N);
        lemma_deser_elems_of_ser::<u32>(x@, rest);
        assert(seq_models(x@) =~= x@);
    }
}

impl TssDeserialize for u8 {
    type Model = u8;

    open spec fn model(&self) -> u8 {
        *self
    }

    /// A missing byte fails without consuming anything.
    open spec fn spec_deser(s: Seq<u8>) -> Result<(u8, int), (TssError, int)> {
        if s.len() >= 1 {
            Ok((s[0], 1))
        } else {
            Err((TssError::InsufficientData, 0))
        }
    }

    fn from_tss_reader(reader: &mut TssReader) -> (r: Result<Self, TssError>) {
        reader.read_u8()
    }
}

impl TssDeserialize for u16 {
    type Model = u16;

    open spec fn model(&self) -> u16 {
        *self
    }

    /// Truncated input fails atomically: nothing is consumed.
    open spec fn spec_deser(s: Seq<u8>) -> Result<(u16, int), (TssError, int)> {
        if s.len() >= 2 {
            Ok((u16_from_be(s[0], s[1]), 2))
        } else {
            Err((TssError::InsufficientData, 0))
        }
    }

    fn from_tss_reader(reader: &mut TssReader) -> (r: Result<Self, TssError>) {
        if !reader.has_remaining(2) {
            return Err(TssError::InsufficientData);
        }
        let b0 = reader.read_u8()?;
        let b1 = reader.read_u8()?;
        Ok((b0 as u16) << 8 | (b1 as u16))
    }
}

impl TssDeserialize for u32 {
    type Model = u32;

    open spec fn model(&self) -> u32 {
        *self
    }

    /// Truncated input fails atomically: nothing is consumed.
    open spec fn spec_deser(s: Seq<u8>) -> Result<(u32, int), (TssError, int)> {
        if s.len() >= 4 {
            Ok((u32_from_be(s[0], s[1], s[2], s[3]), 4))
        } else {
            Err((TssError::InsufficientData, 0))
        }
    }

    fn from_tss_reader(reader: &mut TssReader) -> (r: Result<Self, TssError>) {
        if !reader.has_remaining(4) {
            return Err(TssError::InsufficientData);
        }
        let b0 = reader.read_u8()?;
        let b1 = reader.read_u8()?;
        let b2 = reader.read_u8()?;
        let b3 = reader.read_u8()?;
        Ok((b0 as u32) << 24 | (b1 as u32) << 16 | (b2 as u32) << 8 | (b3 as u32))
    }
}

impl TssDeserialize for u64 {
    type Model = u64;

    open spec fn model(&self) -> u64 {
        *self
    }

    /// Truncated input fails atomically: nothing is consumed.
    open spec fn spec_deser(s: Seq<u8>) -> Result<(u64, int), (TssError, int)> {
        if s.len() >= 8 {
            Ok((u64_from_be(s[0], s[1], s[2], s[3], s[4], s[5], s[6], s[7]), 8))
        } else {
            Err((TssError::InsufficientData, 0))
        }
    }

    fn from_tss_reader(reader: &mut TssReader) -> (r: Result<Self, TssError>) {
        if !reader.has_remaining(8) {
            return Err(TssError::InsufficientData);
        }
        let b0 = reader.read_u8()?;
        let b1 = reader.read_u8()?;
        let b2 = reader.read_u8()?;
        let b3 = reader.read_u8()?;
        let b4 = reader.read_u8()?;
        let b5 = reader.read_u8()?;
        let b6 = reader.read_u8()?;
        let b7 = reader.read_u8()?;
        Ok(
            (b0 as u64) << 56 | (b1 as u64) << 48 | (b2 as u64) << 40 | (b3 as u64) << 32 | (
            b4 as u64) << 24 | (b5 as u64) << 16 | (b6 as u64) << 8 | (b7 as u64),
        )
    }
}

impl TssDeserialize for bool {
    type Model = bool;

    open spec fn model(&self) -> bool {
        *self
    }

    /// Only the bytes 0 and 1 denote a boolean; any other byte is
    /// malformed and is still consumed. A missing byte consumes nothing.
    open spec fn spec_deser(s: Seq<u8>) -> Result<(bool, int), (TssError, int)> {
        if s.len() >= 1 {
            if s[0] == 0 {
                Ok((false, 1))
            } else if s[0] == 1 {
                Ok((true, 1))
            } else {
                Err((TssError::InvalidFormat, 1))
            }
        } else {
            Err((TssError::InsufficientData, 0))
        }
    }

    fn from_tss_reader(reader: &mut TssReader) -> (r: Result<Self, TssError>) {
        let b = reader.read_u8()?;
        match b {
            0 => Ok(false),
            1 => Ok(true),
            _ => Err(TssError::InvalidFormat),
        }
    }
}

/// Big-endian law for `u16`: the encoding is exactly the value's two
/// big-endian bytes.
pub proof fn lemma_be_law_u16(v: u16)
    ensures
        v.spec_ser() == u16_be_bytes(v),
        v.spec_ser().len() == 2,
{
}

/// Big-endian law for `u32`: the encoding is exactly the value's four
/// big-endian bytes.
pub proof fn lemma_be_law_u32(v: u32)
    ensures
        v.spec_ser() == u32_be_bytes(v),
        v.spec_ser().len() == 4,
{
}

/// Big-endian law for `u64`: the encoding is exactly the value's eight
/// big-endian bytes.
pub proof fn lemma_be_law_u64(v: u64)
    ensures
        v.spec_ser() == u64_be_bytes(v),
        v.spec_ser().len() == 8,
{
}

/// The concatenated wire bytes of a sequence of values, in order.
pub open spec fn spec_ser_elems<T: TssSerialize>(s: Seq<T>) -> Seq<u8>
    decreases s.len(),
{
    if s.len() == 0 {
        Seq::empty()
    } else {
        s.first().spec_ser() + spec_ser_elems(s.drop_first())
    }
}

/// Appending one value to a sequence appends its wire bytes to the encoding.
pub proof fn lemma_ser_elems_push<T: TssSerialize>(s: Seq<T>, x: T)
    ensures
        spec_ser_elems(s.push(x)) == spec_ser_elems(s) + x.spec_ser(),
    decreases s.len(),
{
    if s.len() == 0 {
        assert(s.push(x).first() == x);
        assert(s.push(x).drop_first() =~= Seq::<T>::empty());
        assert(spec_ser_elems(Seq::<T>::empty()) == Seq::<u8>::empty());
        assert(spec_ser_elems(s.push(x)) == x.spec_ser() + Seq::<u8>::empty());
        assert(x.spec_ser() + Seq::<u8>::empty() =~= Seq::<u8>::empty() + x.spec_ser());
        assert(spec_ser_elems(s) == Seq::<u8>::empty());
    } else {
        lemma_ser_elems_push(s.drop_first(), x);
        assert(s.push(x).first() == s.first());
        assert(s.push(x).drop_first() =~= s.drop_first().push(x));
        assert(spec_ser_elems(s.push(x)) == s.first().spec_ser() + spec_ser_elems(
            s.drop_first().push(x),
        ));
        assert(s.first().spec_ser() + (spec_ser_elems(s.drop_first()) + x.spec_ser()) =~= (
        s.first().spec_ser() + spec_ser_elems(s.drop_first())) + x.spec_ser());
    }
}

/// The models of the values of a sequence, in order.
pub open spec fn seq_models<T: TssDeserialize>(s: Seq<T>) -> Seq<T::Model> {
    s.map_values(|t: T| t.model())
}

/// What decoding `count` consecutive values yields on an unread byte
/// sequence: the decoded models in order and the total count of consumed
/// bytes, or the first failure together with the count of bytes consumed
/// up to and including it.
pub open spec fn spec_deser_elems<T: TssDeserialize>(s: Seq<u8>, count: nat) -> Result<
    (Seq<T::Model>, int),
    (TssError, int),
>
    decreases count,
{
    if count == 0 {
        Ok((Seq::empty(), 0))
    } else {
        match T::spec_deser(s) {
            Ok((v, n)) => match spec_deser_elems::<T>(s.skip(n), (count - 1) as nat) {
                Ok((vs, m)) => Ok((seq![v] + vs, n + m)),
                Err((e, m)) => Err((e, n + m)),
            },
            Err((e, n)) => Err((e, n)),
        }
    }
}

/// A length-prefixed sequence is encoded as a `u32` element count followed
/// by each element's encoding in order.
impl<T: TssSerialize> TssSerialize for Vec<T> {
    open spec fn wf_ser(&self) -> bool {
        self@.len() <= u32::MAX && forall|i: int| 0 <= i < self@.len() ==> self@[i].wf_ser()
    }

    open spec fn spec_ser(&self) -> Seq<u8> {
        u32_be_bytes(self@.len() as u32) + spec_ser_elems(self@)
    }

    #[verifier::loop_isolation(false)]
    fn to_tss_bytes(&self) -> (r: Vec<u8>) {
        let count = self.len() as u32;
        let mut buffer = count.to_tss_bytes();
        let mut i: usize = 0;
        while i < self.len()
            invariant
                0 <= i <= self@.len(),
                buffer@ == u32_be_bytes(self@.len() as u32) + spec_ser_elems(self@.take(i as int)),
            decreases self@.len() - i,
        {
            let mut piece = self[i].to_tss_bytes();
            buffer.append(&mut piece);
            proof {
                lemma_ser_elems_push::<T>(self@.take(i as int), self@[i as int]);
                assert(self@.take(i as int).push(self@[i as int]) =~= self@.take(i + 1));
                assert((u32_be_bytes(self@.len() as u32) + spec_ser_elems(self@.take(i as int)))
                    + self@[i as int].spec_ser() =~= u32_be_bytes(self@.len() as u32) + (
                spec_ser_elems(self@.take(i as int)) + self@[i as int].spec_ser()));
            }
            i = i + 1;
        }
        proof {
            assert(self@.take(0) =~= Seq::<T>::empty());
            assert(self@.take(self@.len() as int) =~= self@);
        }
        buffer
    }
}

/// A length-prefixed sequence decodes its `u32` element count from the wire
/// and then exactly that many elements, propagating the first failure.
impl<T: TssDeserialize> TssDeserialize for Vec<T> {
    type Model = Seq<T::Model>;

    open spec fn model(&self) -> Seq<T::Model> {
        seq_models(self@)
    }

    open spec fn spec_deser(s: Seq<u8>) -> Result<(Seq<T::Model>, int), (TssError, int)> {
        match u32::spec_deser(s) {
            Ok((count, n)) => match spec_deser_elems::<T>(s.skip(n), count as nat) {
                Ok((vs, m)) => Ok((vs, n + m)),
                Err((e, m)) => Err((e, n + m)),
            },
            Err((e, n)) => Err((e, n)),
        }
    }

    #[verifier::loop_isolation(false)]
    fn from_tss_reader(reader: &mut TssReader) -> (r: Result<Self, TssError>) {
        let length = u32::from_tss_reader(reader)?;
        let ghost s0 = reader.unread();
        let ghost pos1 = reader.spec_position();
        let mut vec: Vec<T> = Vec::new();
        let mut k: u32 = 0;
        proof {
            assert(s0 =~= old(reader).unread().skip(4));
            assert(seq_models(vec@) =~= Seq::<T::Model>::empty());
            assert(reader.unread() =~= s0.skip(0));
            match spec_deser_elems::<T>(s0, length as nat) {
                Ok((vs, m)) => {
                    assert(seq_models(vec@) + vs =~= vs);
                },
                Err(_) => {},
            }
        }
        while k < length
            invariant
                0 <= k <= length,
                vec@.len() == k,
                reader.wf(),
                reader.spec_data() == old(reader).spec_data(),
                pos1 <= reader.spec_position(),
                reader.unread() == s0.skip(reader.spec_position() - pos1),
                spec_deser_elems::<T>(s0, length as nat) == (match spec_deser_elems::<T>(
                    reader.unread(),
                    (length - k) as nat,
                ) {
                    Ok((vs, m)) => Ok::<(Seq<T::Model>, int), (TssError, int)>(
                        (seq_models(vec@) + vs, (reader.spec_position() - pos1) + m),
                    ),
                    Err((e, m)) => Err::<(Seq<T::Model>, int), (TssError, int)>(
                        (e, (reader.spec_position() - pos1) + m),
                    ),
                }),
            decreases length - k,
        {
            let ghost cur = reader.unread();
            let ghost vec_old = vec@;
            match T::from_tss_reader(reader) {
                Ok(v) => {
                    vec.push(v);
                    proof {
                        match T::spec_deser(cur) {
                            Ok((vm, n)) => {
                                assert(reader.unread() =~= cur.skip(n));
                                assert(seq_models(vec@) =~= seq_models(vec_old) + seq![vm]);
                                assert(spec_deser_elems::<T>(cur, (length - k) as nat) == (
                                match spec_deser_elems::<T>(cur.skip(n), (length - k - 1) as nat) {
                                    Ok((vs2, m2)) => Ok::<(Seq<T::Model>, int), (TssError, int)>(
                                        (seq![vm] + vs2, n + m2),
                                    ),
                                    Err((e2, m2)) => Err::<(Seq<T::Model>, int), (TssError, int)>(
                                        (e2, n + m2),
                                    ),
                                }));
                                match spec_deser_elems::<T>(
                                    reader.unread(),
                                    (length - k - 1) as nat,
                                ) {
                                    Ok((vs2, m2)) => {
                                        assert(seq_models(vec_old) + (seq![vm] + vs2) =~= (
                                        seq_models(vec_old) + seq![vm]) + vs2);
                                    },
                                    Err(_) => {},
                                }
                                assert(reader.unread() =~= s0.skip(
                                    reader.spec_position() - pos1,
                                ));
                            },
                            Err(_) => {
                                assert(false);
                            },
                        }
                    }
                },
                Err(e) => {
                    proof {
                        match T::spec_deser(cur) {
                            Err((e2, n2)) => {
                                assert(spec_deser_elems::<T>(cur, (length - k) as nat) == Err::<
                                    (Seq<T::Model>, int),
                                    (TssError, int),
                                >((e2, n2)));
                            },
                            Ok(_) => {
                                assert(false);
                            },
                        }
                    }
                    return Err(e);
                },
            }
            k = k + 1;
        }
        proof {
            match spec_deser_elems::<T>(reader.unread(), 0) {
                Ok((vs, m)) => {
                    assert(seq_models(vec@) + vs =~= seq_models(vec@));
                },
                Err(_) => {},
            }
        }
        Ok(vec)
    }
}

/// The round-trip law tying a type's encoder to its decoder: for every
/// field-valid value, decoding bytes that begin with the value's encoding
/// yields exactly the value's model and consumes exactly its encoding,
/// whatever bytes follow.
pub trait TssCodec: TssSerialize + TssDeserialize {
    /// `decode(encode(x) ++ rest) == (x, |encode(x)|)` for field-valid `x`.
    proof fn lemma_roundtrip(x: Self, rest: Seq<u8>)
        requires
            x.wf_ser(),
        ensures
            Self::spec_deser(x.spec_ser() + rest) == Ok::<(Self::Model, int), (TssError, int)>(
                (x.model(), x.spec_ser().len() as int),
            ),
    ;
}

impl TssCodec for u8 {
    proof fn lemma_roundtrip(x: u8, rest: Seq<u8>) {
        let s = x.spec_ser() + rest;
        assert(s[0] == x);
    }
}

impl TssCodec for u16 {
    proof fn lemma_roundtrip(x: u16, rest: Seq<u8>) {
        let s = x.spec_ser() + rest;
        assert(s[0] == u16_be_bytes(x)[0] && s[1] == u16_be_bytes(x)[1]);
        lemma_u16_be_roundtrip(x);
    }
}

impl TssCodec for u32 {
    proof fn lemma_roundtrip(x: u32, rest: Seq<u8>) {
        let s = x.spec_ser() + rest;
        assert(s[0] == u32_be_bytes(x)[0] && s[1] == u32_be_bytes(x)[1] && s[2] == u32_be_bytes(
            x,
        )[2] && s[3] == u32_be_bytes(x)[3]);
        lemma_u32_be_roundtrip(x);
    }
}

impl TssCodec for u64 {
    proof fn lemma_roundtrip(x: u64, rest: Seq<u8>) {
        let s = x.spec_ser() + rest;
        assert(forall|i: int| 0 <= i < 8 ==> s[i] == u64_be_bytes(x)[i]);
        lemma_u64_be_roundtrip(x);
    }
}

/// Decoding `s.len()` consecutive values from the concatenation of their
/// encodings (with anything after) yields their models in order and
/// consumes exactly the concatenation.
pub proof fn lemma_deser_elems_of_ser<T: TssCodec>(s: Seq<T>, rest: Seq<u8>)
    requires
        forall|i: int| 0 <= i < s.len() ==> s[i].wf_ser(),
    ensures
        spec_deser_elems::<T>(spec_ser_elems(s) + rest, s.len()) == Ok::<
            (Seq<T::Model>, int),
            (TssError, int),
        >((seq_models(s), spec_ser_elems(s).len() as int)),
    decreases s.len(),
{
    let full = spec_ser_elems(s) + rest;
    if s.len() == 0 {
        assert(seq_models(s) =~= Seq::<T::Model>::empty());
    } else {
        let head = s.first();
        let tail = s.drop_first();
        assert(s[0].wf_ser());
        assert(head == s[0]);
        T::lemma_roundtrip(head, spec_ser_elems(tail) + rest);
        assert(full =~= head.spec_ser() + (spec_ser_elems(tail) + rest));
        let n0 = head.spec_ser().len() as int;
        assert(T::spec_deser(full) == Ok::<(T::Model, int), (TssError, int)>((head.model(), n0)));
        assert(full.skip(n0) =~= spec_ser_elems(tail) + rest);
        assert(forall|i: int| 0 <= i < tail.len() ==> tail[i] == s[i + 1] && tail[i].wf_ser());
        lemma_deser_elems_of_ser(tail, rest);
        assert(seq![head.model()] + seq_models(tail) =~= seq_models(s));
    }
}

/// Sequence law, success direction: decoding the encoding of a sequence
/// (with anything after) yields the element models, in order and number,
/// and consumes exactly the encoding.
impl<T: TssCodec> TssCodec for Vec<T> {
    proof fn lemma_roundtrip(x: Vec<T>, rest: Seq<u8>) {
        let n32 = x@.len() as u32;
        let elems = spec_ser_elems(x@) + rest;
        <u32 as TssCodec>::lemma_roundtrip(n32, elems);
        assert(x.spec_ser() + rest =~= n32.spec_ser() + elems);
        lemma_deser_elems_of_ser(x@, rest);
        assert((x.spec_ser() + rest).skip(4) =~= spec_ser_elems(x@) + rest);
        assert(n32 as nat == x@.len());
    }
}

/// Sequence law, failure direction, for `u32` elements: a length prefix
/// promising more elements than the remaining bytes can hold fails with
/// `InsufficientData`.
pub proof fn lemma_deser_elems_u32_short(s: Seq<u8>, count: nat)
    requires
        s.len() < 4 * count,
    ensures
        spec_deser_elems::<u32>(s, count) matches Err(p) && p.0 == TssError::InsufficientData,
    decreases count,
{
    if count > 0 {
        if s.len() >= 4 {
            lemma_deser_elems_u32_short(s.skip(4), (count - 1) as nat);
        }
    }
}

/// A `u32` sequence whose length prefix exceeds the available bytes fails
/// with `InsufficientData`, never an out-of-bounds access.
pub proof fn lemma_seq_u32_length_prefix_short(s: Seq<u8>)
    requires
        s.len() >= 4,
        s.len() - 4 < 4 * (u32_from_be(s[0], s[1], s[2], s[3]) as int),
    ensures
        Vec::<u32>::spec_deser(s) matches Err(p) && p.0 == TssError::InsufficientData,
{
    let count = u32_from_be(s[0], s[1], s[2], s[3]);
    lemma_deser_elems_u32_short(s.skip(4), count as nat);
}

} // verus!
