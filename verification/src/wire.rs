use vstd::prelude::*;

verus! {

// Big-endian byte composition and decomposition for the fixed-width unsigned
// integers of the TPM wire format. Every multi-byte integer on the wire is
// written most significant byte first.

/// The big-endian bytes of a `u16`: high byte, then low byte.
pub open spec fn u16_be_bytes(v: u16) -> Seq<u8> {
    seq![(v >> 8) as u8, v as u8]
}

/// The `u16` denoted by two big-endian bytes.
pub open spec fn u16_from_be(b0: u8, b1: u8) -> u16 {
    (b0 as u16) << 8 | (b1 as u16)
}

/// The big-endian bytes of a `u32`, most significant first.
pub open spec fn u32_be_bytes(v: u32) -> Seq<u8> {
    seq![(v >> 24) as u8, (v >> 16) as u8, (v >> 8) as u8, v as u8]
}

/// The `u32` denoted by four big-endian bytes.
pub open spec fn u32_from_be(b0: u8, b1: u8, b2: u8, b3: u8) -> u32 {
    (b0 as u32) << 24 | (b1 as u32) << 16 | (b2 as u32) << 8 | (b3 as u32)
}

/// The big-endian bytes of a `u64`, most significant first.
pub open spec fn u64_be_bytes(v: u64) -> Seq<u8> {
    seq![
        (v >> 56) as u8,
        (v >> 48) as u8,
        (v >> 40) as u8,
        (v >> 32) as u8,
        (v >> 24) as u8,
        (v >> 16) as u8,
        (v >> 8) as u8,
        v as u8,
    ]
}

/// The `u64` denoted by eight big-endian bytes.
pub open spec fn u64_from_be(
    b0: u8,
    b1: u8,
    b2: u8,
    b3: u8,
    b4: u8,
    b5: u8,
    b6: u8,
    b7: u8,
) -> u64 {
    (b0 as u64) << 56 | (b1 as u64) << 48 | (b2 as u64) << 40 | (b3 as u64) << 32 | (b4 as u64)
        << 24 | (b5 as u64) << 16 | (b6 as u64) << 8 | (b7 as u64)
}

/// Reading back the big-endian bytes of a `u16` yields the value again.
pub proof fn lemma_u16_be_roundtrip(v: u16)
    ensures
        u16_from_be(u16_be_bytes(v)[0], u16_be_bytes(v)[1]) == v,
{
    assert((((v >> 8) as u8) as u16) << 8 | ((v as u8) as u16) == v) by (bit_vector);
}

/// Reading back the big-endian bytes of a `u32` yields the value again.
pub proof fn lemma_u32_be_roundtrip(v: u32)
    ensures
        u32_from_be(u32_be_bytes(v)[0], u32_be_bytes(v)[1], u32_be_bytes(v)[2], u32_be_bytes(v)[3])
            == v,
{
    assert((((v >> 24) as u8) as u32) << 24 | (((v >> 16) as u8) as u32) << 16 | (((v >> 8) as u8)
        as u32) << 8 | ((v as u8) as u32) == v) by (bit_vector);
}

/// Reading back the big-endian bytes of a `u64` yields the value again.
pub proof fn lemma_u64_be_roundtrip(v: u64)
    ensures
        u64_from_be(
            u64_be_bytes(v)[0],
            u64_be_bytes(v)[1],
            u64_be_bytes(v)[2],
            u64_be_bytes(v)[3],
            u64_be_bytes(v)[4],
            u64_be_bytes(v)[5],
            u64_be_bytes(v)[6],
            u64_be_bytes(v)[7],
        ) == v,
{
    assert((((v >> 56) as u8) as u64) << 56 | (((v >> 48) as u8) as u64) << 48 | (((v >> 40) as u8)
        as u64) << 40 | (((v >> 32) as u8) as u64) << 32 | (((v >> 24) as u8) as u64) << 24 | (((v
        >> 16) as u8) as u64) << 16 | (((v >> 8) as u8) as u64) << 8 | ((v as u8) as u64) == v)
        by (bit_vector);
}

} // verus!
