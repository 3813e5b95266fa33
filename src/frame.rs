use vstd::prelude::*;

verus! {

/// The CRC-32C (Castagnoli) checksum of a byte sequence.
pub uninterp spec fn crc32c_of(data: Seq<u8>) -> u32;

/// Relies on `crc::Crc::<u32>::checksum` with the `CRC_32_ISCSI` parameters
/// (CRC-32C): the checksum is a function of the bytes alone.
#[verifier::external_body]
pub(crate) fn crc32c(data: &[u8]) -> (r: u32)
    ensures
        r == crc32c_of(data@),
{
    crc::Crc::<u32>::new(&crc::CRC_32_ISCSI).checksum(data)
}

/// Length in bytes of the length prefix and of the checksum of a frame.
pub const FRAME_OVERHEAD: u64 = 6;

/// Length in bytes of a block header.
pub const HEADER_LEN: u64 = 8;

/// Big-endian bytes of a 16-bit value.
pub open spec fn be16(n: u16) -> Seq<u8> {
    seq![((n >> 8u16) & 0xffu16) as u8, (n & 0xffu16) as u8]
}

/// Big-endian bytes of a 32-bit value.
pub open spec fn be32(n: u32) -> Seq<u8> {
    seq![
        ((n >> 24u32) & 0xffu32) as u8,
        ((n >> 16u32) & 0xffu32) as u8,
        ((n >> 8u32) & 0xffu32) as u8,
        (n & 0xffu32) as u8,
    ]
}

/// Big-endian bytes of a 64-bit value.
pub open spec fn be64(n: u64) -> Seq<u8> {
    seq![
        ((n >> 56u64) & 0xffu64) as u8,
        ((n >> 48u64) & 0xffu64) as u8,
        ((n >> 40u64) & 0xffu64) as u8,
        ((n >> 32u64) & 0xffu64) as u8,
        ((n >> 24u64) & 0xffu64) as u8,
        ((n >> 16u64) & 0xffu64) as u8,
        ((n >> 8u64) & 0xffu64) as u8,
        (n & 0xffu64) as u8,
    ]
}

/// The 16-bit value of two big-endian bytes.
pub open spec fn be16_value(b0: u8, b1: u8) -> u16 {
    ((b0 as u16) << 8u16) | (b1 as u16)
}

/// The 32-bit value of four big-endian bytes.
pub open spec fn be32_value(b0: u8, b1: u8, b2: u8, b3: u8) -> u32 {
    ((b0 as u32) << 24u32) | ((b1 as u32) << 16u32) | ((b2 as u32) << 8u32) | (b3 as u32)
}

/// The bytes of an entry frame: the payload length, the payload, and the
/// checksum, both numbers big-endian.
pub open spec fn frame_bytes(payload: Seq<u8>, crc: u32) -> Seq<u8> {
    be16(payload.len() as u16) + payload + be32(crc)
}

/// The frame that the writer stores for a payload.
pub open spec fn entry_frame(payload: Seq<u8>) -> Seq<u8> {
    frame_bytes(payload, crc32c_of(payload))
}

pub proof fn lemma_be16_round_trip(n: u16)
    ensures
        be16_value(be16(n)[0], be16(n)[1]) == n,
{
    assert(((((n >> 8u16) & 0xffu16) as u8 as u16) << 8u16) | (((n & 0xffu16) as u8) as u16) == n)
        by (bit_vector);
}

pub proof fn lemma_be32_round_trip(n: u32)
    ensures
        be32_value(be32(n)[0], be32(n)[1], be32(n)[2], be32(n)[3]) == n,
{
    assert((((((n >> 24u32) & 0xffu32) as u8) as u32) << 24u32) | (((((n >> 16u32) & 0xffu32)
        as u8) as u32) << 16u32) | (((((n >> 8u32) & 0xffu32) as u8) as u32) << 8u32) | (((n
        & 0xffu32) as u8) as u32) == n) by (bit_vector);
}

/// Four bytes determine their big-endian value, and the value the bytes.
pub proof fn lemma_be32_injective(a0: u8, a1: u8, a2: u8, a3: u8, b0: u8, b1: u8, b2: u8, b3: u8)
    ensures
        be32_value(a0, a1, a2, a3) == be32_value(b0, b1, b2, b3) ==> (a0 == b0 && a1 == b1 && a2
            == b2 && a3 == b3),
{
    assert(((a0 as u32) << 24u32) | ((a1 as u32) << 16u32) | ((a2 as u32) << 8u32) | (a3 as u32)
        == ((b0 as u32) << 24u32) | ((b1 as u32) << 16u32) | ((b2 as u32) << 8u32) | (b3 as u32)
        ==> (a0 == b0 && a1 == b1 && a2 == b2 && a3 == b3)) by (bit_vector);
}

/// Appends the big-endian bytes of a 16-bit value.
pub fn push_be16(out: &mut Vec<u8>, n: u16)
    ensures
        final(out)@ == old(out)@ + be16(n),
{
    out.push(((n >> 8u16) & 0xffu16) as u8);
    out.push((n & 0xffu16) as u8);
}

/// Appends the big-endian bytes of a 32-bit value.
pub fn push_be32(out: &mut Vec<u8>, n: u32)
    ensures
        final(out)@ == old(out)@ + be32(n),
{
    out.push(((n >> 24u32) & 0xffu32) as u8);
    out.push(((n >> 16u32) & 0xffu32) as u8);
    out.push(((n >> 8u32) & 0xffu32) as u8);
    out.push((n & 0xffu32) as u8);
}

/// Appends the big-endian bytes of a 64-bit value.
pub fn push_be64(out: &mut Vec<u8>, n: u64)
    ensures
        final(out)@ == old(out)@ + be64(n),
{
    out.push(((n >> 56u64) & 0xffu64) as u8);
    out.push(((n >> 48u64) & 0xffu64) as u8);
    out.push(((n >> 40u64) & 0xffu64) as u8);
    out.push(((n >> 32u64) & 0xffu64) as u8);
    out.push(((n >> 24u64) & 0xffu64) as u8);
    out.push(((n >> 16u64) & 0xffu64) as u8);
    out.push(((n >> 8u64) & 0xffu64) as u8);
    out.push((n & 0xffu64) as u8);
}

/// Appends the frame of `payload`: its length, the payload and its CRC-32C.
pub fn push_frame(out: &mut Vec<u8>, payload: &[u8])
    requires
        payload@.len() <= u16::MAX,
    ensures
        final(out)@ == old(out)@ + entry_frame(payload@),
{
    let crc = crc32c(payload);
    push_be16(out, payload.len() as u16);
    out.extend_from_slice(payload);
    push_be32(out, crc);
}

/// The frame of `payload` as it is stored in a block.
pub fn encode_frame(payload: &[u8]) -> (r: Vec<u8>)
    requires
        payload@.len() <= u16::MAX,
    ensures
        r@ == entry_frame(payload@),
        r@.len() == payload@.len() + FRAME_OVERHEAD,
{
    let mut out: Vec<u8> = Vec::new();
    push_frame(&mut out, payload);
    assert(out@ =~= entry_frame(payload@));
    out
}

} // verus!
