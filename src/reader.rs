use vstd::prelude::*;

use crate::block::{has_magic, info_lt, version_of, BlockHeader, BlockInfo};
use crate::frame::{
    be16, be16_value, be32, be32_value, crc32c, crc32c_of, entry_frame, frame_bytes, lemma_be16_round_trip,
    lemma_be32_injective, lemma_be32_round_trip, FRAME_OVERHEAD, HEADER_LEN,
};

verus! {

#[verifier::external_type_specification]
#[verifier::external_body]
pub struct ExIoError(std::io::Error);

/// Relies on `std::io::Error::from(ErrorKind::UnexpectedEof)`: the error that
/// a read reports when the data ends early.
#[verifier::external_body]
fn unexpected_eof() -> std::io::Error {
    std::io::Error::from(std::io::ErrorKind::UnexpectedEof)
}

/// Why a block could not be read.
#[derive(Debug)]
pub enum ReadError {
    /// The data ended inside a frame, or the file could not be read.
    Io(std::io::Error),
    /// A frame's checksum does not match its payload.
    Crc,
    /// The header is not a block header (`None`) or has an unsupported version.
    Header(Option<u8>),
}

/// Whether `data`, the bytes of a block from a frame boundary on, holds a
/// whole frame at its start.
pub open spec fn frame_complete(data: Seq<u8>) -> bool {
    data.len() >= 2 && data.len() >= frame_size(data)
}

/// The frame length that the first two bytes of `data` announce.
pub open spec fn payload_len(data: Seq<u8>) -> int {
    be16_value(data[0], data[1]) as int
}

/// The length of the whole frame at the start of `data`.
pub open spec fn frame_size(data: Seq<u8>) -> int {
    payload_len(data) + FRAME_OVERHEAD
}

/// The payload of the frame at the start of `data`.
pub open spec fn frame_payload(data: Seq<u8>) -> Seq<u8> {
    data.subrange(2, 2 + payload_len(data))
}

/// The checksum stored in the frame at the start of `data`.
pub open spec fn frame_crc(data: Seq<u8>) -> u32 {
    let k = 2 + payload_len(data);
    be32_value(data[k], data[k + 1], data[k + 2], data[k + 3])
}

/// Whether the frame at the start of `data` carries the checksum of its payload.
pub open spec fn frame_valid(data: Seq<u8>) -> bool {
    frame_crc(data) == crc32c_of(frame_payload(data))
}

/// What a header value that is not accepted reports: no version where the
/// magic bytes are missing, else its version.
pub open spec fn header_fault(h: u64) -> Option<u8> {
    if has_magic(h) {
        Some(version_of(h))
    } else {
        None
    }
}

/// Checks the header value read from the start of a block file.
pub fn read_header(h: u64) -> (r: Result<BlockHeader, ReadError>)
    ensures
        r is Ok <==> (has_magic(h) && version_of(h) == 1),
        r matches Ok(b) ==> b.0 == h,
        r is Ok || r matches Err(ReadError::Header(_)),
        r matches Err(ReadError::Header(o)) ==> o == header_fault(h),
{
    match BlockHeader::from_u64(h) {
        Some(b) => {
            let v = b.version();
            if v != 1 {
                Err(ReadError::Header(Some(v)))
            } else {
                Ok(b)
            }
        },
        None => Err(ReadError::Header(None)),
    }
}

/// Walks the frames of one block, keeping the position of the next frame.
pub struct EntryReader {
    info: BlockInfo,
}

impl View for EntryReader {
    type V = BlockInfo;

    closed spec fn view(&self) -> BlockInfo {
        self.info
    }
}

impl EntryReader {
    /// Starts reading the block `info.number`, whose file begins with the
    /// header value `header`. An offset of zero stands for the first frame.
    pub fn open(info: BlockInfo, header: u64) -> (r: Result<Self, ReadError>)
        ensures
            r is Ok <==> (has_magic(header) && version_of(header) == 1),
            r is Ok || r matches Err(ReadError::Header(_)),
            r matches Err(ReadError::Header(o)) ==> o == header_fault(header),
            r matches Ok(e) ==> e@ == (if info.offset == 0 {
                BlockInfo { number: info.number, offset: HEADER_LEN }
            } else {
                info
            }),
    {
        match read_header(header) {
            Ok(_) => {
                let info = if info.offset == 0 {
                    info.with_offset(HEADER_LEN)
                } else {
                    info
                };
                Ok(EntryReader { info })
            },
            Err(e) => Err(e),
        }
    }

    /// The position of the next frame.
    pub fn block_info(&self) -> (r: BlockInfo)
        ensures
            r == self@,
    {
        self.info
    }

    /// Moves to another position within the same block.
    pub fn reset(&mut self, info: BlockInfo)
        requires
            info.number == old(self)@.number,
        ensures
            final(self)@ == info,
    {
        self.info = info;
    }

    /// Decodes the frame at the start of `data`, the bytes of the block from
    /// the current position to its end as far as they are known.
    ///
    /// No bytes means no more entries; a frame cut short is an I/O error; a
    /// whole frame moves the position past it, and is returned if its
    /// checksum matches.
    pub fn next_entry(&mut self, data: &[u8]) -> (r: Result<Option<(Vec<u8>, u32)>, ReadError>)
        requires
            old(self)@.offset + data@.len() <= u64::MAX,
        ensures
            r matches Ok(None) <==> data@.len() == 0,
            r matches Err(ReadError::Io(_)) <==> (data@.len() > 0 && !frame_complete(data@)),
            r matches Err(ReadError::Crc) <==> (frame_complete(data@) && !frame_valid(data@)),
            r matches Ok(Some(_)) <==> (frame_complete(data@) && frame_valid(data@)),
            !(r matches Err(ReadError::Header(_))),
            r matches Ok(Some((p, c))) ==> p@ == frame_payload(data@) && c == frame_crc(data@),
            frame_complete(data@) ==> final(self)@ == (BlockInfo {
                number: old(self)@.number,
                offset: (old(self)@.offset + frame_size(data@)) as u64,
            }),
            !frame_complete(data@) ==> final(self)@ == old(self)@,
            frame_complete(data@) ==> info_lt(old(self)@, final(self)@),
    {
        let n = data.len();
        if n == 0 {
            return Ok(None);
        }
        if n < 2 {
            return Err(ReadError::Io(unexpected_eof()));
        }
        let len: usize = (((data[0] as u16) << 8u16) | (data[1] as u16)) as usize;
        if n < len + 6 {
            return Err(ReadError::Io(unexpected_eof()));
        }
        let mut payload: Vec<u8> = Vec::new();
        let mut i: usize = 2;
        while i < 2 + len
            invariant
                2 <= i <= 2 + len,
                2 + len <= n,
                n == data@.len(),
                payload@ == data@.subrange(2, i as int),
            decreases 2 + len - i,
        {
            payload.push(data[i]);
            i = i + 1;
            assert(payload@ =~= data@.subrange(2, i as int));
        }
        let k = 2 + len;
        let crc: u32 = ((data[k] as u32) << 24u32) | ((data[k + 1] as u32) << 16u32) | ((
        data[k + 2] as u32) << 8u32) | (data[k + 3] as u32);
        self.info.add_offset((len + 6) as u64);
        if crc != crc32c(payload.as_slice()) {
            return Err(ReadError::Crc);
        }
        Ok(Some((payload, crc)))
    }
}

/// The frame bytes of any payload and checksum parse back into them.
pub proof fn lemma_frame_bytes_parse(p: Seq<u8>, c: u32, rest: Seq<u8>)
    requires
        p.len() <= u16::MAX,
    ensures
        frame_complete(frame_bytes(p, c) + rest),
        frame_payload(frame_bytes(p, c) + rest) == p,
        frame_crc(frame_bytes(p, c) + rest) == c,
        frame_size(frame_bytes(p, c) + rest) == p.len() + FRAME_OVERHEAD,
{
    let d = frame_bytes(p, c) + rest;
    let n = p.len() as u16;
    lemma_be16_round_trip(n);
    assert(d[0] == be16(n)[0] && d[1] == be16(n)[1]);
    assert(payload_len(d) == p.len());
    assert(frame_payload(d) =~= p);
    lemma_be32_round_trip(c);
    let k: int = 2 + p.len() as int;
    assert(d[k] == be32(c)[0] && d[k + 1] == be32(c)[1] && d[k + 2] == be32(c)[2] && d[k + 3]
        == be32(c)[3]);
}

/// A stored frame reads back as its payload and checksum, whatever follows it.
pub proof fn lemma_frame_round_trip(p: Seq<u8>, rest: Seq<u8>)
    requires
        p.len() <= u16::MAX,
    ensures
        frame_complete(entry_frame(p) + rest),
        frame_valid(entry_frame(p) + rest),
        frame_payload(entry_frame(p) + rest) == p,
        frame_crc(entry_frame(p) + rest) == crc32c_of(p),
        frame_size(entry_frame(p) + rest) == p.len() + FRAME_OVERHEAD,
{
    lemma_frame_bytes_parse(p, crc32c_of(p), rest);
}

/// Flipping one bit of a stored frame's checksum makes the frame fail its
/// check.
pub proof fn lemma_checksum_bit_flip_detected(p: Seq<u8>, rest: Seq<u8>, j: int, bit: u8)
    requires
        p.len() <= u16::MAX,
        0 <= j < 4,
        bit < 8,
    ensures
        ({
            let d = entry_frame(p) + rest;
            let i: int = 2 + p.len() + j;
            let e = d.update(i, d[i] ^ (1u8 << bit));
            frame_complete(e) && !frame_valid(e)
        }),
{
    let d = entry_frame(p) + rest;
    let i: int = 2 + p.len() + j;
    let x = d[i];
    let e = d.update(i, x ^ (1u8 << bit));
    lemma_frame_round_trip(p, rest);
    assert(x ^ (1u8 << bit) != x) by (bit_vector)
        requires
            bit < 8,
    ;
    assert(e[0] == d[0] && e[1] == d[1]);
    assert(frame_payload(e) =~= frame_payload(d));
    let k: int = 2 + p.len() as int;
    lemma_be32_injective(d[k], d[k + 1], d[k + 2], d[k + 3], e[k], e[k + 1], e[k + 2], e[k + 3]);
}

/// Flipping one bit of a stored frame's payload makes the frame fail its
/// check exactly when the altered payload has another checksum.
pub proof fn lemma_payload_bit_flip(p: Seq<u8>, rest: Seq<u8>, j: int, bit: u8)
    requires
        p.len() <= u16::MAX,
        0 <= j < p.len(),
        bit < 8,
    ensures
        ({
            let d = entry_frame(p) + rest;
            let e = d.update(2 + j, d[2 + j] ^ (1u8 << bit));
            let q = p.update(j, p[j] ^ (1u8 << bit));
            &&& frame_complete(e)
            &&& frame_payload(e) == q
            &&& (!frame_valid(e) <==> crc32c_of(q) != crc32c_of(p))
        }),
{
    let d = entry_frame(p) + rest;
    let y = p[j] ^ (1u8 << bit);
    let e = d.update(2 + j, d[2 + j] ^ (1u8 << bit));
    let q = p.update(j, y);
    let c = crc32c_of(p);
    assert(d[2 + j] == p[j]);
    assert(e =~= frame_bytes(q, c) + rest);
    lemma_frame_bytes_parse(q, c, rest);
}

} // verus!
