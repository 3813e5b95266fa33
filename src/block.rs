use vstd::prelude::*;

verus! {

/// The header of version 1: the ASCII bytes `block`, the version byte 1 and
/// two reserved zero bytes, read as a big-endian integer.
pub const HEADER_V1: u64 = 0x626c_6f63_6b01_0000;

/// The five magic bytes `block`, as the top 40 bits of a header.
pub const HEADER_MAGIC: u64 = 0x62_6c6f_636b;

/// Whether a header value starts with the magic bytes.
pub open spec fn has_magic(h: u64) -> bool {
    h >> 24u64 == HEADER_MAGIC
}

/// The version byte of a header value.
pub open spec fn version_of(h: u64) -> u8 {
    ((h & 0xFF_0000u64) >> 16u64) as u8
}

/// A header value with its version byte replaced.
pub open spec fn set_version(h: u64, v: u8) -> u64 {
    (h & 0xFFFF_FFFF_FF00_FFFFu64) | ((v as u64) << 16u64)
}

/// The 8-byte header at the start of each block file.
#[derive(Debug, Clone, Copy)]
pub struct BlockHeader(pub u64);

impl BlockHeader {
    /// The header of the current version.
    pub fn new() -> (r: Self)
        ensures
            r.0 == HEADER_V1,
    {
        BlockHeader(HEADER_V1)
    }

    /// Reads a header value: `None` unless it carries the magic bytes.
    pub fn from_u64(n: u64) -> (r: Option<Self>)
        ensures
            r == (if has_magic(n) { Some(BlockHeader(n)) } else { None::<BlockHeader> }),
    {
        if n >> 24u64 == HEADER_MAGIC {
            Some(BlockHeader(n))
        } else {
            None
        }
    }

    pub fn to_u64(self) -> (r: u64)
        ensures
            r == self.0,
    {
        self.0
    }

    pub fn version(self) -> (r: u8)
        ensures
            r == version_of(self.0),
    {
        ((self.0 & 0xFF_0000u64) >> 16u64) as u8
    }

    pub fn with_version(self, v: u8) -> (r: Self)
        ensures
            r.0 == set_version(self.0, v),
    {
        BlockHeader((self.0 & 0xFFFF_FFFF_FF00_FFFFu64) | ((v as u64) << 16u64))
    }
}

impl Default for BlockHeader {
    fn default() -> (r: Self)
        ensures
            r.0 == HEADER_V1,
    {
        BlockHeader::new()
    }
}

/// Setting a version keeps the magic bytes, and reading it back gives the
/// version that was set.
pub proof fn lemma_header_version_round_trip(h: u64, v: u8)
    ensures
        version_of(set_version(h, v)) == v,
        has_magic(h) ==> has_magic(set_version(h, v)),
{
    assert(version_of(set_version(h, v)) == v) by (bit_vector);
    assert(h >> 24u64 == 0x62_6c6f_636bu64 ==> set_version(h, v) >> 24u64 == 0x62_6c6f_636bu64)
        by (bit_vector);
}

/// For every version byte, the header of that version decodes and reports
/// the same version.
pub proof fn lemma_header_with_version_decodes(v: u8)
    ensures
        has_magic(set_version(HEADER_V1, v)),
        version_of(set_version(HEADER_V1, v)) == v,
{
    assert(0x626c_6f63_6b01_0000u64 >> 24u64 == 0x62_6c6f_636bu64) by (bit_vector);
    lemma_header_version_round_trip(HEADER_V1, v);
}

/// A block number. Zero stands for "no block yet"; the first block is 1.
#[derive(Debug, Clone, Copy, PartialEq, Eq, PartialOrd, Ord, Structural)]
pub struct BlockNum(pub u64);

impl BlockNum {
    pub fn zero() -> (r: Self)
        ensures
            r.0 == 0,
    {
        BlockNum(0)
    }

    pub fn is_zero(&self) -> (r: bool)
        ensures
            r == (self.0 == 0),
    {
        self.0 == 0
    }

    pub fn value(&self) -> (r: u64)
        ensures
            r == self.0,
    {
        self.0
    }

    /// The number `n` places further on; it must not pass `u64::MAX`.
    pub fn add(&self, n: u64) -> (r: BlockNum)
        requires
            self.0 + n <= u64::MAX,
        ensures
            r.0 == self.0 + n,
    {
        BlockNum(self.0 + n)
    }
}

impl From<u64> for BlockNum {
    fn from(n: u64) -> (r: Self)
        ensures
            r.0 == n,
    {
        BlockNum(n)
    }
}

impl vstd::std_specs::convert::FromSpecImpl<u64> for BlockNum {
    open spec fn obeys_from_spec() -> bool {
        true
    }

    open spec fn from_spec(n: u64) -> BlockNum {
        BlockNum(n)
    }
}

/// A position: a block and a byte offset from the start of its file.
#[derive(Debug, Clone, Copy, PartialEq, Eq, PartialOrd, Ord, Structural)]
pub struct BlockInfo {
    pub number: BlockNum,
    pub offset: u64,
}

/// Lexicographic order on (number, offset).
pub open spec fn info_lt(a: BlockInfo, b: BlockInfo) -> bool {
    a.number.0 < b.number.0 || (a.number.0 == b.number.0 && a.offset < b.offset)
}

impl BlockInfo {
    pub fn zero() -> (r: Self)
        ensures
            r.number.0 == 0,
            r.offset == 0,
    {
        BlockInfo { number: BlockNum::zero(), offset: 0 }
    }

    pub fn is_zero(&self) -> (r: bool)
        ensures
            r == (self.number.0 == 0 && self.offset == 0),
    {
        self.number.is_zero() && self.offset == 0
    }

    pub fn number(&self) -> (r: BlockNum)
        ensures
            r == self.number,
    {
        self.number
    }

    pub fn with_number(self, n: BlockNum) -> (r: Self)
        ensures
            r.number == n,
            r.offset == self.offset,
    {
        BlockInfo { number: n, offset: self.offset }
    }

    pub fn set_number(&mut self, n: BlockNum)
        ensures
            final(self).number == n,
            final(self).offset == old(self).offset,
    {
        self.number = n;
    }

    pub fn add_number(&mut self, n: u64)
        requires
            old(self).number.0 + n <= u64::MAX,
        ensures
            final(self).number.0 == old(self).number.0 + n,
            final(self).offset == old(self).offset,
    {
        self.number = self.number.add(n);
    }

    pub fn offset(&self) -> (r: u64)
        ensures
            r == self.offset,
    {
        self.offset
    }

    pub fn with_offset(self, o: u64) -> (r: Self)
        ensures
            r.number == self.number,
            r.offset == o,
    {
        BlockInfo { number: self.number, offset: o }
    }

    pub fn set_offset(&mut self, o: u64)
        ensures
            final(self).number == old(self).number,
            final(self).offset == o,
    {
        self.offset = o;
    }

    pub fn add_offset(&mut self, o: u64)
        requires
            old(self).offset + o <= u64::MAX,
        ensures
            final(self).number == old(self).number,
            final(self).offset == old(self).offset + o,
    {
        self.offset = self.offset + o;
    }

    /// Whether `self` comes strictly before `other` in (number, offset) order.
    pub fn precedes(&self, other: &BlockInfo) -> (r: bool)
        ensures
            r == info_lt(*self, *other),
    {
        self.number.0 < other.number.0 || (self.number.0 == other.number.0 && self.offset
            < other.offset)
    }
}

/// A block file handle together with the position reached in it.
#[derive(Debug)]
pub struct Block<F> {
    pub info: BlockInfo,
    pub file: F,
}

impl<F> Block<F> {
    pub fn new(f: F) -> (r: Self)
        ensures
            r.info.number.0 == 0,
            r.info.offset == 0,
            r.file == f,
    {
        Block { info: BlockInfo::zero(), file: f }
    }

    pub fn info(&self) -> (r: &BlockInfo)
        ensures
            *r == self.info,
    {
        &self.info
    }

    pub fn with_info(self, i: BlockInfo) -> (r: Self)
        ensures
            r.info == i,
            r.file == self.file,
    {
        Block { info: i, file: self.file }
    }

    pub fn info_mut(&mut self) -> (r: &mut BlockInfo)
        ensures
            *r == old(self).info,
            final(self).info == *final(r),
            final(self).file == old(self).file,
    {
        &mut self.info
    }

    pub fn file_mut(&mut self) -> (r: &mut F)
        ensures
            *r == old(self).file,
            final(self).file == *final(r),
            final(self).info == old(self).info,
    {
        &mut self.file
    }
}

} // verus!
