use vstd::prelude::*;

use crate::block::{BlockInfo, BlockNum, HEADER_V1};
use crate::directory::Config;
use crate::frame::{
    be64, crc32c_of, encode_frame, entry_frame, push_be64, FRAME_OVERHEAD, HEADER_LEN,
};
use crate::reader::{
    frame_complete, frame_crc, frame_payload, frame_size, frame_valid, lemma_frame_round_trip,
};

verus! {

#[verifier::external_type_specification]
#[verifier::external_body]
pub struct ExPathBuf(std::path::PathBuf);

/// Why the writer could not go on.
#[derive(Debug)]
pub enum WriteError {
    /// The block directory does not exist or is not a directory.
    NoDir(std::path::PathBuf),
    /// The block file could not be created, written or synced.
    Io(std::io::Error),
    /// The entry is longer than the configured maximum.
    EntrySize,
    /// Every block number has been used.
    Overflow,
}

/// What the owner of the block files has to do for one step of the writer:
/// where `start` names a block, flush and sync the current file (if any) and
/// create that block's file, which must not exist yet; then append `bytes` to
/// the current file.
#[derive(Debug)]
pub struct BlockWrite {
    pub start: Option<BlockNum>,
    pub bytes: Vec<u8>,
}

/// The bytes that begin every block file.
pub open spec fn header_bytes() -> Seq<u8> {
    be64(HEADER_V1)
}

/// The most a block can hold: the block limit, or a header and one largest
/// frame where that is more.
pub open spec fn block_cap(c: Config) -> int {
    if c.max_block_len >= HEADER_LEN + FRAME_OVERHEAD + c.max_entry_len {
        c.max_block_len as int
    } else {
        HEADER_LEN + FRAME_OVERHEAD + c.max_entry_len
    }
}

/// The writer as a value: its limits, its position, the bytes of the current
/// block that it has handed out so far, and the entries framed in them.
pub ghost struct WriterView {
    pub config: Config,
    pub info: BlockInfo,
    pub contents: Seq<u8>,
    pub entries: Seq<Seq<u8>>,
}

/// Whether an append of a frame of `len` bytes at `offset` overruns the block.
pub open spec fn overruns(offset: u64, len: int, c: Config) -> bool {
    offset + len > c.max_block_len
}

/// Decides, entry by entry, what goes into which block file.
pub struct EntryWriter {
    config: Config,
    info: BlockInfo,
    contents: Ghost<Seq<u8>>,
    entries: Ghost<Seq<Seq<u8>>>,
}

impl View for EntryWriter {
    type V = WriterView;

    closed spec fn view(&self) -> WriterView {
        WriterView {
            config: self.config,
            info: self.info,
            contents: self.contents@,
            entries: self.entries@,
        }
    }
}

fn header_vec() -> (r: Vec<u8>)
    ensures
        r@ == header_bytes(),
{
    let mut out: Vec<u8> = Vec::new();
    push_be64(&mut out, HEADER_V1);
    assert(out@ =~= header_bytes());
    out
}

impl EntryWriter {
    /// The writer's invariant: the position is the length of the current
    /// block, which holds the header and then the frames of its entries, has
    /// a number, and stays within its cap.
    pub open spec fn wf(&self) -> bool {
        let v = self@;
        &&& v.info.offset == v.contents.len()
        &&& v.contents.len() >= HEADER_LEN
        &&& v.contents == header_bytes() + frames(v.entries)
        &&& forall|i: int| 0 <= i < v.entries.len() ==> (#[trigger] v.entries[i]).len() <= u16::MAX
        &&& v.info.number.0 >= 1
        &&& v.contents.len() <= block_cap(v.config)
    }

    /// Starts block `latest + 1` after the latest block found in the directory.
    pub fn open(latest: BlockNum, cfg: Config) -> (r: Result<(EntryWriter, BlockWrite), WriteError>)
        ensures
            r is Ok <==> latest.0 < u64::MAX,
            r is Err ==> r matches Err(WriteError::Overflow),
            r matches Ok((w, b)) ==> {
                &&& w.wf()
                &&& w@.config == cfg
                &&& w@.info == BlockInfo { number: BlockNum((latest.0 + 1) as u64), offset: HEADER_LEN }
                &&& w@.contents == header_bytes()
                &&& w@.entries == Seq::<Seq<u8>>::empty()
                &&& b.start == Some(BlockNum((latest.0 + 1) as u64))
                &&& b.bytes@ == header_bytes()
            },
    {
        if latest.0 == u64::MAX {
            return Err(WriteError::Overflow);
        }
        let n = latest.add(1);
        let bytes = header_vec();
        let w = EntryWriter {
            config: cfg,
            info: BlockInfo { number: n, offset: HEADER_LEN },
            contents: Ghost(bytes@),
            entries: Ghost(Seq::empty()),
        };
        proof {
            assert(bytes@ =~= header_bytes() + frames(Seq::empty()));
        }
        Ok((w, BlockWrite { start: Some(n), bytes }))
    }

    /// The position after the last byte handed out.
    pub fn block_info(&self) -> (r: BlockInfo)
        ensures
            r == self@.info,
    {
        self.info
    }

    pub fn config(&self) -> (r: Config)
        ensures
            r == self@.config,
    {
        self.config
    }

    /// Moves on to the next block; returns the bytes that begin it.
    fn start_new_block(&mut self) -> (r: Vec<u8>)
        requires
            old(self).wf(),
            old(self)@.info.number.0 < u64::MAX,
        ensures
            final(self).wf(),
            final(self)@.config == old(self)@.config,
            final(self)@.info == (BlockInfo {
                number: BlockNum((old(self)@.info.number.0 + 1) as u64),
                offset: HEADER_LEN,
            }),
            final(self)@.contents == header_bytes(),
            final(self)@.entries == Seq::<Seq<u8>>::empty(),
            r@ == header_bytes(),
    {
        let n = self.info.number.add(1);
        let bytes = header_vec();
        self.info = BlockInfo { number: n, offset: HEADER_LEN };
        self.contents = Ghost(bytes@);
        self.entries = Ghost(Seq::empty());
        proof {
            assert(bytes@ =~= header_bytes() + frames(Seq::empty()));
        }
        bytes
    }

    /// Frames `entry` and places it: in the current block, or first in a new
    /// block where the frame would carry the current one past its limit.
    pub fn append(&mut self, entry: &[u8]) -> (r: Result<BlockWrite, WriteError>)
        requires
            old(self).wf(),
        ensures
            final(self).wf(),
            final(self)@.config == old(self)@.config,
            entry@.len() > old(self)@.config.max_entry_len ==> r matches Err(WriteError::EntrySize),
            entry@.len() <= old(self)@.config.max_entry_len && overruns(
                old(self)@.info.offset,
                entry_frame(entry@).len() as int,
                old(self)@.config,
            ) && old(self)@.info.number.0 == u64::MAX ==> r matches Err(WriteError::Overflow),
            r is Err ==> r matches Err(WriteError::EntrySize) || r matches Err(WriteError::Overflow),
            r is Err ==> final(self)@ == old(self)@,
            r is Ok <==> (entry@.len() <= old(self)@.config.max_entry_len && !(overruns(
                old(self)@.info.offset,
                entry_frame(entry@).len() as int,
                old(self)@.config,
            ) && old(self)@.info.number.0 == u64::MAX)),
            r matches Ok(w) ==> (if overruns(
                old(self)@.info.offset,
                entry_frame(entry@).len() as int,
                old(self)@.config,
            ) {
                &&& w.start == Some(BlockNum((old(self)@.info.number.0 + 1) as u64))
                &&& w.bytes@ == header_bytes() + entry_frame(entry@)
                &&& final(self)@.contents == header_bytes() + entry_frame(entry@)
                &&& final(self)@.entries == seq![entry@]
                &&& final(self)@.info.number.0 == old(self)@.info.number.0 + 1
            } else {
                &&& w.start == None::<BlockNum>
                &&& w.bytes@ == entry_frame(entry@)
                &&& final(self)@.contents == old(self)@.contents + entry_frame(entry@)
                &&& final(self)@.entries == old(self)@.entries.push(entry@)
                &&& final(self)@.info.number == old(self)@.info.number
            }),
            r is Ok && HEADER_LEN + FRAME_OVERHEAD + old(self)@.config.max_entry_len
                <= old(self)@.config.max_block_len ==> final(self)@.info.offset
                <= old(self)@.config.max_block_len,
    {
        if entry.len() > self.config.max_entry_len as usize {
            return Err(WriteError::EntrySize);
        }
        let frame = encode_frame(entry);
        let flen = frame.len() as u64;
        let offset = self.info.offset;
        let max = self.config.max_block_len;
        let mut start: Option<BlockNum> = None;
        let mut bytes: Vec<u8> = Vec::new();
        if offset > max || flen > max - offset {
            if self.info.number.0 == u64::MAX {
                return Err(WriteError::Overflow);
            }
            bytes = self.start_new_block();
            start = Some(self.info.number);
        }
        let ghost before = self@;
        bytes.extend_from_slice(frame.as_slice());
        self.info.add_offset(flen);
        self.contents = Ghost(self.contents@ + frame@);
        self.entries = Ghost(self.entries@.push(entry@));
        proof {
            lemma_frames_push(before.entries, entry@);
            assert(self.contents@ =~= header_bytes() + frames(self.entries@));
            if start is Some {
                assert(before.entries.push(entry@) =~= seq![entry@]);
                assert(frames(Seq::<Seq<u8>>::empty()) =~= Seq::<u8>::empty());
                assert(self.contents@ =~= header_bytes() + entry_frame(entry@));
            }
        }
        Ok(BlockWrite { start, bytes })
    }
}

/// The frames of a run of payloads, one after another.
pub open spec fn frames(ps: Seq<Seq<u8>>) -> Seq<u8>
    decreases ps.len(),
{
    if ps.len() == 0 {
        seq![]
    } else {
        entry_frame(ps[0]) + frames(ps.drop_first())
    }
}

proof fn lemma_frames_push(ps: Seq<Seq<u8>>, p: Seq<u8>)
    ensures
        frames(ps.push(p)) == frames(ps) + entry_frame(p),
    decreases ps.len(),
{
    if ps.len() == 0 {
        assert(ps.push(p).drop_first() =~= ps);
        assert(frames(ps.push(p)) =~= frames(ps) + entry_frame(p));
    } else {
        lemma_frames_push(ps.drop_first(), p);
        assert(ps.push(p).drop_first() =~= ps.drop_first().push(p));
        assert(frames(ps.push(p)) =~= frames(ps) + entry_frame(p));
    }
}

/// Entries read back in the order they were appended: where a block holds the
/// frames of `ps`, the bytes from the start of the `k`-th frame, with
/// whatever follows the block's frames, begin with a whole frame that carries
/// `ps[k]` and its checksum, and after that frame come the frames of the
/// entries after it.
pub proof fn lemma_block_reads_in_order(ps: Seq<Seq<u8>>, k: int, rest: Seq<u8>)
    requires
        0 <= k < ps.len(),
        forall|i: int| 0 <= i < ps.len() ==> (#[trigger] ps[i]).len() <= u16::MAX,
    ensures
        ({
            let data = frames(ps.subrange(k, ps.len() as int)) + rest;
            &&& frame_complete(data)
            &&& frame_valid(data)
            &&& frame_payload(data) == ps[k]
            &&& frame_crc(data) == crc32c_of(ps[k])
            &&& data.subrange(frame_size(data), data.len() as int) == frames(
                ps.subrange(k + 1, ps.len() as int),
            ) + rest
        }),
{
    let s = ps.subrange(k, ps.len() as int);
    let tail = frames(ps.subrange(k + 1, ps.len() as int)) + rest;
    assert(s.drop_first() =~= ps.subrange(k + 1, ps.len() as int));
    assert(s[0] == ps[k]);
    let data = frames(s) + rest;
    assert(data =~= entry_frame(ps[k]) + tail);
    lemma_frame_round_trip(ps[k], tail);
    assert(data.subrange(frame_size(data), data.len() as int) =~= tail);
}

} // verus!
