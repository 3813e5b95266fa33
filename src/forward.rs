use vstd::prelude::*;

use crate::block::{BlockInfo, BlockNum};
use crate::directory::{is_latest, latest_block_number, DirEntry};
use crate::frame::{crc32c, crc32c_of};

verus! {

/// The first message of a connection: who is sending, and the latest block
/// that existed when the forwarder started.
#[derive(Debug)]
pub struct Handshake<'a> {
    pub id: &'a str,
    pub latest: BlockNum,
}

impl<'a> Handshake<'a> {
    pub fn new(id: &'a str, latest: BlockNum) -> (r: Self)
        ensures
            r.id == id,
            r.latest == latest,
    {
        Handshake { id, latest }
    }

    pub fn id(&self) -> (r: &'a str)
        ensures
            r == self.id,
    {
        self.id
    }

    pub fn latest(&self) -> (r: BlockNum)
        ensures
            r == self.latest,
    {
        self.latest
    }
}

/// The collector's answer to a handshake.
#[derive(Debug)]
pub enum HandshakeResponse<'a> {
    /// Stream from this position on.
    Go { start: BlockInfo },
    /// Give up, for the reason given.
    Abort { message: &'a str },
}

impl<'a> HandshakeResponse<'a> {
    pub fn go(start: BlockInfo) -> (r: Self)
        ensures
            r == (HandshakeResponse::Go { start }),
    {
        HandshakeResponse::Go { start }
    }

    pub fn abort(msg: &'a str) -> (r: Self)
        ensures
            r == (HandshakeResponse::Abort { message: msg }),
    {
        HandshakeResponse::Abort { message: msg }
    }
}

/// One entry sent to the collector, with the position just past it.
#[derive(Debug)]
pub struct Record {
    pub info: BlockInfo,
    pub item: Vec<u8>,
    pub crc: u32,
}

impl Record {
    pub fn new(info: BlockInfo, item: Vec<u8>, crc: u32) -> (r: Self)
        ensures
            r.info == info,
            r.item == item,
            r.crc == crc,
    {
        Record { info, item, crc }
    }

    pub fn info(&self) -> (r: BlockInfo)
        ensures
            r == self.info,
    {
        self.info
    }

    pub fn item(&self) -> (r: &[u8])
        ensures
            r@ == self.item@,
    {
        self.item.as_slice()
    }

    pub fn crc(&self) -> (r: u32)
        ensures
            r == self.crc,
    {
        self.crc
    }

    /// Whether the checksum matches the item.
    pub fn is_valid(&self) -> (r: bool)
        ensures
            r == (self.crc == crc32c_of(self.item@)),
    {
        self.crc == crc32c(self.item.as_slice())
    }
}

/// The collector's confirmation that everything up to a position is safe.
#[derive(Debug, Clone, Copy)]
pub struct Ack {
    pub info: BlockInfo,
}

impl Ack {
    pub fn new(info: BlockInfo) -> (r: Self)
        ensures
            r.info == info,
    {
        Ack { info }
    }

    pub fn zero() -> (r: Self)
        ensures
            r.info.number.0 == 0,
            r.info.offset == 0,
    {
        Ack { info: BlockInfo::zero() }
    }

    pub fn info(&self) -> (r: BlockInfo)
        ensures
            r == self.info,
    {
        self.info
    }
}

/// Keeps the last acknowledgement that moved to a later block, and says when
/// blocks can be retired.
pub struct AckTracker {
    prev: Ack,
}

impl View for AckTracker {
    type V = Ack;

    closed spec fn view(&self) -> Ack {
        self.prev
    }
}

impl AckTracker {
    pub fn new() -> (r: Self)
        ensures
            r@.info.number.0 == 0,
            r@.info.offset == 0,
    {
        AckTracker { prev: Ack::zero() }
    }

    /// Takes an acknowledgement in. Where it names a later block than any
    /// before, returns that block number: every block below it may go.
    /// Otherwise nothing changes.
    pub fn on_ack(&mut self, ack: Ack) -> (r: Option<BlockNum>)
        ensures
            r is Some <==> ack.info.number.0 > old(self)@.info.number.0,
            r is Some ==> r == Some(ack.info.number) && final(self)@ == ack,
            r is None ==> final(self)@ == old(self)@,
    {
        if ack.info.number.0 > self.prev.info.number.0 {
            self.prev = ack;
            Some(ack.info.number)
        } else {
            None
        }
    }
}

/// What to do after a block could not be opened.
#[derive(Debug, PartialEq, Eq, Structural)]
pub enum OpenRetry {
    /// Wait a second and try the same block again.
    Retry,
    /// Give the block up and look for the next one.
    Skip,
    /// The block cannot be skipped: it has the last possible number.
    Stuck,
}

/// How many times the forwarder tries again to open a block before it
/// skips it.
pub const OPEN_RETRIES: u8 = 3;

/// The position of the forward task: where to read next, the length of the
/// current block last seen, and the failed opens of the current block.
pub struct ForwardState {
    info: BlockInfo,
    size: u64,
    errors: u8,
}

pub ghost struct ForwardView {
    pub info: BlockInfo,
    pub size: u64,
    pub errors: nat,
}

impl View for ForwardState {
    type V = ForwardView;

    closed spec fn view(&self) -> ForwardView {
        ForwardView { info: self.info, size: self.size, errors: self.errors as nat }
    }
}

impl ForwardState {
    pub open spec fn wf(&self) -> bool {
        self@.errors <= OPEN_RETRIES
    }

    /// Starts at the position that the collector asked for.
    pub fn new(start: BlockInfo) -> (r: Self)
        ensures
            r.wf(),
            r@ == (ForwardView { info: start, size: 0, errors: 0 }),
    {
        ForwardState { info: start, size: 0, errors: 0 }
    }

    pub fn block_info(&self) -> (r: BlockInfo)
        ensures
            r == self@.info,
    {
        self.info
    }

    pub fn size(&self) -> (r: u64)
        ensures
            r == self@.size,
    {
        self.size
    }

    /// Moves to what the directory scan found, with a fresh open budget.
    pub fn on_update(&mut self, info: BlockInfo, size: u64)
        ensures
            final(self).wf(),
            final(self)@ == (ForwardView { info, size, errors: 0 }),
    {
        self.info = info;
        self.size = size;
        self.errors = 0;
    }

    /// Decides after a failed open: retry while the budget lasts, then move
    /// on to the next block number, from a length of zero.
    pub fn on_open_failure(&mut self) -> (r: OpenRetry)
        requires
            old(self).wf(),
        ensures
            final(self).wf(),
            old(self)@.errors < OPEN_RETRIES ==> r == OpenRetry::Retry && final(self)@ == (
            ForwardView { errors: old(self)@.errors + 1, ..old(self)@ }),
            old(self)@.errors == OPEN_RETRIES && old(self)@.info.number.0 < u64::MAX ==> r
                == OpenRetry::Skip && final(self)@ == (ForwardView {
                info: BlockInfo {
                    number: BlockNum((old(self)@.info.number.0 + 1) as u64),
                    offset: old(self)@.info.offset,
                },
                size: 0,
                errors: 0,
            }),
            old(self)@.errors == OPEN_RETRIES && old(self)@.info.number.0 == u64::MAX ==> r
                == OpenRetry::Stuck && final(self)@ == old(self)@,
    {
        if self.errors < OPEN_RETRIES {
            self.errors = self.errors + 1;
            OpenRetry::Retry
        } else if self.info.number.0 < u64::MAX {
            self.info.add_number(1);
            self.size = 0;
            self.errors = 0;
            OpenRetry::Skip
        } else {
            OpenRetry::Stuck
        }
    }

    /// Turns an entry that was read into the record to send. `next` is the
    /// reader's position after the entry; the record carries it, and the
    /// state moves there.
    pub fn on_entry(&mut self, next: BlockInfo, item: Vec<u8>, crc: u32) -> (r: Record)
        ensures
            r.info == next,
            r.item == item,
            r.crc == crc,
            final(self)@ == (ForwardView { info: next, ..old(self)@ }),
    {
        self.info = next;
        Record::new(next, item, crc)
    }
}

/// The seconds to wait after the given number of failed connects in a row:
/// one second five times, then five seconds five times, then ten seconds.
pub fn connect_delay(failures: u64) -> (r: u64)
    ensures
        failures < 5 ==> r == 1,
        5 <= failures < 10 ==> r == 5,
        failures >= 10 ==> r == 10,
{
    if failures < 5 {
        1
    } else if failures < 10 {
        5
    } else {
        10
    }
}

/// The forwarder's identity, directory and destination, and the latest block
/// that existed when it started.
#[derive(Debug)]
pub struct Forwarder {
    id: String,
    directory: String,
    address: String,
    latest: BlockNum,
}

pub ghost struct ForwarderView {
    pub id: Seq<char>,
    pub directory: Seq<char>,
    pub address: Seq<char>,
    pub latest: BlockNum,
}

impl View for Forwarder {
    type V = ForwarderView;

    closed spec fn view(&self) -> ForwarderView {
        ForwarderView {
            id: self.id@,
            directory: self.directory@,
            address: self.address@,
            latest: self.latest,
        }
    }
}

impl Forwarder {
    /// A forwarder for the block directory whose listing is `entries`; it
    /// remembers the latest block there for its handshakes.
    pub fn new(id: String, directory: String, address: String, entries: &Vec<DirEntry>) -> (r: Self)
        ensures
            r@.id == id@,
            r@.directory == directory@,
            r@.address == address@,
            is_latest(entries@, r@.latest.0),
    {
        let latest = latest_block_number(entries);
        Forwarder { id, directory, address, latest }
    }

    pub fn id(&self) -> (r: &str)
        ensures
            r@ == self@.id,
    {
        self.id.as_str()
    }

    pub fn directory(&self) -> (r: &str)
        ensures
            r@ == self@.directory,
    {
        self.directory.as_str()
    }

    pub fn address(&self) -> (r: &str)
        ensures
            r@ == self@.address,
    {
        self.address.as_str()
    }

    pub fn latest(&self) -> (r: BlockNum)
        ensures
            r == self@.latest,
    {
        self.latest
    }

    /// The handshake this forwarder opens each connection with.
    pub fn handshake(&self) -> (r: Handshake<'_>)
        ensures
            r.id@ == self@.id,
            r.latest == self@.latest,
    {
        Handshake::new(self.id.as_str(), self.latest)
    }
}

} // verus!
