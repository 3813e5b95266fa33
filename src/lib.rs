//! An append-only block log: the on-disk block format, the decisions of its
//! writer and reader, the directory rules for finding and retiring blocks, and
//! the state machines of the forwarder that streams blocks to a remote
//! collector.

pub mod block;
pub mod directory;
pub mod forward;
pub mod frame;
pub mod logger;
pub mod reader;
pub mod writer;

pub use block::{Block, BlockHeader, BlockInfo, BlockNum};
pub use directory::{
    block_file_name, blocks_to_delete, find_updated_block, is_block_entry, latest_block_number,
    read_block_num, Config, DirEntry,
};
pub use forward::{
    connect_delay, Ack, AckTracker, ForwardState, Forwarder, Handshake, HandshakeResponse,
    OpenRetry, Record,
};
pub use frame::encode_frame;
pub use logger::{Actor, Command, Effect, Event, LogError, Phase, Wait};
pub use reader::{read_header, EntryReader, ReadError};
pub use writer::{BlockWrite, EntryWriter, WriteError};
