use bogger::{
    block_file_name, blocks_to_delete, connect_delay, encode_frame, find_updated_block,
    is_block_entry, latest_block_number, read_block_num, read_header, Ack, AckTracker, Actor,
    BlockHeader, BlockInfo, BlockNum, Command, Config, DirEntry, Effect, EntryReader, EntryWriter,
    Event, ForwardState, Forwarder, Handshake, HandshakeResponse, OpenRetry, Phase, ReadError,
    Record, Wait, WriteError,
};

const HEADER: u64 = 0x626c_6f63_6b01_0000;

fn file(name: &str, len: u64) -> DirEntry {
    DirEntry { name: name.to_string(), is_file: true, len }
}

fn dir(name: &str) -> DirEntry {
    DirEntry { name: name.to_string(), is_file: false, len: 0 }
}

fn info(number: u64, offset: u64) -> BlockInfo {
    BlockInfo { number: BlockNum(number), offset }
}

/// Reads every frame of a block's bytes, from just after the header.
fn read_all(number: u64, block: &[u8]) -> Vec<(Vec<u8>, u32)> {
    let header = u64::from_be_bytes(block[0..8].try_into().unwrap());
    let mut r = EntryReader::open(info(number, 0), header).unwrap();
    let mut out = Vec::new();
    loop {
        let at = r.block_info().offset as usize;
        match r.next_entry(&block[at..]) {
            Ok(Some(e)) => out.push(e),
            Ok(None) => break,
            Err(e) => panic!("unexpected error {:?}", e),
        }
    }
    out
}

#[test]
fn header_version_round_trip() {
    for v in 0..=255u8 {
        let h = BlockHeader::new().with_version(v);
        assert_eq!(h.version(), v);
        let d = BlockHeader::from_u64(h.to_u64()).unwrap();
        assert_eq!(d.version(), v);
    }
}

#[test]
fn header_value_and_bad_magic() {
    assert_eq!(BlockHeader::new().to_u64(), HEADER);
    assert_eq!(BlockHeader::new().version(), 1);
    assert!(BlockHeader::from_u64(0).is_none());
    assert!(BlockHeader::from_u64(HEADER ^ (1 << 40)).is_none());
    assert!(read_header(HEADER).is_ok());
    assert!(matches!(read_header(0x1234), Err(ReadError::Header(None))));
    let v2 = BlockHeader::new().with_version(2).to_u64();
    assert!(matches!(read_header(v2), Err(ReadError::Header(Some(2)))));
}

#[test]
fn frame_layout_and_checksum() {
    let f = encode_frame(b"123456789");
    assert_eq!(f.len(), 15);
    assert_eq!(&f[0..2], &[0, 9]);
    assert_eq!(&f[2..11], b"123456789");
    // CRC-32C check value of "123456789"
    assert_eq!(&f[11..15], &[0xe3, 0x06, 0x92, 0x83]);
    let empty = encode_frame(b"");
    assert_eq!(empty, vec![0, 0, 0, 0, 0, 0]);
}

#[test]
fn three_entries_in_one_block() {
    let (mut w, start) = EntryWriter::open(BlockNum::zero(), Config::default()).unwrap();
    assert_eq!(start.start, Some(BlockNum(1)));
    assert_eq!(start.bytes, b"block\x01\x00\x00".to_vec());
    let mut block = start.bytes.clone();
    for p in [&b"a"[..], b"bb", b"ccc"] {
        let out = w.append(p).unwrap();
        assert_eq!(out.start, None);
        block.extend_from_slice(&out.bytes);
        assert_eq!(w.block_info().offset, block.len() as u64);
    }
    let expected = 8 + (2 + 1 + 4) + (2 + 2 + 4) + (2 + 3 + 4);
    assert_eq!(block.len(), expected);
    assert_eq!(w.block_info(), info(1, expected as u64));
    let entries = read_all(1, &block);
    let payloads: Vec<Vec<u8>> = entries.iter().map(|e| e.0.clone()).collect();
    assert_eq!(payloads, vec![b"a".to_vec(), b"bb".to_vec(), b"ccc".to_vec()]);
    for (p, crc) in entries {
        assert!(Record::new(info(1, 0), p, crc).is_valid());
    }
}

#[test]
fn rotation_at_block_limit() {
    let cfg = Config::new().with_max_block_len(20).with_max_entry_len(10);
    let (mut w, start) = EntryWriter::open(BlockNum::zero(), cfg).unwrap();
    let mut blocks = vec![start.bytes];
    let first = w.append(b"hello").unwrap();
    assert_eq!(first.start, None);
    blocks[0].extend_from_slice(&first.bytes);
    let second = w.append(b"world").unwrap();
    assert_eq!(second.start, Some(BlockNum(2)));
    blocks.push(second.bytes);
    assert_eq!(blocks[0].len(), 19);
    assert_eq!(blocks[1].len(), 19);
    assert_eq!(w.block_info(), info(2, 19));
    assert_eq!(read_all(1, &blocks[0])[0].0, b"hello".to_vec());
    assert_eq!(read_all(2, &blocks[1])[0].0, b"world".to_vec());
}

#[test]
fn offsets_never_pass_the_block_limit() {
    let cfg = Config::new().with_max_block_len(100).with_max_entry_len(20);
    let (mut w, _) = EntryWriter::open(BlockNum(4), cfg).unwrap();
    let mut len = 8u64;
    let mut blocks = 1;
    for i in 0..200usize {
        let payload = vec![i as u8; i % 21];
        let out = w.append(&payload).unwrap();
        if out.start.is_some() {
            blocks += 1;
            len = 0;
        }
        len += out.bytes.len() as u64;
        assert_eq!(w.block_info().offset, len);
        assert!(w.block_info().offset <= 100);
    }
    assert!(blocks > 1);
    assert_eq!(w.block_info().number, BlockNum(4 + blocks));
}

#[test]
fn oversized_entry_is_refused() {
    let cfg = Config::new().with_max_entry_len(4);
    let (mut w, _) = EntryWriter::open(BlockNum(2), cfg).unwrap();
    assert!(matches!(w.append(b"12345"), Err(WriteError::EntrySize)));
    assert_eq!(w.block_info(), info(3, 8));
    assert!(w.append(b"1234").is_ok());
}

#[test]
fn last_block_number_cannot_be_passed() {
    assert!(matches!(
        EntryWriter::open(BlockNum(u64::MAX), Config::new()),
        Err(WriteError::Overflow)
    ));
    let cfg = Config::new().with_max_block_len(10).with_max_entry_len(10);
    let (mut w, _) = EntryWriter::open(BlockNum(u64::MAX - 1), cfg).unwrap();
    assert!(matches!(w.append(b"x"), Err(WriteError::Overflow)));
}

#[test]
fn flipped_bits_fail_the_checksum() {
    let frame = encode_frame(b"payload");
    for i in 2..frame.len() {
        for bit in 0..8 {
            let mut bad = frame.clone();
            bad[i] ^= 1 << bit;
            let mut r = EntryReader::open(info(7, 0), HEADER).unwrap();
            assert!(matches!(r.next_entry(&bad), Err(ReadError::Crc)));
            assert_eq!(r.block_info(), info(7, 8 + frame.len() as u64));
        }
    }
}

#[test]
fn reader_ends_and_truncations() {
    let mut r = EntryReader::open(info(3, 0), HEADER).unwrap();
    assert_eq!(r.block_info(), info(3, 8));
    assert!(matches!(r.next_entry(&[]), Ok(None)));
    assert!(matches!(r.next_entry(&[0]), Err(ReadError::Io(_))));
    let frame = encode_frame(b"abc");
    assert!(matches!(r.next_entry(&frame[..8]), Err(ReadError::Io(_))));
    assert_eq!(r.block_info(), info(3, 8));
    let mut two = frame.clone();
    two.extend_from_slice(&encode_frame(b"de"));
    let (p, _) = r.next_entry(&two).unwrap().unwrap();
    assert_eq!(p, b"abc".to_vec());
    assert_eq!(r.block_info(), info(3, 17));
    r.reset(info(3, 8));
    assert_eq!(r.block_info(), info(3, 8));
    let at = EntryReader::open(info(3, 17), HEADER).unwrap();
    assert_eq!(at.block_info(), info(3, 17));
    assert!(matches!(EntryReader::open(info(3, 0), 7), Err(ReadError::Header(None))));
}

#[test]
fn block_numbers_from_names() {
    assert_eq!(read_block_num("block.12"), BlockNum(12));
    assert_eq!(read_block_num("block.0"), BlockNum(0));
    assert_eq!(read_block_num("block.18446744073709551615"), BlockNum(u64::MAX));
    assert_eq!(read_block_num("block.18446744073709551616"), BlockNum(0));
    assert_eq!(read_block_num("block.x1"), BlockNum(0));
    assert_eq!(read_block_num("block."), BlockNum(0));
    assert_eq!(read_block_num("block.1.2"), BlockNum(0));
    assert_eq!(read_block_num("other.5"), BlockNum(0));
    assert_eq!(block_file_name(BlockNum(42)), "block.42");
    assert_eq!(block_file_name(BlockNum(0)), "block.0");
    assert!(is_block_entry(&file("block.3", 0)));
    assert!(!is_block_entry(&dir("block.3")));
    assert!(!is_block_entry(&file("blocks.3", 0)));
}

#[test]
fn latest_block_ignores_unrelated_entries() {
    let listing = vec![
        file("block.2", 10),
        file("notes.txt", 4),
        dir("block.99"),
        file("block.3", 8),
        file("block.1", 30),
        file("blocker", 1),
    ];
    assert_eq!(latest_block_number(&listing), BlockNum(3));
    assert_eq!(latest_block_number(&vec![file("x", 1)]), BlockNum(0));
    assert_eq!(latest_block_number(&vec![]), BlockNum(0));
}

#[test]
fn retention_removes_blocks_below_the_ack() {
    let listing = vec![
        file("block.4", 8),
        file("block.1", 8),
        file("readme", 8),
        file("block.3", 8),
        dir("block.2"),
        file("block.2", 8),
        file("block.5", 8),
    ];
    let gone = blocks_to_delete(&listing, BlockNum(4));
    assert_eq!(gone, vec!["block.1".to_string(), "block.3".to_string(), "block.2".to_string()]);
    let rest: Vec<DirEntry> = listing
        .into_iter()
        .filter(|e| !gone.contains(&e.name) || !e.is_file)
        .collect();
    assert!(blocks_to_delete(&rest, BlockNum(4)).is_empty());
    assert_eq!(latest_block_number(&rest), BlockNum(5));
}

#[test]
fn tailing_prefers_growth_then_the_closest_block() {
    let listing = vec![file("block.6", 20), file("block.4", 30), file("block.3", 40), file("block.5", 9)];
    assert_eq!(find_updated_block(&listing, info(3, 8), 30), Some((info(3, 8), 40)));
    assert_eq!(find_updated_block(&listing, info(3, 40), 40), Some((info(4, 0), 30)));
    let empty_next = vec![file("block.4", 0), file("block.3", 40), file("block.7", 9)];
    assert_eq!(find_updated_block(&empty_next, info(3, 40), 40), Some((info(7, 0), 9)));
    assert_eq!(find_updated_block(&listing, info(6, 20), 20), None);
}

#[test]
fn forwarding_resumes_and_follows_rotation() {
    let hs = Handshake::new("test", BlockNum(5));
    assert_eq!(hs.id(), "test");
    assert_eq!(hs.latest(), BlockNum(5));
    let start = match HandshakeResponse::go(info(3, 8)) {
        HandshakeResponse::Go { start } => start,
        HandshakeResponse::Abort { .. } => panic!("abort"),
    };
    let mut st = ForwardState::new(start);
    let listing = vec![file("block.3", 15), file("block.4", 8)];
    let (i, s) = find_updated_block(&listing, st.block_info(), st.size()).unwrap();
    st.on_update(i, s);
    assert_eq!(st.block_info(), info(3, 8));
    let rec = st.on_entry(info(3, 15), b"x".to_vec(), 0);
    assert_eq!(rec.info(), info(3, 15));
    assert_eq!(st.block_info(), info(3, 15));
    let listing = vec![file("block.3", 15), file("block.4", 15)];
    let (i, s) = find_updated_block(&listing, st.block_info(), st.size()).unwrap();
    assert_eq!((i, s), (info(4, 0), 15));
}

#[test]
fn unreadable_block_is_skipped_after_three_retries() {
    let mut st = ForwardState::new(info(7, 15));
    st.on_update(info(7, 15), 30);
    assert_eq!(st.on_open_failure(), OpenRetry::Retry);
    assert_eq!(st.on_open_failure(), OpenRetry::Retry);
    assert_eq!(st.on_open_failure(), OpenRetry::Retry);
    assert_eq!(st.on_open_failure(), OpenRetry::Skip);
    assert_eq!(st.block_info().number, BlockNum(8));
    assert_eq!(st.size(), 0);
    let mut last = ForwardState::new(info(u64::MAX, 0));
    for _ in 0..3 {
        assert_eq!(last.on_open_failure(), OpenRetry::Retry);
    }
    assert_eq!(last.on_open_failure(), OpenRetry::Stuck);
}

#[test]
fn acks_delete_only_when_advancing() {
    let mut t = AckTracker::new();
    assert_eq!(t.on_ack(Ack::zero()), None);
    assert_eq!(t.on_ack(Ack::new(info(4, 0))), Some(BlockNum(4)));
    assert_eq!(t.on_ack(Ack::new(info(4, 90))), None);
    assert_eq!(t.on_ack(Ack::new(info(2, 10))), None);
    assert_eq!(t.on_ack(Ack::new(info(5, 8))), Some(BlockNum(5)));
    assert_eq!(Ack::new(info(5, 8)).info(), info(5, 8));
}

#[test]
fn connect_backoff_schedule() {
    let delays: Vec<u64> = (0..13).map(connect_delay).collect();
    assert_eq!(delays, vec![1, 1, 1, 1, 1, 5, 5, 5, 5, 5, 10, 10, 10]);
    assert_eq!(connect_delay(u64::MAX), 10);
}

#[test]
fn idle_logger_syncs_once() {
    let mut a = Actor::new();
    assert_eq!(a.wait(), Wait::Poll);
    for _ in 0..1000 {
        assert_eq!(a.on_event(Event::Received(Command::Add)), Effect::Append);
    }
    assert_eq!(a.on_event(Event::Empty), Effect::Nothing);
    assert_eq!(a.wait(), Wait::TimerOrCommand);
    assert_eq!(a.on_event(Event::Timeout), Effect::Sync);
    assert_eq!(a.wait(), Wait::Command);
    assert_eq!(a.phase, Phase::Parked);
    assert_eq!(a.on_event(Event::Received(Command::Add)), Effect::Append);
    assert_eq!(a.wait(), Wait::Poll);
}

#[test]
fn logger_close_drains_then_finishes() {
    let mut a = Actor::new();
    assert_eq!(a.on_event(Event::Received(Command::Close)), Effect::CloseQueue);
    assert_eq!(a.on_event(Event::Received(Command::Add)), Effect::Append);
    assert_eq!(a.on_event(Event::Received(Command::Close)), Effect::KeepReply);
    assert_eq!(a.replies, 2);
    assert_eq!(a.on_event(Event::Received(Command::Sync)), Effect::Sync);
    assert_eq!(a.on_event(Event::Disconnected), Effect::Finish);
    assert_eq!(a.wait(), Wait::Stop);
}

#[test]
fn forwarder_remembers_latest_block() {
    let listing = vec![file("block.8", 10), file("block.9", 0)];
    let f = Forwarder::new("id".to_string(), "/tmp/blocks".to_string(), "127.0.0.1:4000".to_string(), &listing);
    assert_eq!(f.latest(), BlockNum(9));
    assert_eq!(f.handshake().latest, BlockNum(9));
    assert_eq!(f.handshake().id(), "id");
    assert_eq!(f.directory(), "/tmp/blocks");
    assert_eq!(f.address(), "127.0.0.1:4000");
}

#[test]
fn block_info_order_and_updates() {
    let mut i = BlockInfo::zero();
    assert!(i.is_zero());
    i.set_number(BlockNum(2));
    i.add_number(3);
    i.set_offset(8);
    i.add_offset(7);
    assert_eq!(i, info(5, 15));
    assert!(info(4, 90).precedes(&info(5, 0)));
    assert!(info(5, 1).precedes(&info(5, 2)));
    assert!(!info(5, 2).precedes(&info(5, 2)));
    assert_eq!(BlockNum(7).add(2), BlockNum(9));
    assert_eq!(BlockNum::from(3u64).value(), 3);
    assert_eq!(i.with_number(BlockNum(1)).with_offset(0), info(1, 0));
    let cfg = Config::new().with_max_buffer_len(16);
    assert_eq!(cfg.max_buffer_len(), 16);
    assert_eq!(cfg.max_block_len, 1024 * 1024);
    assert_eq!(cfg.max_entry_len, 1024);
}

#[test]
fn corrupted_frame_halts_the_reader() {
    let (mut w, start) = EntryWriter::open(BlockNum(6), Config::new()).unwrap();
    assert_eq!(start.start, Some(BlockNum(7)));
    let mut block = start.bytes;
    block.extend_from_slice(&w.append(b"first").unwrap().bytes);
    block.extend_from_slice(&w.append(b"second").unwrap().bytes);
    let last = block.len() - 1;
    block[last] ^= 0x01;
    let mut st = ForwardState::new(info(7, 0));
    let mut r = EntryReader::open(st.block_info(), HEADER).unwrap();
    let (p, crc) = r.next_entry(&block[8..]).unwrap().unwrap();
    let rec = st.on_entry(r.block_info(), p, crc);
    assert_eq!(rec.item(), b"first");
    assert_eq!(rec.info(), info(7, 19));
    let at = r.block_info().offset as usize;
    assert!(matches!(r.next_entry(&block[at..]), Err(ReadError::Crc)));
    assert_eq!(st.block_info(), info(7, 19));
}

#[test]
fn largest_entry_round_trips() {
    let cfg = Config::new().with_max_entry_len(u16::MAX);
    let (mut w, start) = EntryWriter::open(BlockNum::zero(), cfg).unwrap();
    let payload: Vec<u8> = (0..u16::MAX as usize).map(|i| (i % 251) as u8).collect();
    let out = w.append(&payload).unwrap();
    assert_eq!(out.bytes.len(), 6 + 65535);
    let mut block = start.bytes;
    block.extend_from_slice(&out.bytes);
    assert_eq!(w.block_info().offset, block.len() as u64);
    assert_eq!(read_all(1, &block)[0].0, payload);
}

#[test]
fn same_number_under_two_names() {
    let listing = vec![file("block.05", 0), file("block.5", 12), file("block.6", 3), file("block.06", 4)];
    assert_eq!(latest_block_number(&listing), BlockNum(6));
    assert_eq!(find_updated_block(&listing, info(5, 8), 0), Some((info(5, 8), 12)));
    assert_eq!(find_updated_block(&listing, info(5, 12), 12), Some((info(6, 0), 3)));
    assert_eq!(blocks_to_delete(&listing, BlockNum(6)), vec!["block.05".to_string(), "block.5".to_string()]);
}
