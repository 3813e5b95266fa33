use vstd::prelude::*;
use vstd::utf8::encode_utf8;

use crate::block::{BlockInfo, BlockNum};

verus! {

/// Limits of the block writer.
#[derive(Debug, Clone, Copy)]
pub struct Config {
    /// Capacity of the output buffer in front of the block file.
    pub max_buffer_len: usize,
    /// Size beyond which an append starts a new block.
    pub max_block_len: u64,
    /// Largest payload accepted.
    pub max_entry_len: u16,
}

impl Default for Config {
    fn default() -> (r: Self)
        ensures
            r.max_buffer_len == 8192,
            r.max_block_len == 1024 * 1024,
            r.max_entry_len == 1024,
    {
        Config { max_buffer_len: 8192, max_block_len: 1024 * 1024, max_entry_len: 1024 }
    }
}

impl Config {
    /// The default limits: an 8 KiB buffer, 1 MiB blocks, 1 KiB entries.
    pub fn new() -> (r: Config)
        ensures
            r.max_buffer_len == 8192,
            r.max_block_len == 1024 * 1024,
            r.max_entry_len == 1024,
    {
        Self::default()
    }

    pub fn with_max_buffer_len(self, val: usize) -> (r: Self)
        ensures
            r == (Config { max_buffer_len: val, ..self }),
    {
        Config { max_buffer_len: val, ..self }
    }

    pub fn with_max_block_len(self, val: u64) -> (r: Self)
        ensures
            r == (Config { max_block_len: val, ..self }),
    {
        Config { max_block_len: val, ..self }
    }

    pub fn with_max_entry_len(self, val: u16) -> (r: Self)
        ensures
            r == (Config { max_entry_len: val, ..self }),
    {
        Config { max_entry_len: val, ..self }
    }

    pub fn max_buffer_len(&self) -> (r: usize)
        ensures
            r == self.max_buffer_len,
    {
        self.max_buffer_len
    }
}

/// The file name prefix of block files.
pub const BLOCK_FILENAME_PREFIX: &'static str = "block.";

/// One entry of a directory listing: its name, whether it is a regular file,
/// and its length in bytes.
#[derive(Debug)]
pub struct DirEntry {
    pub name: String,
    pub is_file: bool,
    pub len: u64,
}

/// The UTF-8 bytes of an entry's name.
pub open spec fn name_bytes(e: DirEntry) -> Seq<u8> {
    encode_utf8(e.name@)
}

/// Whether a name starts with `block.`.
pub open spec fn has_block_prefix(b: Seq<u8>) -> bool {
    b.len() >= 6 && b[0] == 98 && b[1] == 108 && b[2] == 111 && b[3] == 99 && b[4] == 107 && b[5]
        == 46
}

pub open spec fn is_digit(b: u8) -> bool {
    48 <= b <= 57
}

/// The value of a sequence of decimal digits.
pub open spec fn digits_value(s: Seq<u8>) -> nat
    decreases s.len(),
{
    if s.len() == 0 {
        0
    } else {
        digits_value(s.drop_last()) * 10 + (s.last() - 48) as nat
    }
}

/// A non-empty run of decimal digits whose value fits in 64 bits, read as a
/// number.
pub open spec fn decimal_u64(s: Seq<u8>) -> Option<u64> {
    if s.len() > 0 && (forall|i: int| 0 <= i < s.len() ==> is_digit(#[trigger] s[i]))
        && digits_value(s) <= u64::MAX {
        Some(digits_value(s) as u64)
    } else {
        None
    }
}

/// The block number that a file name carries: the decimal number after
/// `block.`, or zero where there is none.
pub open spec fn block_number_of(b: Seq<u8>) -> u64 {
    if has_block_prefix(b) {
        match decimal_u64(b.subrange(6, b.len() as int)) {
            Some(n) => n,
            None => 0,
        }
    } else {
        0
    }
}

/// Whether an entry counts as a block: a regular file named `block.*`.
pub open spec fn is_block(e: DirEntry) -> bool {
    e.is_file && has_block_prefix(name_bytes(e))
}

pub open spec fn entry_number(e: DirEntry) -> u64 {
    block_number_of(name_bytes(e))
}

proof fn lemma_digits_prefix_le(s: Seq<u8>, i: int)
    requires
        0 <= i <= s.len(),
        forall|k: int| 0 <= k < s.len() ==> is_digit(#[trigger] s[k]),
    ensures
        digits_value(s.subrange(0, i)) <= digits_value(s),
    decreases s.len(),
{
    if i < s.len() {
        lemma_digits_prefix_le(s.drop_last(), i);
        assert(s.drop_last().subrange(0, i) =~= s.subrange(0, i));
    } else {
        assert(s.subrange(0, i) =~= s);
    }
}

/// Reads the decimal number in `b[start..]`.
fn parse_decimal(b: &[u8], start: usize) -> (r: Option<u64>)
    requires
        start <= b@.len(),
    ensures
        r == decimal_u64(b@.subrange(start as int, b@.len() as int)),
{
    let ghost s = b@.subrange(start as int, b@.len() as int);
    let n = b.len();
    if start == n {
        return None;
    }
    let mut acc: u64 = 0;
    let mut i: usize = start;
    let mut fits = true;
    while i < n
        invariant
            start <= i <= n,
            n == b@.len(),
            s == b@.subrange(start as int, n as int),
            forall|k: int| start <= k < i ==> is_digit(#[trigger] b@[k]),
            fits ==> acc == digits_value(b@.subrange(start as int, i as int)),
            !fits ==> digits_value(b@.subrange(start as int, i as int)) > u64::MAX,
        decreases n - i,
    {
        let d = b[i];
        if d < 48 || d > 57 {
            assert(!is_digit(s[i - start]));
            return None;
        }
        let ghost prev = b@.subrange(start as int, i as int);
        let ghost next = b@.subrange(start as int, i + 1);
        assert(next.drop_last() =~= prev);
        let v = (d - 48) as u64;
        if fits {
            if acc > (u64::MAX - v) / 10 {
                assert(acc * 10 + v > u64::MAX) by (nonlinear_arith)
                    requires
                        acc > (u64::MAX - v) / 10,
                        v <= 9,
                ;
                fits = false;
            } else {
                assert(acc * 10 + v <= u64::MAX) by (nonlinear_arith)
                    requires
                        acc <= (u64::MAX - v) / 10,
                        v <= 9,
                ;
                acc = acc * 10 + v;
            }
        }
        i = i + 1;
    }
    assert(b@.subrange(start as int, n as int) =~= s);
    assert(forall|k: int| 0 <= k < s.len() ==> is_digit(#[trigger] s[k])) by {
        assert forall|k: int| 0 <= k < s.len() implies is_digit(#[trigger] s[k]) by {
            assert(s[k] == b@[start + k]);
        }
    }
    if fits {
        Some(acc)
    } else {
        None
    }
}

/// Whether the bytes of a name start with `block.`.
fn bytes_have_block_prefix(b: &[u8]) -> (r: bool)
    ensures
        r == has_block_prefix(b@),
{
    b.len() >= 6 && b[0] == 98 && b[1] == 108 && b[2] == 111 && b[3] == 99 && b[4] == 107 && b[5]
        == 46
}

/// The block number in a file name: the decimal number after `block.`, or
/// zero where the name has none.
pub fn read_block_num(name: &str) -> (r: BlockNum)
    ensures
        r.0 == block_number_of(encode_utf8(name@)),
{
    let b = name.as_bytes();
    if !bytes_have_block_prefix(b) {
        return BlockNum(0);
    }
    match parse_decimal(b, 6) {
        Some(n) => BlockNum(n),
        None => BlockNum(0),
    }
}

/// Whether a listing entry is a block file.
pub fn is_block_entry(e: &DirEntry) -> (r: bool)
    ensures
        r == is_block(*e),
{
    e.is_file && bytes_have_block_prefix(e.name.as_str().as_bytes())
}

/// The number of a listing entry's block.
fn entry_block_num(e: &DirEntry) -> (r: BlockNum)
    ensures
        r.0 == entry_number(*e),
{
    read_block_num(e.name.as_str())
}

/// Whether `r` is the highest block number of a listing, or zero where it
/// holds no block.
pub open spec fn is_latest(entries: Seq<DirEntry>, r: u64) -> bool {
    &&& forall|i: int|
        0 <= i < entries.len() && is_block(#[trigger] entries[i]) ==> entry_number(entries[i])
            <= r
    &&& (r == 0 || exists|i: int|
        0 <= i < entries.len() && is_block(#[trigger] entries[i]) && entry_number(entries[i])
            == r)
}

/// Whether a listing holds a block file with number `n`.
pub open spec fn holds_block(entries: Seq<DirEntry>, n: u64) -> bool {
    exists|i: int|
        0 <= i < entries.len() && is_block(#[trigger] entries[i]) && entry_number(entries[i]) == n
}

/// The highest block number in a listing, or zero where it holds no block.
pub fn latest_block_number(entries: &Vec<DirEntry>) -> (r: BlockNum)
    ensures
        is_latest(entries@, r.0),
{
    let mut latest: u64 = 0;
    let mut i: usize = 0;
    while i < entries.len()
        invariant
            i <= entries@.len(),
            is_latest(entries@.subrange(0, i as int), latest),
        decreases entries@.len() - i,
    {
        let e = &entries[i];
        let ghost prev = entries@.subrange(0, i as int);
        let ghost next = entries@.subrange(0, i + 1);
        let ghost before = latest;
        assert(forall|j: int| 0 <= j < i ==> next[j] == prev[j]);
        assert(next[i as int] == *e);
        if is_block_entry(e) {
            let n = entry_block_num(e);
            if latest < n.0 {
                latest = n.0;
            }
        }
        proof {
            if latest == before && latest != 0 {
                let j = choose|j: int|
                    0 <= j < prev.len() && is_block(#[trigger] prev[j]) && entry_number(prev[j])
                        == latest;
                assert(next[j] == prev[j]);
            }
        }
        i = i + 1;
    }
    assert(entries@.subrange(0, i as int) =~= entries@);
    BlockNum(latest)
}

/// Where a listing holds the blocks `1..=k` and no other block, the latest
/// block number is `k`, whatever other entries it holds.
pub proof fn lemma_latest_of_contiguous(entries: Seq<DirEntry>, k: u64, r: u64)
    requires
        k >= 1,
        forall|n: u64| 1 <= n <= k ==> #[trigger] holds_block(entries, n),
        forall|i: int|
            0 <= i < entries.len() && is_block(#[trigger] entries[i]) ==> 1 <= entry_number(
                entries[i],
            ) <= k,
        is_latest(entries, r),
    ensures
        r == k,
{
    assert(holds_block(entries, k));
}

/// The decimal digits of a number, as characters.
pub open spec fn decimal_chars(n: nat) -> Seq<char>
    decreases n,
{
    if n < 10 {
        seq![(48 + n) as char]
    } else {
        decimal_chars(n / 10).push((48 + n % 10) as char)
    }
}

/// Relies on `u64`'s `to_string`: the decimal digits of the number.
#[verifier::external_body]
fn decimal_string(n: u64) -> (r: String)
    ensures
        r@ == decimal_chars(n as nat),
{
    n.to_string()
}

/// Relies on `<[&str]>::concat`: the characters of `a` followed by those of `b`.
#[verifier::external_body]
fn concat_str(a: &str, b: &str) -> (r: String)
    ensures
        r@ == a@ + b@,
{
    [a, b].concat()
}

/// The file name of block `n`: `block.` followed by its decimal number.
pub fn block_file_name(n: BlockNum) -> (r: String)
    ensures
        r@ == BLOCK_FILENAME_PREFIX@ + decimal_chars(n.0 as nat),
{
    let digits = decimal_string(n.0);
    concat_str(BLOCK_FILENAME_PREFIX, digits.as_str())
}

/// Whether an entry is a block file numbered below `to`.
pub open spec fn doomed(e: DirEntry, to: u64) -> bool {
    is_block(e) && entry_number(e) < to
}

/// The entries of a listing that are block files numbered below `to`, in order.
pub open spec fn doomed_blocks(s: Seq<DirEntry>, to: u64) -> Seq<DirEntry>
    decreases s.len(),
{
    if s.len() == 0 {
        seq![]
    } else if doomed(s.last(), to) {
        doomed_blocks(s.drop_last(), to).push(s.last())
    } else {
        doomed_blocks(s.drop_last(), to)
    }
}

/// The entries of a listing that remain once the blocks below `to` are gone.
pub open spec fn kept_entries(s: Seq<DirEntry>, to: u64) -> Seq<DirEntry>
    decreases s.len(),
{
    if s.len() == 0 {
        seq![]
    } else if doomed(s.last(), to) {
        kept_entries(s.drop_last(), to)
    } else {
        kept_entries(s.drop_last(), to).push(s.last())
    }
}

/// Retiring the blocks below `to` removes exactly the block files numbered
/// below `to` and keeps every other entry; retiring them again removes
/// nothing more.
pub proof fn lemma_delete_blocks_exact(s: Seq<DirEntry>, to: u64)
    ensures
        forall|k: int|
            0 <= k < doomed_blocks(s, to).len() ==> doomed(#[trigger] doomed_blocks(s, to)[k], to)
                && s.contains(doomed_blocks(s, to)[k]),
        forall|i: int| 0 <= i < s.len() && doomed(#[trigger] s[i], to) ==> doomed_blocks(s, to).contains(s[i]),
        forall|k: int|
            0 <= k < kept_entries(s, to).len() ==> !doomed(#[trigger] kept_entries(s, to)[k], to)
                && s.contains(kept_entries(s, to)[k]),
        forall|i: int| 0 <= i < s.len() && !doomed(#[trigger] s[i], to) ==> kept_entries(s, to).contains(s[i]),
        doomed_blocks(kept_entries(s, to), to).len() == 0,
        kept_entries(kept_entries(s, to), to) == kept_entries(s, to),
    decreases s.len(),
{
    if s.len() > 0 {
        let t = s.drop_last();
        lemma_delete_blocks_exact(t, to);
        let k = kept_entries(s, to);
        let kt = kept_entries(t, to);
        assert forall|i: int| 0 <= i < s.len() && doomed(#[trigger] s[i], to) implies doomed_blocks(
            s,
            to,
        ).contains(s[i]) by {
            if i < t.len() {
                assert(t[i] == s[i]);
                let j = choose|j: int| 0 <= j < doomed_blocks(t, to).len() && doomed_blocks(t, to)[j] == t[i];
                assert(doomed_blocks(s, to)[j] == s[i]);
            } else {
                assert(doomed_blocks(s, to).last() == s[i]);
            }
        }
        assert forall|i: int| 0 <= i < s.len() && !doomed(#[trigger] s[i], to) implies kept_entries(
            s,
            to,
        ).contains(s[i]) by {
            if i < t.len() {
                assert(t[i] == s[i]);
                let j = choose|j: int| 0 <= j < kt.len() && kt[j] == t[i];
                assert(k[j] == s[i]);
            } else {
                assert(k.last() == s[i]);
            }
        }
        assert forall|j: int| 0 <= j < doomed_blocks(s, to).len() implies doomed(#[trigger] doomed_blocks(s, to)[j], to)
            && s.contains(doomed_blocks(s, to)[j]) by {
            if j < doomed_blocks(t, to).len() {
                let x = doomed_blocks(t, to)[j];
                assert(doomed_blocks(s, to)[j] == x);
                let m = choose|m: int| 0 <= m < t.len() && t[m] == x;
                assert(s[m] == x);
            } else {
                assert(s[s.len() - 1] == s.last());
            }
        }
        assert forall|j: int| 0 <= j < k.len() implies !doomed(#[trigger] k[j], to) && s.contains(k[j]) by {
            if j < kt.len() {
                let x = kt[j];
                assert(k[j] == x);
                let m = choose|m: int| 0 <= m < t.len() && t[m] == x;
                assert(s[m] == x);
            } else {
                assert(s[s.len() - 1] == s.last());
            }
        }
        if !doomed(s.last(), to) {
            assert(k.drop_last() =~= kt);
        }
    }
}

/// The names of the block files numbered below `to`, in listing order.
pub fn blocks_to_delete(entries: &Vec<DirEntry>, to: BlockNum) -> (r: Vec<String>)
    ensures
        r@.len() == doomed_blocks(entries@, to.0).len(),
        forall|k: int| 0 <= k < r@.len() ==> (#[trigger] r@[k])@ == doomed_blocks(entries@, to.0)[k].name@,
{
    let mut out: Vec<String> = Vec::new();
    let mut i: usize = 0;
    while i < entries.len()
        invariant
            i <= entries@.len(),
            out@.len() == doomed_blocks(entries@.subrange(0, i as int), to.0).len(),
            forall|k: int|
                0 <= k < out@.len() ==> (#[trigger] out@[k])@ == doomed_blocks(
                    entries@.subrange(0, i as int),
                    to.0,
                )[k].name@,
        decreases entries@.len() - i,
    {
        let e = &entries[i];
        let ghost next = entries@.subrange(0, i + 1);
        assert(next.drop_last() =~= entries@.subrange(0, i as int));
        assert(next.last() == *e);
        if is_block_entry(e) && entry_block_num(e).0 < to.0 {
            out.push(e.name.clone());
        }
        i = i + 1;
    }
    assert(entries@.subrange(0, i as int) =~= entries@);
    out
}

/// Whether an entry is the current block grown past the length last seen.
pub open spec fn grown(e: DirEntry, info: BlockInfo, size: u64) -> bool {
    is_block(e) && entry_number(e) == info.number.0 && e.len > size
}

/// Whether an entry is a non-empty block after the current one.
pub open spec fn later(e: DirEntry, info: BlockInfo) -> bool {
    is_block(e) && entry_number(e) > info.number.0 && e.len > 0
}

/// What the tail of a listing shows: the current block where it has grown
/// (the first such entry), else the closest non-empty later block (the first
/// entry of the smallest such number) read from its start, else nothing.
pub open spec fn is_update(s: Seq<DirEntry>, info: BlockInfo, size: u64, r: Option<(BlockInfo, u64)>) -> bool {
    if exists|i: int| 0 <= i < s.len() && grown(#[trigger] s[i], info, size) {
        exists|i: int|
            0 <= i < s.len() && grown(#[trigger] s[i], info, size) && (forall|j: int|
                0 <= j < i ==> !grown(#[trigger] s[j], info, size)) && r == Some((info, s[i].len))
    } else if exists|i: int| 0 <= i < s.len() && later(#[trigger] s[i], info) {
        exists|i: int|
            0 <= i < s.len() && later(#[trigger] s[i], info) && (forall|j: int|
                0 <= j < s.len() && later(#[trigger] s[j], info) ==> entry_number(s[i])
                    <= entry_number(s[j])) && (forall|j: int|
                0 <= j < i && later(#[trigger] s[j], info) ==> entry_number(s[i]) < entry_number(
                    s[j],
                )) && r == Some(
                (BlockInfo { number: BlockNum(entry_number(s[i])), offset: 0 }, s[i].len),
            )
    } else {
        r == None::<(BlockInfo, u64)>
    }
}

/// Looks through a listing for something new to read after `info`, where
/// `size` is the length of the current block last seen.
pub fn find_updated_block(entries: &Vec<DirEntry>, info: BlockInfo, size: u64) -> (r: Option<(BlockInfo, u64)>)
    ensures
        is_update(entries@, info, size, r),
        r matches Some((i, _)) ==> i == info || i.number.0 > info.number.0,
{
    let mut closest: Option<(BlockInfo, u64)> = None;
    let ghost mut ci: int = 0;
    let mut i: usize = 0;
    while i < entries.len()
        invariant
            i <= entries@.len(),
            forall|j: int| 0 <= j < i ==> !grown(#[trigger] entries@[j], info, size),
            closest is None <==> (forall|j: int| 0 <= j < i ==> !later(#[trigger] entries@[j], info)),
            closest is Some ==> {
                &&& 0 <= ci < i
                &&& later(entries@[ci], info)
                &&& forall|j: int| 0 <= j < i && later(#[trigger] entries@[j], info) ==> entry_number(entries@[ci]) <= entry_number(entries@[j])
                &&& forall|j: int| 0 <= j < ci && later(#[trigger] entries@[j], info) ==> entry_number(entries@[ci]) < entry_number(entries@[j])
                &&& closest == Some((BlockInfo { number: BlockNum(entry_number(entries@[ci])), offset: 0 }, entries@[ci].len))
            },
        decreases entries@.len() - i,
    {
        let e = &entries[i];
        if is_block_entry(e) {
            let n = entry_block_num(e);
            if n.0 == info.number.0 && e.len > size {
                let r = Some((info, e.len));
                assert(grown(entries@[i as int], info, size));
                return r;
            }
            if n.0 > info.number.0 && e.len > 0 {
                let closer = match closest {
                    Some((c, _)) => n.0 < c.number.0,
                    None => true,
                };
                if closer {
                    closest = Some((BlockInfo { number: n, offset: 0 }, e.len));
                    proof {
                        ci = i as int;
                    }
                }
            }
        }
        i = i + 1;
    }
    closest
}

} // verus!
