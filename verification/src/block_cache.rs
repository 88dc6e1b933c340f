//! A disk cache of fixed-size blocks: which file holds a block, when a block
//! is read or fetched, how blocks make up a range, and which of them go when
//! there are too many.

use vstd::prelude::*;
use vstd::string::*;

use crate::text::{ends, ends_with, starts, starts_with};

verus! {

/// How the cache is set up.
#[derive(Debug)]
pub struct BlockCacheConfig {
    /// The directory that holds the block files.
    pub dir: String,
    /// The size of a block in bytes.
    pub block_size: u64,
    /// How many blocks are kept at most.
    pub max_blocks: usize,
    /// How long one fetch may take, in seconds.
    pub fetch_timeout_secs: u64,
}

impl Default for BlockCacheConfig {
    fn default() -> (r: Self)
        ensures
            r.dir@ == "data/block-cache"@,
            r.block_size == 4 * 1024 * 1024,
            r.max_blocks == 1024,
            r.fetch_timeout_secs == 30,
    {
        BlockCacheConfig {
            dir: "data/block-cache".to_owned(),
            block_size: 4 * 1024 * 1024,
            max_blocks: 1024,
            fetch_timeout_secs: 30,
        }
    }
}

// ---------------------------------------------------------------------------
// File names

/// The SHA-256 digest of bytes.
pub uninterp spec fn sha256_of(bytes: Seq<u8>) -> Seq<u8>;

/// `Sha256::digest`. The contract names the digest and claims that it has 32 bytes.
#[verifier::external_body]
fn sha256(bytes: &[u8]) -> (r: Vec<u8>)
    ensures
        r@ == sha256_of(bytes@),
        r@.len() == 32,
{
    <sha2::Sha256 as sha2::Digest>::digest(bytes).to_vec()
}

/// The lower-case hexadecimal digit of a number below sixteen.
pub open spec fn hex_digit(d: int) -> char {
    if d < 10 {
        (d + '0' as int) as char
    } else {
        (d - 10 + 'a' as int) as char
    }
}

/// A lower-case hexadecimal digit.
pub open spec fn is_hex(c: char) -> bool {
    '0' <= c <= '9' || 'a' <= c <= 'f'
}

fn to_hex_digit(d: u8) -> (r: char)
    requires
        d < 16,
    ensures
        r == hex_digit(d as int),
        is_hex(r),
{
    if d < 10 {
        (48u8 + d) as char
    } else {
        (87u8 + d) as char
    }
}

/// Bytes in hexadecimal, two digits each.
pub open spec fn hex_text(bytes: Seq<u8>) -> Seq<char> {
    Seq::new(
        2 * bytes.len(),
        |i: int|
            hex_digit(
                if i % 2 == 0 {
                    bytes[i / 2] as int / 16
                } else {
                    bytes[i / 2] as int % 16
                },
            ),
    )
}

/// How many bytes of a digest a file name shows.
pub const NAME_BYTES: usize = 12;

/// The name that stands for a digest: its first bytes in hexadecimal.
pub open spec fn digest_name(digest: Seq<u8>) -> Seq<char> {
    hex_text(digest.take(NAME_BYTES as int))
}

/// The name that stands for a digest.
pub fn name_of_digest(digest: &Vec<u8>) -> (r: String)
    requires
        digest@.len() >= NAME_BYTES,
    ensures
        r@ == digest_name(digest@),
{
    let ghost head = digest@.take(NAME_BYTES as int);
    let mut out = String::new();
    let mut i: usize = 0;
    while i < NAME_BYTES
        invariant
            i <= NAME_BYTES <= digest@.len(),
            head == digest@.take(NAME_BYTES as int),
            out@ =~= hex_text(head).take(2 * i),
        decreases NAME_BYTES - i,
    {
        let b: u8 = digest[i];
        out.push(to_hex_digit(b / 16));
        out.push(to_hex_digit(b % 16));
        assert(head[i as int] == b);
        i = i + 1;
    }
    assert(hex_text(head).take(2 * NAME_BYTES) =~= hex_text(head));
    out
}

/// The file name prefix that stands for a key.
pub open spec fn key_name(key: Seq<char>) -> Seq<char> {
    digest_name(sha256_of(vstd::utf8::encode_utf8(key)))
}

/// The file name prefix that stands for a key.
pub fn key_hash(key: &str) -> (r: String)
    ensures
        r@ == key_name(key@),
        r@.len() == 24,
        forall|i: int| 0 <= i < r@.len() ==> is_hex(#[trigger] r@[i]),
{
    let digest = sha256(key.as_bytes());
    let r = name_of_digest(&digest);
    proof {
        let head = digest@.take(NAME_BYTES as int);
        assert forall|i: int| 0 <= i < r@.len() implies is_hex(#[trigger] r@[i]) by {
            let b = head[i / 2] as int;
            assert(0 <= b / 16 < 16 && 0 <= b % 16 < 16);
        }
    }
    r
}

/// The hexadecimal form of a number, without leading zeros.
pub open spec fn hex_number(n: nat) -> Seq<char>
    decreases n,
{
    if n < 16 {
        seq![hex_digit(n as int)]
    } else {
        hex_number(n / 16).push(hex_digit((n % 16) as int))
    }
}

/// A text filled up with zeros in front to eight characters.
pub open spec fn zero_filled(s: Seq<char>) -> Seq<char> {
    if s.len() < 8 {
        Seq::new((8 - s.len()) as nat, |i: int| '0') + s
    } else {
        s
    }
}

/// The name of the file that holds block `idx` of a key.
pub open spec fn block_file(hashed: Seq<char>, idx: nat) -> Seq<char> {
    hashed + "-"@ + zero_filled(hex_number(idx)) + ".bin"@
}

fn push_hex(out: &mut String, n: u64)
    ensures
        final(out)@ == old(out)@ + hex_number(n as nat),
    decreases n,
{
    if n >= 16 {
        push_hex(out, n / 16);
    }
    out.push(to_hex_digit((n % 16) as u8));
    assert(out@ =~= old(out)@ + hex_number(n as nat));
}

/// The name of the file that holds block `idx` of a key.
pub fn block_name(hashed: &str, idx: u64) -> (r: String)
    ensures
        r@ == block_file(hashed@, idx as nat),
{
    let mut digits = String::new();
    push_hex(&mut digits, idx);
    assert(digits@ =~= hex_number(idx as nat));
    let mut out = hashed.to_owned().concat("-");
    let ghost head = out@;
    let len: usize = digits.as_str().unicode_len();
    let mut k: usize = len;
    while k < 8
        invariant
            len <= k,
            k <= 8 || k == len,
            out@ == head + Seq::new((k - len) as nat, |i: int| '0'),
        decreases 8 - k,
    {
        out.push('0');
        k = k + 1;
        assert(out@ =~= head + Seq::new((k - len) as nat, |i: int| '0'));
    }
    let r = out.concat(digits.as_str()).concat(".bin");
    assert(r@ =~= block_file(hashed@, idx as nat));
    r
}

/// The name of the lock that guards the fetch of block `idx` of a key.
pub open spec fn lock_text(hashed: Seq<char>, idx: nat) -> Seq<char> {
    hashed + ":"@ + crate::number::nat_text(idx)
}

/// The name of the lock that guards the fetch of block `idx` of a key.
pub fn lock_name(hashed: &str, idx: u64) -> (r: String)
    ensures
        r@ == lock_text(hashed@, idx as nat),
{
    let mut out = hashed.to_owned().concat(":");
    crate::number::push_u64(&mut out, idx);
    out
}

/// Whether a file of the directory holds a block: its extension is `bin`.
pub open spec fn block_extension(name: Seq<char>) -> bool {
    name.len() > 4 && ends(name, ".bin"@)
}

/// Whether a file of the directory holds a block.
pub fn is_block_file(name: &str) -> (r: bool)
    ensures
        r == block_extension(name@),
{
    name.unicode_len() > 4 && ends_with(name, ".bin")
}

/// Whether a file belongs to the key whose prefix is `hashed`.
pub fn belongs_to(name: &str, hashed: &str) -> (r: bool)
    ensures
        r == starts(name@, hashed@),
{
    starts_with(name, hashed)
}

/// The number that hexadecimal digits denote.
pub open spec fn hex_value(s: Seq<char>) -> int
    decreases s.len(),
{
    if s.len() == 0 {
        0
    } else {
        hex_value(s.drop_last()) * 16 + (if s.last() <= '9' {
            s.last() as int - '0' as int
        } else {
            s.last() as int - 'a' as int + 10
        })
    }
}

proof fn lemma_hex_number(n: nat)
    ensures
        hex_value(hex_number(n)) == n,
    decreases n,
{
    if n < 16 {
        assert(hex_number(n).drop_last() =~= Seq::<char>::empty());
        assert(hex_value(Seq::<char>::empty()) == 0);
    } else {
        lemma_hex_number(n / 16);
        assert(hex_number(n).drop_last() =~= hex_number(n / 16));
    }
}

proof fn lemma_hex_zeros(zeros: Seq<char>, s: Seq<char>)
    requires
        forall|i: int| 0 <= i < zeros.len() ==> zeros[i] == '0',
    ensures
        hex_value(zeros + s) == hex_value(s),
    decreases s.len(), zeros.len(),
{
    if s.len() > 0 {
        lemma_hex_zeros(zeros, s.drop_last());
        assert((zeros + s).drop_last() =~= zeros + s.drop_last());
    } else if zeros.len() > 0 {
        lemma_hex_zeros(zeros.drop_last(), s);
        assert((zeros + s).drop_last() =~= zeros.drop_last() + s);
        assert((zeros + s).last() == '0');
    } else {
        assert(zeros + s =~= s);
    }
}

proof fn lemma_zero_filled(n: nat)
    ensures
        hex_value(zero_filled(hex_number(n))) == n,
{
    let s = hex_number(n);
    lemma_hex_number(n);
    if s.len() < 8 {
        lemma_hex_zeros(Seq::new((8 - s.len()) as nat, |i: int| '0'), s);
    }
}

/// No two blocks share a file: keys whose prefixes have the same length share
/// a file name only for the same prefix and the same block.
pub proof fn law_block_files_distinct(a: Seq<char>, i: nat, b: Seq<char>, j: nat)
    requires
        a.len() == b.len(),
        block_file(a, i) == block_file(b, j),
    ensures
        a == b,
        i == j,
{
    reveal_strlit("-");
    reveal_strlit(".bin");
    let x = block_file(a, i);
    let y = block_file(b, j);
    assert(a =~= x.take(a.len() as int));
    assert(b =~= y.take(b.len() as int));
    let n = a.len() as int + 1;
    let m = x.len() - 4;
    assert(zero_filled(hex_number(i)) =~= x.subrange(n, m));
    assert(zero_filled(hex_number(j)) =~= y.subrange(n, m));
    lemma_zero_filled(i);
    lemma_zero_filled(j);
}

/// Dropping a key drops its own blocks and no others: a block file starts with
/// a prefix of the same length only if that is its key's prefix.
pub proof fn law_prefix_selects_key(a: Seq<char>, i: nat, b: Seq<char>)
    requires
        a.len() == b.len(),
    ensures
        starts(block_file(a, i), b) <==> a == b,
{
    let x = block_file(a, i);
    assert(x.subrange(0, a.len() as int) =~= a);
}

// ---------------------------------------------------------------------------
// Reading a block

/// What the reader of a block does next.
#[derive(Debug, Clone, Copy, PartialEq, Eq, Structural)]
pub enum BlockStep {
    /// Look at the file's length.
    Look,
    /// Read the file, which is to have this length.
    Read(u64),
    /// Take the lock of the block.
    Lock,
    /// Look at the file's length again, now under the lock.
    LookAgain,
    /// Read the file under the lock.
    ReadLocked,
    /// Fetch the block from this offset of the source.
    Fetch(u64),
    /// Write what was fetched into the file, and return it whether or not that works.
    Store,
    /// Mark the file as just used and return what was read.
    ReturnCached,
    /// Return what was read or fetched.
    Return,
    /// Give up.
    Fail,
}

/// What came of a step.
#[derive(Debug, Clone, Copy, PartialEq, Eq, Structural)]
pub enum BlockEvent {
    /// The file's length; none where there is no file.
    Length(Option<u64>),
    /// The number of bytes that were read or fetched; none where that failed.
    Bytes(Option<u64>),
    /// Anything without a result.
    Done,
}

/// The step after an event. A cached file is used only if it is not empty and
/// has the length it was seen with; otherwise the block is fetched, once per
/// lock, and stored unless it is empty.
pub open spec fn block_next(step: BlockStep, event: BlockEvent, offset: u64) -> BlockStep {
    match (step, event) {
        (BlockStep::Look, BlockEvent::Length(Some(n))) => if n > 0 {
            BlockStep::Read(n)
        } else {
            BlockStep::Lock
        },
        (BlockStep::Look, _) => BlockStep::Lock,
        (BlockStep::Read(n), BlockEvent::Bytes(Some(m))) => if m == n {
            BlockStep::ReturnCached
        } else {
            BlockStep::Lock
        },
        (BlockStep::Read(_), _) => BlockStep::Fail,
        (BlockStep::Lock, _) => BlockStep::LookAgain,
        (BlockStep::LookAgain, BlockEvent::Length(Some(n))) => if n > 0 {
            BlockStep::ReadLocked
        } else {
            BlockStep::Fetch(offset)
        },
        (BlockStep::LookAgain, _) => BlockStep::Fetch(offset),
        (BlockStep::ReadLocked, BlockEvent::Bytes(Some(_))) => BlockStep::Return,
        (BlockStep::ReadLocked, _) => BlockStep::Fail,
        (BlockStep::Fetch(_), BlockEvent::Bytes(Some(n))) => if n > 0 {
            BlockStep::Store
        } else {
            BlockStep::Return
        },
        (BlockStep::Fetch(_), _) => BlockStep::Fail,
        (BlockStep::Store, _) => BlockStep::Return,
        (BlockStep::ReturnCached, _) => BlockStep::ReturnCached,
        (BlockStep::Return, _) => BlockStep::Return,
        (BlockStep::Fail, _) => BlockStep::Fail,
    }
}

/// The step after an event, for block `idx` of a source in blocks of `block_size`.
pub fn next_block_step(step: BlockStep, event: BlockEvent, idx: u64, block_size: u64) -> (r:
    BlockStep)
    requires
        idx * block_size <= u64::MAX,
    ensures
        r == block_next(step, event, (idx * block_size) as u64),
{
    match (step, event) {
        (BlockStep::Look, BlockEvent::Length(Some(n))) => if n > 0 {
            BlockStep::Read(n)
        } else {
            BlockStep::Lock
        },
        (BlockStep::Look, _) => BlockStep::Lock,
        (BlockStep::Read(n), BlockEvent::Bytes(Some(m))) => if m == n {
            BlockStep::ReturnCached
        } else {
            BlockStep::Lock
        },
        (BlockStep::Read(_), _) => BlockStep::Fail,
        (BlockStep::Lock, _) => BlockStep::LookAgain,
        (BlockStep::LookAgain, BlockEvent::Length(Some(n))) => if n > 0 {
            BlockStep::ReadLocked
        } else {
            BlockStep::Fetch(idx * block_size)
        },
        (BlockStep::LookAgain, _) => BlockStep::Fetch(idx * block_size),
        (BlockStep::ReadLocked, BlockEvent::Bytes(Some(_))) => BlockStep::Return,
        (BlockStep::ReadLocked, _) => BlockStep::Fail,
        (BlockStep::Fetch(_), BlockEvent::Bytes(Some(n))) => if n > 0 {
            BlockStep::Store
        } else {
            BlockStep::Return
        },
        (BlockStep::Fetch(_), _) => BlockStep::Fail,
        (BlockStep::Store, _) => BlockStep::Return,
        (BlockStep::ReturnCached, _) => BlockStep::ReturnCached,
        (BlockStep::Return, _) => BlockStep::Return,
        (BlockStep::Fail, _) => BlockStep::Fail,
    }
}

/// A block whose file is there and whole is returned without a fetch.
pub proof fn law_cached_block_is_not_fetched(n: u64, offset: u64)
    requires
        n > 0,
    ensures
        block_next(
            block_next(BlockStep::Look, BlockEvent::Length(Some(n)), offset),
            BlockEvent::Bytes(Some(n)),
            offset,
        ) == BlockStep::ReturnCached,
{
}

/// A block that another reader stored while this one waited for the lock is
/// read from its file, and not fetched a second time.
pub proof fn law_waiting_reader_does_not_fetch(n: u64, m: u64, offset: u64)
    requires
        n > 0,
    ensures
        block_next(
            block_next(
                block_next(BlockStep::Lock, BlockEvent::Done, offset),
                BlockEvent::Length(Some(n)),
                offset,
            ),
            BlockEvent::Bytes(Some(m)),
            offset,
        ) == BlockStep::Return,
{
}

// ---------------------------------------------------------------------------
// Reading a range

/// A range of a source that is read block by block: from `start` up to `end`,
/// or to the end of the source.
#[derive(Debug)]
pub struct RangeRead {
    pub start: u64,
    pub end: Option<u64>,
    pub block_size: u64,
    /// The block to read next.
    pub idx: u64,
    /// What was read so far.
    pub out: Vec<u8>,
    /// Whether nothing more is to be read.
    pub done: bool,
}

/// The state of a range that is read block by block.
pub struct RangeView {
    pub start: int,
    pub end: Option<int>,
    pub block_size: int,
    pub idx: int,
    pub out: Seq<u8>,
    pub done: bool,
}

impl View for RangeRead {
    type V = RangeView;

    open spec fn view(&self) -> RangeView {
        RangeView {
            start: self.start as int,
            end: match self.end {
                Some(e) => Some(e as int),
                None => None,
            },
            block_size: self.block_size as int,
            idx: self.idx as int,
            out: self.out@,
            done: self.done,
        }
    }
}

/// A range of which nothing was read yet.
pub open spec fn range_begin(start: int, end: Option<int>, block_size: int) -> RangeView {
    RangeView {
        start,
        end,
        block_size,
        idx: start / block_size,
        out: Seq::empty(),
        done: false,
    }
}

/// The lesser of two numbers.
pub open spec fn least(a: int, b: int) -> int {
    if a < b {
        a
    } else {
        b
    }
}

/// A range after one more block: the first block counts from where the range
/// starts in it, what lies beyond the range's end is cut off, and a block that
/// is not full is the last one.
pub open spec fn range_next(r: RangeView, block: Seq<u8>) -> RangeView {
    if block.len() == 0 {
        RangeView { done: true, ..r }
    } else {
        let skipped = if r.idx == r.start / r.block_size {
            least(r.start % r.block_size, block.len() as int)
        } else {
            0
        };
        let grown = r.out + block.skip(skipped);
        match r.end {
            Some(e) => if grown.len() + r.start >= e {
                RangeView { out: grown.take(e - r.start), done: true, ..r }
            } else if block.len() < r.block_size {
                RangeView { out: grown, done: true, ..r }
            } else {
                RangeView { out: grown, idx: r.idx + 1, ..r }
            },
            None => if block.len() < r.block_size {
                RangeView { out: grown, done: true, ..r }
            } else {
                RangeView { out: grown, idx: r.idx + 1, ..r }
            },
        }
    }
}

impl RangeRead {
    /// A range of which nothing was read yet.
    pub fn new(start: u64, end: Option<u64>, block_size: u64) -> (r: RangeRead)
        requires
            block_size > 0,
        ensures
            r@ == range_begin(
                start as int,
                match end {
                    Some(e) => Some(e as int),
                    None => None,
                },
                block_size as int,
            ),
    {
        let r = RangeRead {
            start,
            end,
            block_size,
            idx: start / block_size,
            out: Vec::new(),
            done: false,
        };
        assert(r@.out =~= Seq::empty());
        r
    }

    /// The block to read next; none once the range is complete.
    pub fn wanted(&self) -> (r: Option<u64>)
        ensures
            r == if self.done {
                None
            } else {
                Some(self.idx)
            },
    {
        if self.done {
            None
        } else {
            Some(self.idx)
        }
    }

    /// Takes the wanted block into account.
    pub fn feed(&mut self, block: &Vec<u8>)
        requires
            old(self).block_size > 0,
            old(self).idx < u64::MAX,
            old(self).end is Some ==> old(self).end->0 >= old(self).start,
            old(self).start + old(self).out@.len() + block@.len() <= u64::MAX,
            old(self).out@.len() + block@.len() <= usize::MAX,
        ensures
            final(self)@ == range_next(old(self)@, block@),
    {
        let ghost before = self@;
        let n: usize = block.len();
        if n == 0 {
            self.done = true;
            return;
        }
        let skipped: usize = if self.idx == self.start / self.block_size {
            let within: u64 = self.start % self.block_size;
            if within < n as u64 {
                within as usize
            } else {
                n
            }
        } else {
            0
        };
        let ghost taken = block@.skip(skipped as int);
        let mut i: usize = skipped;
        assert(self.out@ =~= before.out + taken.take(0));
        while i < n
            invariant
                skipped <= i <= n == block@.len(),
                taken == block@.skip(skipped as int),
                self.out@ == before.out + taken.take(i - skipped),
                self.start == before.start,
                self@ == (RangeView { out: self.out@, ..before }),
            decreases n - i,
        {
            self.out.push(block[i]);
            i = i + 1;
            assert(self.out@ =~= before.out + taken.take(i - skipped));
        }
        assert(taken.take(n - skipped) =~= taken);
        if let Some(e) = self.end {
            if self.out.len() as u64 + self.start >= e {
                self.out.truncate((e - self.start) as usize);
                self.done = true;
                return;
            }
        }
        if (n as u64) < self.block_size {
            self.done = true;
        } else {
            self.idx = self.idx + 1;
        }
    }
}

/// Block `idx` of a source: full but for the last one, and empty beyond it.
pub open spec fn source_block(source: Seq<u8>, idx: int, block_size: int) -> Seq<u8> {
    let from = least(idx * block_size, source.len() as int);
    let to = least((idx + 1) * block_size, source.len() as int);
    source.subrange(from, to)
}

/// The range of a source from `start` up to `end`, or to the end of the source.
pub open spec fn source_range(source: Seq<u8>, start: int, end: Option<int>) -> Seq<u8> {
    let from = least(start, source.len() as int);
    let to = match end {
        Some(e) => least(e, source.len() as int),
        None => source.len() as int,
    };
    source.subrange(from, to)
}

/// Whether a range that is read block by block agrees with its source so far:
/// it holds what lies between the start of the range and the block to read
/// next, and once it is done it holds the range.
pub open spec fn on_track(r: RangeView, source: Seq<u8>) -> bool {
    &&& r.block_size > 0
    &&& 0 <= r.start
    &&& r.idx >= r.start / r.block_size
    &&& r.end is Some ==> r.end->0 >= r.start
    &&& if r.done {
        r.out == source_range(source, r.start, r.end)
    } else if r.idx == r.start / r.block_size {
        r.out.len() == 0
    } else {
        &&& r.idx * r.block_size <= source.len()
        &&& r.start <= r.idx * r.block_size
        &&& r.out == source.subrange(r.start, r.idx * r.block_size)
        &&& r.end is Some ==> r.idx * r.block_size < r.end->0
    }
}

/// A range agrees with its source before anything is read.
pub proof fn lemma_range_begins_on_track(
    source: Seq<u8>,
    start: int,
    end: Option<int>,
    block_size: int,
)
    requires
        block_size > 0,
        0 <= start,
        end is Some ==> end->0 >= start,
    ensures
        on_track(range_begin(start, end, block_size), source),
{
}

/// Reading the wanted block keeps a range in agreement with its source.
pub proof fn lemma_range_stays_on_track(r: RangeView, source: Seq<u8>)
    requires
        on_track(r, source),
        !r.done,
    ensures
        on_track(range_next(r, source_block(source, r.idx, r.block_size)), source),
{
    let bs = r.block_size;
    let lo = r.idx * bs;
    let n = source.len() as int;
    let block = source_block(source, r.idx, bs);
    let next = range_next(r, block);
    let first = r.start / bs;
    vstd::arithmetic::div_mod::lemma_fundamental_div_mod(r.start, bs);
    vstd::arithmetic::div_mod::lemma_mod_bound(r.start, bs);
    assert((r.idx + 1) * bs == lo + bs) by (nonlinear_arith)
        requires
            lo == r.idx * bs,
    ;
    assert(bs * first == first * bs) by (nonlinear_arith);
    assert(lo >= 0) by (nonlinear_arith)
        requires
            r.idx >= 0,
            bs > 0,
            lo == r.idx * bs,
    ;
    let to = least(lo + bs, n);
    if r.idx == first {
        assert(r.start == lo + r.start % bs);
        if block.len() == 0 {
            assert(next.out =~= source_range(source, r.start, r.end));
        } else {
            let skipped = least(r.start % bs, block.len() as int);
            let grown = r.out + block.skip(skipped);
            assert(grown =~= source.subrange(least(r.start, to), to));
            if next.done {
                assert(next.out =~= source_range(source, r.start, r.end));
            } else {
                assert(next.out =~= source.subrange(r.start, lo + bs));
            }
        }
    } else {
        if block.len() == 0 {
            assert(next.out =~= source_range(source, r.start, r.end));
        } else {
            let grown = r.out + block.skip(0);
            assert(grown =~= source.subrange(r.start, to));
            if next.done {
                assert(next.out =~= source_range(source, r.start, r.end));
            } else {
                assert(next.out =~= source.subrange(r.start, lo + bs));
            }
        }
    }
}

/// A range after the wanted blocks of a source, at most `count` of them.
pub open spec fn range_after(r: RangeView, source: Seq<u8>, count: nat) -> RangeView
    decreases count,
{
    if r.done || count == 0 {
        r
    } else {
        range_after(
            range_next(r, source_block(source, r.idx, r.block_size)),
            source,
            (count - 1) as nat,
        )
    }
}

proof fn lemma_range_after(r: RangeView, source: Seq<u8>, count: nat)
    requires
        on_track(r, source),
        r.done || count > least(source.len() as int - r.idx * r.block_size, source.len() as int) + 1,
        r.done || count > 0,
    ensures
        range_after(r, source, count).done,
        range_after(r, source, count).out == source_range(source, r.start, r.end),
    decreases count,
{
    if !r.done {
        let next = range_next(r, source_block(source, r.idx, r.block_size));
        lemma_range_stays_on_track(r, source);
        let bs = r.block_size;
        assert((r.idx + 1) * bs == r.idx * bs + bs) by (nonlinear_arith);
        vstd::arithmetic::div_mod::lemma_fundamental_div_mod(r.start, bs);
        assert(r.idx * bs >= 0) by (nonlinear_arith)
            requires
                r.idx >= 0,
                bs > 0,
        ;
        lemma_range_after(next, source, (count - 1) as nat);
    }
}

/// What a read gives back: a range that is read block by block from a source
/// comes to its end, and holds exactly that range of the source.
pub proof fn law_range_is_read_back(
    source: Seq<u8>,
    start: int,
    end: Option<int>,
    block_size: int,
    count: nat,
)
    requires
        block_size > 0,
        0 <= start,
        end is Some ==> end->0 >= start,
        count > source.len() + 1,
    ensures
        range_after(range_begin(start, end, block_size), source, count).done,
        range_after(range_begin(start, end, block_size), source, count).out == source_range(
            source,
            start,
            end,
        ),
{
    lemma_range_begins_on_track(source, start, end, block_size);
    let r = range_begin(start, end, block_size);
    assert(r.idx * block_size >= 0) by (nonlinear_arith)
        requires
            r.idx >= 0,
            block_size > 0,
    ;
    lemma_range_after(r, source, count);
}

// ---------------------------------------------------------------------------
// Eviction

/// Whether entry `a` goes before entry `b`: it is older, or as old and listed first.
pub open spec fn older(mtimes: Seq<u64>, a: usize, b: usize) -> bool {
    mtimes[a as int] < mtimes[b as int] || (mtimes[a as int] == mtimes[b as int] && a < b)
}

/// Whether `order` lists all entries of a directory, the oldest first.
pub open spec fn by_age(order: Seq<usize>, mtimes: Seq<u64>) -> bool {
    &&& order.len() == mtimes.len()
    &&& forall|i: int| 0 <= i < order.len() ==> (#[trigger] order[i]) < mtimes.len()
    &&& forall|i: int, j: int|
        0 <= i < j < order.len() ==> older(mtimes, #[trigger] order[i], #[trigger] order[j])
}

fn sort_by_age(mtimes: &Vec<u64>) -> (r: Vec<usize>)
    ensures
        by_age(r@, mtimes@),
{
    let n: usize = mtimes.len();
    let mut order: Vec<usize> = Vec::new();
    let mut i: usize = 0;
    while i < n
        invariant
            i <= n == mtimes@.len(),
            order@.len() == i,
            forall|k: int| 0 <= k < order@.len() ==> (#[trigger] order@[k]) < i,
            forall|k: int, l: int|
                0 <= k < l < order@.len() ==> older(
                    mtimes@,
                    #[trigger] order@[k],
                    #[trigger] order@[l],
                ),
        decreases n - i,
    {
        let mut at: usize = i;
        while at > 0 && mtimes[order[at - 1]] > mtimes[i]
            invariant
                at <= i < n == mtimes@.len(),
                order@.len() == i,
                forall|k: int| 0 <= k < order@.len() ==> (#[trigger] order@[k]) < i,
                forall|k: int| at <= k < order@.len() ==> mtimes@[(#[trigger] order@[k]) as int]
                    > mtimes@[i as int],
            decreases at,
        {
            at = at - 1;
        }
        let ghost before = order@;
        order.insert(at, i);
        proof {
            assert(order@ == before.insert(at as int, i));
            assert forall|k: int, l: int| 0 <= k < l < order@.len() implies older(
                mtimes@,
                #[trigger] order@[k],
                #[trigger] order@[l],
            ) by {
                if l < at {
                    assert(order@[k] == before[k] && order@[l] == before[l]);
                } else if l == at {
                    assert(order@[k] == before[k]);
                    if at > 0 {
                        assert(mtimes@[before[at - 1] as int] <= mtimes@[i as int]);
                        if k < at - 1 {
                            assert(older(mtimes@, before[k], before[at - 1]));
                        }
                    }
                } else if k < at {
                    assert(order@[k] == before[k] && order@[l] == before[l - 1]);
                } else if k == at {
                    assert(order@[l] == before[l - 1]);
                } else {
                    assert(order@[k] == before[k - 1] && order@[l] == before[l - 1]);
                }
            }
            assert forall|k: int| 0 <= k < order@.len() implies (#[trigger] order@[k]) < i + 1 by {
                if k < at {
                    assert(order@[k] == before[k]);
                } else if k > at {
                    assert(order@[k] == before[k - 1]);
                }
            }
        }
        i = i + 1;
    }
    order
}

/// How many entries are too many.
pub open spec fn surplus(count: int, max_blocks: int) -> int {
    if count > max_blocks {
        count - max_blocks
    } else {
        0
    }
}

/// Which entries of a directory to remove, given when each was last used: the
/// oldest ones, so many that no more than `max_blocks` are left.
pub fn evicted(mtimes: &Vec<u64>, max_blocks: usize) -> (r: Vec<usize>)
    ensures
        exists|order: Seq<usize>| #[trigger]
            by_age(order, mtimes@) && r@ == order.take(
                surplus(mtimes@.len() as int, max_blocks as int),
            ),
{
    let mut order = sort_by_age(mtimes);
    let ghost whole = order@;
    if mtimes.len() <= max_blocks {
        order.clear();
        assert(order@ =~= whole.take(0));
    } else {
        order.truncate(mtimes.len() - max_blocks);
    }
    order
}

proof fn lemma_order_unique(a: Seq<usize>, b: Seq<usize>, mtimes: Seq<u64>)
    requires
        by_age(a, mtimes),
        by_age(b, mtimes),
        mtimes.len() <= usize::MAX,
    ensures
        a == b,
{
    lemma_order_complete(a, mtimes);
    lemma_order_complete(b, mtimes);
    assert forall|i: int| 0 <= i < a.len() implies a[i] == b[i] by {
        lemma_order_prefix(a, b, mtimes, i);
    }
    assert(a =~= b);
}

proof fn lemma_order_complete(a: Seq<usize>, mtimes: Seq<u64>)
    requires
        by_age(a, mtimes),
        mtimes.len() <= usize::MAX,
    ensures
        forall|x: usize| x < mtimes.len() ==> #[trigger] a.contains(x),
{
    let whole = Set::new(|x: usize| x < mtimes.len());
    assert(a.no_duplicates()) by {
        assert forall|i: int, j: int| 0 <= i < a.len() && 0 <= j < a.len() && i != j implies a[i]
            != a[j] by {
            if i < j {
                assert(older(mtimes, a[i], a[j]));
            } else {
                assert(older(mtimes, a[j], a[i]));
            }
        }
    }
    a.unique_seq_to_set();
    lemma_usize_range(mtimes.len());
    assert(a.to_set().subset_of(whole)) by {
        assert forall|x: usize| a.to_set().contains(x) implies whole.contains(x) by {
            let i = choose|i: int| 0 <= i < a.len() && a[i] == x;
        }
    }
    vstd::set_lib::lemma_subset_equality(a.to_set(), whole);
    assert forall|x: usize| x < mtimes.len() implies #[trigger] a.contains(x) by {
        assert(whole.contains(x));
        assert(a.to_set().contains(x));
    }
}

proof fn lemma_usize_range(n: nat)
    requires
        n <= usize::MAX,
    ensures
        Set::new(|x: usize| x < n).finite(),
        Set::new(|x: usize| x < n).len() == n,
    decreases n,
{
    let s = Set::new(|x: usize| x < n);
    if n == 0 {
        assert(s =~= Set::<usize>::empty());
    } else {
        let m = (n - 1) as nat;
        lemma_usize_range(m);
        let t = Set::new(|x: usize| x < m);
        assert(s =~= t.insert(m as usize));
    }
}

proof fn lemma_order_prefix(a: Seq<usize>, b: Seq<usize>, mtimes: Seq<u64>, i: int)
    requires
        by_age(a, mtimes),
        by_age(b, mtimes),
        forall|x: usize| x < mtimes.len() ==> #[trigger] a.contains(x),
        forall|x: usize| x < mtimes.len() ==> #[trigger] b.contains(x),
        0 <= i < a.len(),
    ensures
        a[i] == b[i],
    decreases i,
{
    assert forall|k: int| 0 <= k < i implies a[k] == b[k] by {
        lemma_order_prefix(a, b, mtimes, k);
    }
    assert(b.contains(a[i]));
    assert(a.contains(b[i]));
    let j = choose|j: int| 0 <= j < b.len() && b[j] == a[i];
    let k = choose|k: int| 0 <= k < a.len() && a[k] == b[i];
    if j < i {
        assert(a[j] == b[j]);
        assert(older(mtimes, a[j], a[i]));
    }
    if k < i {
        assert(a[k] == b[k]);
        assert(older(mtimes, b[k], b[i]));
    }
    if j > i && k > i {
        assert(older(mtimes, b[i], b[j]));
        assert(older(mtimes, a[i], a[k]));
    }
}

/// Eviction leaves no more blocks than allowed, removes none while there is
/// room, and keeps no block that was used before one it removes.
pub proof fn law_eviction(order: Seq<usize>, mtimes: Seq<u64>, max_blocks: int)
    requires
        by_age(order, mtimes),
        0 <= max_blocks,
        mtimes.len() <= usize::MAX,
    ensures
        mtimes.len() - surplus(mtimes.len() as int, max_blocks) <= max_blocks,
        mtimes.len() <= max_blocks ==> order.take(surplus(mtimes.len() as int, max_blocks)).len() == 0,
        forall|other: Seq<usize>| #[trigger] by_age(other, mtimes) ==> other == order,
        forall|i: int, j: int|
            0 <= i < surplus(mtimes.len() as int, max_blocks) <= j < mtimes.len()
                ==> mtimes[(#[trigger] order[i]) as int] <= mtimes[(#[trigger] order[j]) as int],
{
    assert forall|other: Seq<usize>| #[trigger] by_age(other, mtimes) implies other == order by {
        lemma_order_unique(other, order, mtimes);
    }
    assert forall|i: int, j: int|
        0 <= i < surplus(mtimes.len() as int, max_blocks) <= j < mtimes.len() implies mtimes[(
    #[trigger] order[i]) as int] <= mtimes[(#[trigger] order[j]) as int] by {
        assert(older(mtimes, order[i], order[j]));
    }
}

// ---------------------------------------------------------------------------
// Statistics

/// The number of block files and their total size.
pub open spec fn totals(files: Seq<(String, u64)>) -> (int, int)
    decreases files.len(),
{
    if files.len() == 0 {
        (0, 0)
    } else {
        let (n, bytes) = totals(files.drop_last());
        if block_extension(files.last().0@) {
            (n + 1, bytes + files.last().1)
        } else {
            (n, bytes)
        }
    }
}

proof fn lemma_totals_grow(files: Seq<(String, u64)>, k: int)
    requires
        0 <= k <= files.len(),
    ensures
        0 <= totals(files.take(k)).0 <= k,
        0 <= totals(files.take(k)).1 <= totals(files).1,
        totals(files.take(k)).0 <= totals(files).0,
    decreases files.len(),
{
    if files.len() == 0 {
        assert(files.take(k) =~= files);
    } else if k == files.len() {
        assert(files.take(k) =~= files);
        lemma_totals_grow(files.drop_last(), k - 1);
        assert(files.drop_last().take(k - 1) =~= files.drop_last());
    } else {
        lemma_totals_grow(files.drop_last(), k);
        assert(files.drop_last().take(k) =~= files.take(k));
    }
}

/// The number of block files in a directory and their total size.
pub fn stats(files: &Vec<(String, u64)>) -> (r: (usize, u64))
    requires
        totals(files@).1 <= u64::MAX,
    ensures
        r.0 == totals(files@).0,
        r.1 == totals(files@).1,
{
    let mut n: usize = 0;
    let mut bytes: u64 = 0;
    let mut i: usize = 0;
    while i < files.len()
        invariant
            i <= files.len(),
            n == totals(files@.take(i as int)).0,
            n <= i,
            bytes == totals(files@.take(i as int)).1,
            totals(files@).1 <= u64::MAX,
        decreases files.len() - i,
    {
        proof {
            assert(files@.take(i + 1).drop_last() =~= files@.take(i as int));
            assert(files@.take(i + 1).last() == files@[i as int]);
            lemma_totals_grow(files@, i + 1);
        }
        if is_block_file(files[i].0.as_str()) {
            n = n + 1;
            bytes = bytes + files[i].1;
        }
        i = i + 1;
    }
    assert(files@.take(files@.len() as int) =~= files@);
    (n, bytes)
}

// ---------------------------------------------------------------------------
// What the cache does

/// A block that is not there is fetched from its own offset, under the lock, and
/// kept unless it is empty; what is read short of its length is looked at again
/// under the lock.
pub proof fn law_missing_block_is_fetched(offset: u64, n: u64, m: u64)
    requires
        n > 0,
        m != n,
    ensures
        block_next(BlockStep::Look, BlockEvent::Length(None), offset) == BlockStep::Lock,
        block_next(BlockStep::Look, BlockEvent::Length(Some(0)), offset) == BlockStep::Lock,
        block_next(BlockStep::Lock, BlockEvent::Done, offset) == BlockStep::LookAgain,
        block_next(BlockStep::LookAgain, BlockEvent::Length(None), offset) == BlockStep::Fetch(
            offset,
        ),
        block_next(BlockStep::LookAgain, BlockEvent::Length(Some(0)), offset) == BlockStep::Fetch(
            offset,
        ),
        block_next(BlockStep::Fetch(offset), BlockEvent::Bytes(Some(n)), offset)
            == BlockStep::Store,
        block_next(BlockStep::Fetch(offset), BlockEvent::Bytes(Some(0)), offset)
            == BlockStep::Return,
        block_next(BlockStep::Store, BlockEvent::Done, offset) == BlockStep::Return,
        block_next(BlockStep::Read(n), BlockEvent::Bytes(Some(m)), offset) == BlockStep::Lock,
        block_next(BlockStep::Read(n), BlockEvent::Bytes(None), offset) == BlockStep::Fail,
        block_next(BlockStep::ReadLocked, BlockEvent::Bytes(None), offset) == BlockStep::Fail,
        block_next(BlockStep::Fetch(offset), BlockEvent::Bytes(None), offset) == BlockStep::Fail,
{
}

/// No more blocks are dropped than there are too many.
pub proof fn law_eviction_is_not_greedy(count: int, max_blocks: int)
    requires
        0 <= count,
        0 <= max_blocks,
    ensures
        0 <= surplus(count, max_blocks) <= count,
        count > max_blocks ==> count - surplus(count, max_blocks) == max_blocks,
        count <= max_blocks ==> surplus(count, max_blocks) == 0,
{
}

/// The files of blocks are those that the cache names, and nothing else in its
/// directory counts.
pub proof fn law_block_files_count(
    files: Seq<(String, u64)>,
    file: (String, u64),
    hashed: Seq<char>,
    idx: nat,
)
    ensures
        block_extension(block_file(hashed, idx)),
        !block_extension(".bin"@),
        file.0@ == block_file(hashed, idx) ==> totals(files.push(file)) == (
            totals(files).0 + 1,
            totals(files).1 + file.1,
        ),
        !ends(file.0@, ".bin"@) ==> totals(files.push(file)) == totals(files),
        totals(Seq::empty()) == (0int, 0int),
{
    reveal_strlit(".bin");
    reveal_strlit("-");
    let name = block_file(hashed, idx);
    let head = hashed + "-"@ + zero_filled(hex_number(idx));
    assert(name.subrange(head.len() as int, name.len() as int) =~= ".bin"@);
    assert(files.push(file).drop_last() =~= files);
}

/// The name of a digest is its first twelve bytes in hexadecimal, two digits to
/// the byte, the greater digit first.
pub proof fn law_digest_names(digest: Seq<u8>, i: int)
    requires
        digest.len() >= 12,
        0 <= i < 12,
    ensures
        digest_name(digest).len() == 24,
        16 * hex_value(seq![digest_name(digest)[2 * i]]) + hex_value(
            seq![digest_name(digest)[2 * i + 1]],
        ) == digest[i],
        is_hex(digest_name(digest)[2 * i]) && is_hex(digest_name(digest)[2 * i + 1]),
{
    let head = digest.take(12);
    let name = digest_name(digest);
    assert(head[i] == digest[i]);
    assert((2 * i) / 2 == i && (2 * i + 1) / 2 == i);
    assert((2 * i) % 2 == 0 && (2 * i + 1) % 2 == 1);
    let a = seq![name[2 * i]];
    let b = seq![name[2 * i + 1]];
    assert(a.drop_last() =~= Seq::<char>::empty());
    assert(b.drop_last() =~= Seq::<char>::empty());
    reveal_with_fuel(hex_value, 2);
}

/// Two blocks share a lock only if they are the same block of the same source.
pub proof fn law_locks_are_distinct(a: Seq<char>, i: nat, b: Seq<char>, j: nat)
    requires
        a.len() == b.len(),
        lock_text(a, i) == lock_text(b, j),
    ensures
        a == b,
        i == j,
{
    reveal_strlit(":");
    let x = lock_text(a, i);
    let y = lock_text(b, j);
    assert(x.take(a.len() as int) =~= a);
    assert(y.take(b.len() as int) =~= b);
    assert(x.skip(1int + a.len()) =~= crate::number::nat_text(i));
    assert(y.skip(1int + b.len()) =~= crate::number::nat_text(j));
    crate::number::lemma_nat_text(i);
    crate::number::lemma_nat_text(j);
}

} // verus!
