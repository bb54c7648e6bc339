//! Splitting a download into byte-range chunks, ordering them, and putting
//! the downloaded pieces back together.
use vstd::prelude::*;
use vstd::multiset::Multiset;
use crate::error::DownloadError;
use crate::progress::{default_progress_config, ProgressConfig};
use crate::text::{
    chars_of, decimal, decimal_string, eq_ignore_ascii_case, eq_ignore_ascii_case_spec, parse_u64,
    parse_u64_spec, push_str,
};

verus! {

/// How chunks are scheduled.
#[derive(Debug, Clone, Copy, PartialEq, Eq, Structural)]
pub enum ChunkStrategy {
    Simple,
    Smart,
}

/// Settings of a chunked download. `timeout` is in seconds.
#[derive(Debug, Clone)]
pub struct ChunkedDownloadConfig {
    pub chunk_size: u64,
    pub max_concurrent_chunks: usize,
    pub timeout: u64,
    pub strategy: ChunkStrategy,
    pub progress_config: ProgressConfig,
    pub adaptive_chunk_sizing: bool,
}

/// 5 MiB, the chunk size when none is chosen.
pub const DEFAULT_CHUNK_SIZE: u64 = 5242880;

impl Default for ChunkedDownloadConfig {
    fn default() -> (r: Self)
        ensures
            r.chunk_size == DEFAULT_CHUNK_SIZE,
            r.max_concurrent_chunks == 8,
            r.timeout == 30,
            r.strategy == ChunkStrategy::Simple,
            r.adaptive_chunk_sizing,
            r.progress_config == default_progress_config(),
    {
        ChunkedDownloadConfig {
            chunk_size: DEFAULT_CHUNK_SIZE,
            max_concurrent_chunks: 8,
            timeout: 30,
            strategy: ChunkStrategy::Simple,
            progress_config: ProgressConfig::default(),
            adaptive_chunk_sizing: true,
        }
    }
}

impl ChunkedDownloadConfig {
    /// The default settings: 5 MiB chunks, 8 at a time, 30 s timeout,
    /// simple scheduling, adaptive sizing on.
    pub fn new() -> (r: Self)
        ensures
            r.chunk_size == DEFAULT_CHUNK_SIZE,
            r.max_concurrent_chunks == 8,
            r.timeout == 30,
            r.strategy == ChunkStrategy::Simple,
            r.adaptive_chunk_sizing,
            r.progress_config == default_progress_config(),
    {
        Self::default()
    }

    pub fn chunk_size(self, size: u64) -> (r: Self)
        ensures
            r == (ChunkedDownloadConfig { chunk_size: size, ..self }),
    {
        ChunkedDownloadConfig { chunk_size: size, ..self }
    }

    pub fn max_concurrent_chunks(self, max: usize) -> (r: Self)
        ensures
            r == (ChunkedDownloadConfig { max_concurrent_chunks: max, ..self }),
    {
        ChunkedDownloadConfig { max_concurrent_chunks: max, ..self }
    }

    /// Set the timeout, in seconds.
    pub fn timeout(self, timeout: u64) -> (r: Self)
        ensures
            r == (ChunkedDownloadConfig { timeout: timeout, ..self }),
    {
        ChunkedDownloadConfig { timeout: timeout, ..self }
    }

    pub fn strategy(self, strategy: ChunkStrategy) -> (r: Self)
        ensures
            r == (ChunkedDownloadConfig { strategy: strategy, ..self }),
    {
        ChunkedDownloadConfig { strategy: strategy, ..self }
    }

    pub fn progress_config(self, config: ProgressConfig) -> (r: Self)
        ensures
            r == (ChunkedDownloadConfig { progress_config: config, ..self }),
    {
        ChunkedDownloadConfig { progress_config: config, ..self }
    }

    pub fn adaptive_chunk_sizing(self, enabled: bool) -> (r: Self)
        ensures
            r == (ChunkedDownloadConfig { adaptive_chunk_sizing: enabled, ..self }),
    {
        ChunkedDownloadConfig { adaptive_chunk_sizing: enabled, ..self }
    }
}

/// Urgency of a chunk, from least to most urgent.
#[derive(Debug, Clone, Copy, PartialEq, Eq, PartialOrd, Ord, Structural)]
pub enum ChunkPriority {
    Deferred,
    Low,
    Normal,
    High,
    Critical,
}

impl ChunkPriority {
    /// Numeric weight: Deferred 0, Low 1, Normal 2, High 3, Critical 4.
    pub open spec fn rank(self) -> nat {
        match self {
            ChunkPriority::Deferred => 0,
            ChunkPriority::Low => 1,
            ChunkPriority::Normal => 2,
            ChunkPriority::High => 3,
            ChunkPriority::Critical => 4,
        }
    }

    /// Numeric weight of the priority.
    pub fn value(&self) -> (r: u8)
        ensures
            r as nat == self.rank(),
    {
        match self {
            ChunkPriority::Deferred => 0,
            ChunkPriority::Low => 1,
            ChunkPriority::Normal => 2,
            ChunkPriority::High => 3,
            ChunkPriority::Critical => 4,
        }
    }
}

/// One byte range `start..=end` of the file, `size` bytes long.
#[derive(Debug, Clone, Copy)]
pub struct ChunkInfo {
    pub index: usize,
    pub start: u64,
    pub end: u64,
    pub priority: ChunkPriority,
    pub size: u64,
}

/// Number of chunks of size `cs` needed for `len` bytes.
pub open spec fn chunk_count(len: nat, cs: nat) -> nat {
    if len == 0 || cs == 0 {
        0
    } else {
        ((len - 1) as nat / cs + 1) as nat
    }
}

/// Whether chunks of `cs` bytes can cover `len` bytes without the end of a
/// chunk passing the largest `u64`.
pub open spec fn chunking_fits(len: nat, cs: nat) -> bool {
    len == 0 || (cs > 0 && chunk_count(len, cs) * cs <= u64::MAX + 1 && chunk_count(len, cs)
        <= usize::MAX)
}

/// The `i`-th chunk of a `len`-byte file cut into `cs`-byte pieces.
pub open spec fn planned_chunk(i: nat, len: nat, cs: nat) -> ChunkInfo {
    let start = i * cs;
    let end = if start + cs <= len { start + cs - 1 } else { len - 1 };
    ChunkInfo {
        index: i as usize,
        start: start as u64,
        end: end as u64,
        priority: ChunkPriority::Normal,
        size: (end - start + 1) as u64,
    }
}

proof fn lemma_mul_le_iff_le_div(k: int, cs: int, x: int)
    requires
        cs > 0,
        k >= 0,
        x >= 0,
    ensures
        (k * cs <= x) == (k <= x / cs),
{
    vstd::arithmetic::div_mod::lemma_fundamental_div_mod(x, cs);
    assert((k * cs <= x) == (k <= x / cs)) by (nonlinear_arith)
        requires
            cs > 0,
            k >= 0,
            x >= 0,
            x == cs * (x / cs) + x % cs,
            0 <= x % cs < cs,
    ;
}

proof fn lemma_mul_mono(a: int, b: int, c: int)
    requires
        0 <= a <= b,
        c >= 0,
    ensures
        a * c <= b * c,
{
    assert(a * c <= b * c) by (nonlinear_arith)
        requires
            0 <= a <= b,
            c >= 0,
    ;
}

/// A chunk index `k` is below the chunk count exactly when its first byte
/// lies inside the file.
pub proof fn lemma_in_file(k: int, len: int, cs: int)
    requires
        len > 0,
        cs > 0,
        k >= 0,
    ensures
        (k < chunk_count(len as nat, cs as nat)) == (k * cs < len),
{
    lemma_mul_le_iff_le_div(k, cs, len - 1);
}

/// Cuts `content_length` bytes into consecutive chunks of `chunk_size` bytes;
/// the last chunk holds what is left.
pub fn create_chunks(content_length: u64, chunk_size: u64) -> (chunks: Vec<ChunkInfo>)
    requires
        chunking_fits(content_length as nat, chunk_size as nat),
    ensures
        chunks@.len() == chunk_count(content_length as nat, chunk_size as nat),
        forall|i: int|
            0 <= i < chunks@.len() ==> #[trigger] chunks@[i] == planned_chunk(
                i as nat,
                content_length as nat,
                chunk_size as nat,
            ),
{
    let mut chunks: Vec<ChunkInfo> = Vec::new();
    let mut start: u64 = 0;
    let mut index: usize = 0;
    let ghost len = content_length as int;
    let ghost cs = chunk_size as int;
    let ghost n = chunk_count(content_length as nat, chunk_size as nat) as int;
    while start < content_length
        invariant
            chunking_fits(content_length as nat, chunk_size as nat),
            len == content_length,
            cs == chunk_size,
            n == chunk_count(content_length as nat, chunk_size as nat),
            index <= n,
            chunks@.len() == index,
            start < content_length ==> index < n && start == index * cs,
            start >= content_length ==> index == n,
            forall|i: int|
                0 <= i < chunks@.len() ==> #[trigger] chunks@[i] == planned_chunk(
                    i as nat,
                    content_length as nat,
                    chunk_size as nat,
                ),
        decreases n - index,
    {
        proof {
            lemma_in_file(index as int, len, cs);
            lemma_in_file(index as int + 1, len, cs);
            lemma_mul_mono(index as int + 1, n, cs);
            assert((index as int + 1) * cs == index * cs + cs) by (nonlinear_arith);
        }
        let last = content_length - 1;
        let reach = start + (chunk_size - 1);
        let end = if reach < last { reach } else { last };
        let size = end - start + 1;
        chunks.push(ChunkInfo { index, start, end, priority: ChunkPriority::Normal, size });
        start = end + 1;
        index = index + 1;
    }
    chunks
}


/// Planned chunks are contiguous and cover the whole file: the first starts
/// at byte 0, each next one starts right after the previous one ends, the
/// last ends at the final byte, and none is empty or longer than `cs`.
pub proof fn lemma_chunks_tile_file(len: nat, cs: nat)
    requires
        chunking_fits(len, cs),
        0 < len <= u64::MAX,
    ensures
        planned_chunk(0, len, cs).start == 0,
        planned_chunk((chunk_count(len, cs) - 1) as nat, len, cs).end == len - 1,
        forall|i: nat|
            i + 1 < chunk_count(len, cs) ==> (#[trigger] planned_chunk(i + 1, len, cs)).start
                == planned_chunk(i, len, cs).end + 1,
        forall|i: nat|
            i < chunk_count(len, cs) ==> 1 <= (#[trigger] planned_chunk(i, len, cs)).size <= cs
                && planned_chunk(i, len, cs).end == planned_chunk(i, len, cs).start
                + planned_chunk(i, len, cs).size - 1,
{
    let n = chunk_count(len, cs) as int;
    assert forall|i: nat| i + 1 < chunk_count(len, cs) implies (#[trigger] planned_chunk(i + 1, len, cs)).start
        == planned_chunk(i, len, cs).end + 1 by {
        lemma_in_file((i + 1) as int, len as int, cs as int);
        lemma_mul_mono((i + 2) as int, n, cs as int);
        assert((i + 1) * cs == i * cs + cs) by (nonlinear_arith);
        assert((i + 2) * cs == i * cs + cs + cs) by (nonlinear_arith);
    }
    assert forall|i: nat| i < chunk_count(len, cs) implies 1 <= (#[trigger] planned_chunk(i, len, cs)).size <= cs
        && planned_chunk(i, len, cs).end == planned_chunk(i, len, cs).start + planned_chunk(i, len, cs).size - 1 by {
        lemma_in_file(i as int, len as int, cs as int);
        let st = i * cs;
        assert(st < len);
        let en: int = if st + cs <= len { st + cs - 1 } else { len - 1 };
        assert(st <= en < len);
        assert(1 <= en - st + 1 <= cs);
        assert(planned_chunk(i, len, cs).start == st);
        assert(planned_chunk(i, len, cs).end == en);
        assert(planned_chunk(i, len, cs).size == en - st + 1);
    }
    lemma_in_file(n - 1, len as int, cs as int);
    lemma_in_file(n, len as int, cs as int);
    assert(n * cs == (n - 1) * cs + cs) by (nonlinear_arith);
    assert(0 * cs == 0) by (nonlinear_arith);
}

/// Direction in which recent throughput moves.
#[derive(Debug, Clone, Copy, PartialEq, Eq, Structural)]
pub enum TrendSignal {
    /// Throughput fell by more than a fifth.
    Falling,
    /// Throughput changed by at most a fifth either way.
    Steady,
    /// Throughput rose by more than a fifth.
    Rising,
}

/// The priority chunk `index` of `total` gets from its position alone: the
/// ratio of index to chunk count under 5% is Critical, under 20% High,
/// over 90% Low, else Normal.
pub open spec fn position_priority(index: nat, total: nat) -> ChunkPriority {
    if 20 * index < total {
        ChunkPriority::Critical
    } else if 5 * index < total {
        ChunkPriority::High
    } else if 10 * index > 9 * total {
        ChunkPriority::Low
    } else {
        ChunkPriority::Normal
    }
}

/// The priority a chunk gets from its position in the file (ratio of index
/// to chunk count: under 5% Critical, under 20% High, over 90% Low, else
/// Normal), adjusted for the network: on a link under 1 Mbps chunks past
/// the middle are deferred; with falling throughput chunks past 30% move
/// one step down; with rising throughput and under 1% loss, Low and Normal
/// move one step up.
pub open spec fn priority_for(index: nat, total: nat, slow_link: bool, trend: TrendSignal, low_loss: bool) -> ChunkPriority {
    let base = position_priority(index, total);
    if slow_link && 2 * index > total {
        ChunkPriority::Deferred
    } else if trend == TrendSignal::Falling && 10 * index > 3 * total {
        match base {
            ChunkPriority::Critical => ChunkPriority::High,
            ChunkPriority::High => ChunkPriority::Normal,
            _ => ChunkPriority::Low,
        }
    } else if trend == TrendSignal::Rising && low_loss {
        match base {
            ChunkPriority::Low => ChunkPriority::Normal,
            ChunkPriority::Normal => ChunkPriority::High,
            _ => base,
        }
    } else {
        base
    }
}

impl ChunkPriority {
    /// Priority of chunk `index` out of `total_chunks`, given whether the
    /// link is slow (bandwidth under 1 Mbps), where throughput is heading,
    /// and whether packet loss is under 1%.
    pub fn from_signals(index: usize, total_chunks: usize, slow_link: bool, trend: TrendSignal, low_loss: bool) -> (r: ChunkPriority)
        ensures
            r == priority_for(index as nat, total_chunks as nat, slow_link, trend, low_loss),
            r == ChunkPriority::Critical ==> 20 * index < total_chunks,
    {
        proof {
            lemma_signals_adjust_position_priority(index as nat, total_chunks as nat, slow_link, trend, low_loss);
        }
        let i = index as u128;
        let t = total_chunks as u128;
        let base = if 20 * i < t {
            ChunkPriority::Critical
        } else if 5 * i < t {
            ChunkPriority::High
        } else if 10 * i > 9 * t {
            ChunkPriority::Low
        } else {
            ChunkPriority::Normal
        };
        if slow_link && 2 * i > t {
            return ChunkPriority::Deferred;
        }
        match trend {
            TrendSignal::Falling if 10 * i > 3 * t => match base {
                ChunkPriority::Critical => ChunkPriority::High,
                ChunkPriority::High => ChunkPriority::Normal,
                _ => ChunkPriority::Low,
            },
            TrendSignal::Rising if low_loss => match base {
                ChunkPriority::Low => ChunkPriority::Normal,
                ChunkPriority::Normal => ChunkPriority::High,
                _ => base,
            },
            _ => base,
        }
    }
}


/// How the network signals change the priority a chunk has by its
/// position. A chunk past the middle on a slow link is deferred. Otherwise:
/// with falling throughput a chunk past 30% moves exactly one step down
/// (never below Low); with rising throughput and low loss a Low or Normal
/// chunk moves exactly one step up, and a High or Critical chunk keeps its
/// position priority; in every other case the position priority stands.
/// In particular no signal ever makes a chunk Critical: only the first 5%
/// of the chunks are.
pub proof fn lemma_signals_adjust_position_priority(
    index: nat,
    total: nat,
    slow_link: bool,
    trend: TrendSignal,
    low_loss: bool,
)
    ensures
        ({
            let p = position_priority(index, total);
            let r = priority_for(index, total, slow_link, trend, low_loss);
            &&& (20 * index < total <==> p == ChunkPriority::Critical)
            &&& (p == ChunkPriority::High <==> 20 * index >= total && 5 * index < total)
            &&& (p == ChunkPriority::Low <==> 5 * index >= total && 10 * index > 9 * total)
            &&& 1 <= p.rank()
            &&& r == ChunkPriority::Critical ==> p == ChunkPriority::Critical
            &&& slow_link && 2 * index > total ==> r == ChunkPriority::Deferred
            &&& !(slow_link && 2 * index > total) ==> {
                &&& 1 <= r.rank()
                &&& trend == TrendSignal::Falling && 10 * index > 3 * total ==> r.rank() == (if p.rank() > 1 {
                    p.rank() - 1
                } else {
                    1
                })
                &&& trend == TrendSignal::Rising && low_loss ==> {
                    &&& p.rank() >= 3 ==> r == p
                    &&& p.rank() <= 2 ==> r.rank() == p.rank() + 1
                }
                &&& !(trend == TrendSignal::Falling && 10 * index > 3 * total) && !(trend == TrendSignal::Rising
                    && low_loss) ==> r == p
            }
        }),
{
}

/// Gives every chunk the priority `priority_for` assigns it among all
/// `chunks`, given the state of the link; nothing else changes.
pub fn prioritize_chunks(chunks: Vec<ChunkInfo>, slow_link: bool, trend: TrendSignal, low_loss: bool) -> (r: Vec<ChunkInfo>)
    ensures
        r@.len() == chunks@.len(),
        forall|i: int|
            0 <= i < chunks@.len() ==> #[trigger] r@[i] == (ChunkInfo {
                priority: priority_for(chunks@[i].index as nat, chunks@.len(), slow_link, trend, low_loss),
                ..chunks@[i]
            }),
{
    let total = chunks.len();
    let mut r: Vec<ChunkInfo> = Vec::new();
    let mut i: usize = 0;
    while i < chunks.len()
        invariant
            i <= chunks@.len(),
            total == chunks@.len(),
            r@.len() == i,
            forall|k: int|
                0 <= k < i ==> #[trigger] r@[k] == (ChunkInfo {
                    priority: priority_for(chunks@[k].index as nat, chunks@.len(), slow_link, trend, low_loss),
                    ..chunks@[k]
                }),
        decreases chunks@.len() - i,
    {
        let c = chunks[i];
        let p = ChunkPriority::from_signals(c.index, total, slow_link, trend, low_loss);
        r.push(ChunkInfo { priority: p, ..c });
        i = i + 1;
    }
    r
}

/// `a` is served no later than `b`: higher priority first, and among equal
/// priorities the lower index first.
pub open spec fn served_before(a: ChunkInfo, b: ChunkInfo) -> bool {
    a.priority.rank() > b.priority.rank() || (a.priority.rank() == b.priority.rank() && a.index <= b.index)
}

/// Chunks waiting to be downloaded, handed out most urgent first.
pub struct ChunkQueue {
    items: Vec<ChunkInfo>,
}

impl View for ChunkQueue {
    type V = Multiset<ChunkInfo>;

    closed spec fn view(&self) -> Multiset<ChunkInfo> {
        self.items@.to_multiset()
    }
}

impl ChunkQueue {
    /// A queue holding `chunks`.
    pub fn from_chunks(chunks: Vec<ChunkInfo>) -> (q: ChunkQueue)
        ensures
            q@ == chunks@.to_multiset(),
    {
        ChunkQueue { items: chunks }
    }

    /// Number of waiting chunks.
    pub fn len(&self) -> (n: usize)
        ensures
            n == self@.len(),
    {
        proof {
            self.items@.to_multiset_ensures();
        }
        self.items.len()
    }

    /// Adds a chunk.
    pub fn push(&mut self, chunk: ChunkInfo)
        ensures
            final(self)@ == old(self)@.insert(chunk),
    {
        proof {
            self.items@.to_multiset_ensures();
        }
        self.items.push(chunk);
    }

    /// Takes out the chunk to download next: one that is served before every
    /// other waiting chunk. `None` when the queue is empty.
    pub fn pop(&mut self) -> (r: Option<ChunkInfo>)
        ensures
            r is None <==> old(self)@.len() == 0,
            r is None ==> final(self)@ == old(self)@,
            r matches Some(c) ==> {
                &&& old(self)@.contains(c)
                &&& final(self)@ == old(self)@.remove(c)
                &&& forall|d: ChunkInfo| old(self)@.contains(d) ==> served_before(c, d)
            },
    {
        proof {
            self.items@.to_multiset_ensures();
        }
        if self.items.len() == 0 {
            return None;
        }
        let mut best: usize = 0;
        let mut i: usize = 1;
        while i < self.items.len()
            invariant
                0 < self.items.len(),
                best < i <= self.items.len(),
                forall|j: int| 0 <= j < i ==> served_before(self.items@[best as int], #[trigger] self.items@[j]),
            decreases self.items.len() - i,
        {
            let a = self.items[i];
            let b = self.items[best];
            let ra = a.priority.value();
            let rb = b.priority.value();
            if ra > rb || (ra == rb && a.index < b.index) {
                best = i;
            }
            i = i + 1;
        }
        let ghost before = self.items@;
        let c = self.items.remove(best);
        proof {
            vstd::seq_lib::to_multiset_remove(before, best as int);
            before.to_multiset_ensures();
            assert forall|d: ChunkInfo| before.to_multiset().contains(d) implies served_before(c, d) by {
                let j = choose|j: int| 0 <= j < before.len() && before[j] == d;
                assert(served_before(before[best as int], before[j]));
            }
        }
        Some(c)
    }
}


/// Chunks leave the queue in serving order: once `c` has been taken as the
/// chunk served before every waiting one, any chunk taken after it is
/// served no earlier than `c`.
pub proof fn lemma_pops_in_serving_order(waiting: Multiset<ChunkInfo>, c: ChunkInfo, d: ChunkInfo)
    requires
        waiting.contains(c),
        forall|x: ChunkInfo| waiting.contains(x) ==> served_before(c, x),
        waiting.remove(c).contains(d),
    ensures
        served_before(c, d),
{
    broadcast use vstd::multiset::group_multiset_axioms;
    assert(waiting.remove(c).count(d) <= waiting.count(d));
    assert(waiting.contains(d));
}

/// The bytes downloaded for chunk `index`.
#[derive(Debug)]
pub struct ChunkResult {
    pub index: usize,
    pub data: Vec<u8>,
}

/// How many results in `s` carry chunk index `v`.
pub open spec fn index_count(s: Seq<ChunkResult>, v: int) -> nat
    decreases s.len(),
{
    if s.len() == 0 {
        0
    } else {
        (if s[0].index == v { 1nat } else { 0nat }) + index_count(s.drop_first(), v)
    }
}

/// Every index `0..n` occurs exactly once among the `n` results.
pub open spec fn indices_complete(s: Seq<ChunkResult>) -> bool {
    forall|v: int| 0 <= v < s.len() ==> #[trigger] index_count(s, v) == 1
}

/// The smallest index at or after `v` (below `s.len()`) that does not occur
/// exactly once; `s.len()` if there is none.
pub open spec fn first_gap_from(s: Seq<ChunkResult>, v: int) -> int
    decreases s.len() - v,
{
    if v < 0 || v >= s.len() {
        s.len() as int
    } else if index_count(s, v) != 1 {
        v
    } else {
        first_gap_from(s, v + 1)
    }
}

proof fn lemma_count_positive(s: Seq<ChunkResult>, v: int, p: int)
    requires
        0 <= p < s.len(),
        s[p].index == v,
    ensures
        index_count(s, v) >= 1,
    decreases s.len(),
{
    if p > 0 {
        lemma_count_positive(s.drop_first(), v, p - 1);
    }
}

proof fn lemma_count_unique(s: Seq<ChunkResult>, v: int, p: int, q: int)
    requires
        0 <= p < s.len(),
        0 <= q < s.len(),
        s[p].index == v,
        s[q].index == v,
        index_count(s, v) == 1,
    ensures
        p == q,
    decreases s.len(),
{
    if p == 0 && q > 0 {
        lemma_count_positive(s.drop_first(), v, q - 1);
    } else if q == 0 && p > 0 {
        lemma_count_positive(s.drop_first(), v, p - 1);
    } else if p > 0 && q > 0 {
        if s[0].index == v {
            lemma_count_positive(s.drop_first(), v, p - 1);
        } else {
            lemma_count_unique(s.drop_first(), v, p - 1, q - 1);
        }
    }
}

proof fn lemma_first_gap(s: Seq<ChunkResult>, u: int, v: int)
    requires
        0 <= u <= v <= s.len(),
        forall|w: int| u <= w < v ==> #[trigger] index_count(s, w) == 1,
        v == s.len() || index_count(s, v) != 1,
    ensures
        first_gap_from(s, u) == v,
    decreases v - u,
{
    if u < v {
        lemma_first_gap(s, u + 1, v);
    }
}

/// How many results in `s` carry an index below `m`.
pub open spec fn count_below(s: Seq<ChunkResult>, m: int) -> nat
    decreases s.len(),
{
    if s.len() == 0 {
        0
    } else {
        (if s[0].index < m { 1nat } else { 0nat }) + count_below(s.drop_first(), m)
    }
}

/// Sum of `index_count(s, v)` over `v < m`.
pub open spec fn sum_counts(s: Seq<ChunkResult>, m: int) -> nat
    decreases m,
{
    if m <= 0 {
        0
    } else {
        sum_counts(s, m - 1) + index_count(s, m - 1)
    }
}

proof fn lemma_count_below_step(s: Seq<ChunkResult>, m: int)
    requires
        m >= 0,
    ensures
        count_below(s, m + 1) == count_below(s, m) + index_count(s, m),
    decreases s.len(),
{
    if s.len() > 0 {
        lemma_count_below_step(s.drop_first(), m);
    }
}

proof fn lemma_count_below_is_sum(s: Seq<ChunkResult>, m: int)
    requires
        m >= 0,
    ensures
        count_below(s, m) == sum_counts(s, m),
    decreases m,
{
    if m > 0 {
        lemma_count_below_is_sum(s, m - 1);
        lemma_count_below_step(s, m - 1);
    } else {
        lemma_count_below_zero(s);
    }
}

proof fn lemma_count_below_zero(s: Seq<ChunkResult>)
    ensures
        count_below(s, 0) == 0,
    decreases s.len(),
{
    if s.len() > 0 {
        lemma_count_below_zero(s.drop_first());
    }
}

proof fn lemma_count_below_full(s: Seq<ChunkResult>, m: int, p: int)
    requires
        count_below(s, m) == s.len(),
        0 <= p < s.len(),
    ensures
        s[p].index < m,
    decreases s.len(),
{
    lemma_count_below_le(s.drop_first(), m);
    if p > 0 {
        lemma_count_below_full(s.drop_first(), m, p - 1);
    }
}

proof fn lemma_count_below_le(s: Seq<ChunkResult>, m: int)
    ensures
        count_below(s, m) <= s.len(),
    decreases s.len(),
{
    if s.len() > 0 {
        lemma_count_below_le(s.drop_first(), m);
    }
}

proof fn lemma_sum_of_ones(s: Seq<ChunkResult>, m: int)
    requires
        0 <= m <= s.len(),
        forall|v: int| 0 <= v < m ==> #[trigger] index_count(s, v) == 1,
    ensures
        sum_counts(s, m) == m,
    decreases m,
{
    if m > 0 {
        lemma_sum_of_ones(s, m - 1);
    }
}

/// When every index below `n` occurs once among `n` results, no result
/// carries an index of `n` or more.
proof fn lemma_complete_indices_in_range(s: Seq<ChunkResult>, p: int)
    requires
        indices_complete(s),
        0 <= p < s.len(),
    ensures
        s[p].index < s.len(),
{
    lemma_sum_of_ones(s, s.len() as int);
    lemma_count_below_is_sum(s, s.len() as int);
    lemma_count_below_full(s, s.len() as int, p);
}

/// Error text naming position `gap` of the sorted results as the first
/// one that does not hold its own chunk.
pub open spec fn missing_chunk_text(gap: int) -> Seq<char> {
    "Missing chunk at index "@ + decimal(gap as nat)
}

/// The first position at which the results, stably sorted by index, do
/// not hold chunk number `position`: the first index `g` that is not there
/// exactly once, or, when `g` is there more than once, the position after
/// it (where its second copy sits).
pub open spec fn first_misplaced(s: Seq<ChunkResult>) -> int {
    let g = first_gap_from(s, 0);
    if index_count(s, g) >= 2 {
        g + 1
    } else {
        g
    }
}

/// Puts downloaded chunks in file order. Succeeds exactly when the `n`
/// results carry each index `0..n` once; then result `v` of the answer is
/// the one with index `v`. Otherwise reports the first position of the
/// sorted results that holds the wrong chunk.
pub fn order_chunk_results(results: Vec<ChunkResult>) -> (r: Result<Vec<ChunkResult>, DownloadError>)
    ensures
        match r {
            Ok(out) => {
                &&& indices_complete(results@)
                &&& out@.len() == results@.len()
                &&& forall|v: int| 0 <= v < out@.len() ==> (#[trigger] out@[v]).index == v
                &&& forall|p: int|
                    0 <= p < results@.len() ==> out@[results@[p].index as int] == #[trigger] results@[p]
            },
            Err(e) => {
                &&& !indices_complete(results@)
                &&& e matches DownloadError::InvalidChunkRange(m) && m@ == missing_chunk_text(
                    first_misplaced(results@),
                )
            },
        },
{
    let ghost orig = results@;
    let n = results.len();
    let mut pending = results;
    let mut counts: Vec<u8> = Vec::new();
    let mut slots: Vec<Option<ChunkResult>> = Vec::new();
    let mut j: usize = 0;
    while j < n
        invariant
            j <= n,
            orig == results@,
            counts@.len() == j,
            slots@.len() == j,
            forall|v: int| 0 <= v < j ==> counts@[v] == 0 && slots@[v] is None,
        decreases n - j,
    {
        counts.push(0);
        slots.push(None);
        j = j + 1;
    }
    let mut k: usize = n;
    assert(orig.subrange(n as int, n as int) =~= Seq::<ChunkResult>::empty());
    while k > 0
        invariant
            k <= n,
            n == orig.len(),
            orig == results@,
            pending@ == orig.take(k as int),
            counts@.len() == n,
            slots@.len() == n,
            forall|v: int|
                0 <= v < n ==> #[trigger] counts@[v] as nat == (if index_count(orig.subrange(k as int, n as int), v) >= 2 {
                    2
                } else {
                    index_count(orig.subrange(k as int, n as int), v)
                }),
            forall|v: int|
                0 <= v < n && counts@[v] >= 1 ==> ((#[trigger] slots@[v]) matches Some(x) && x.index == v
                    && exists|p: int| k <= p < n && orig[p] == x),
        decreases k,
    {
        let ghost sub = orig.subrange(k - 1, n as int);
        assert(sub.drop_first() =~= orig.subrange(k as int, n as int));
        let x = match pending.pop() {
            Some(x) => x,
            None => {
                return Err(DownloadError::Cancelled);
            },
        };
        assert(x == orig[k - 1]);
        k = k - 1;
        assert(pending@ =~= orig.take(k as int));
        let v = x.index;
        if v < n {
            let c = counts[v];
            let c2: u8 = if c >= 2 { 2 } else { c + 1 };
            counts.set(v, c2);
            slots.set(v, Some(x));
        }
    }
    assert(orig.subrange(0, n as int) =~= orig);
    let mut v: usize = 0;
    while v < n
        invariant
            v <= n,
            n == orig.len(),
            orig == results@,
            counts@.len() == n,
            forall|w: int|
                0 <= w < n ==> #[trigger] counts@[w] as nat == (if index_count(orig, w) >= 2 {
                    2
                } else {
                    index_count(orig, w)
                }),
            forall|w: int| 0 <= w < v ==> #[trigger] index_count(orig, w) == 1,
        decreases n - v,
    {
        if counts[v] != 1 {
            proof {
                lemma_first_gap(orig, 0, v as int);
            }
            let at: usize = if counts[v] == 0 {
                v
            } else {
                v + 1
            };
            let mut msg = String::from_str("Missing chunk at index ");
            let num = decimal_string(at as u64);
            push_str(&mut msg, num.as_str());
            return Err(DownloadError::InvalidChunkRange(msg));
        }
        v = v + 1;
    }
    assert(indices_complete(orig));
    let mut rev: Vec<ChunkResult> = Vec::new();
    while slots.len() > 0
        invariant
            slots@.len() + rev@.len() == n,
            n == orig.len(),
            orig == results@,
            indices_complete(orig),
            forall|w: int|
                0 <= w < slots@.len() ==> ((#[trigger] slots@[w]) matches Some(x) && x.index == w
                    && exists|p: int| 0 <= p < n && orig[p] == x),
            forall|t: int|
                0 <= t < rev@.len() ==> (#[trigger] rev@[t]).index == n - 1 - t
                    && exists|p: int| 0 <= p < n && orig[p] == rev@[t],
        decreases slots@.len(),
    {
        let ghost w = slots@.len() - 1;
        let x = match slots.pop() {
            Some(Some(x)) => x,
            _ => {
                return Err(DownloadError::Cancelled);
            },
        };
        rev.push(x);
    }
    let mut out: Vec<ChunkResult> = Vec::new();
    while rev.len() > 0
        invariant
            out@.len() + rev@.len() == n,
            n == orig.len(),
            orig == results@,
            forall|t: int|
                0 <= t < rev@.len() ==> (#[trigger] rev@[t]).index == n - 1 - t
                    && exists|p: int| 0 <= p < n && orig[p] == rev@[t],
            forall|t: int|
                0 <= t < out@.len() ==> (#[trigger] out@[t]).index == t
                    && exists|p: int| 0 <= p < n && orig[p] == out@[t],
        decreases rev@.len(),
    {
        let x = match rev.pop() {
            Some(x) => x,
            None => {
                return Err(DownloadError::Cancelled);
            },
        };
        out.push(x);
    }
    proof {
        assert forall|p: int| 0 <= p < orig.len() implies out@[orig[p].index as int] == #[trigger] orig[p] by {
            let v = orig[p].index as int;
            assert(index_count(orig, v) >= 1) by {
                lemma_count_positive(orig, v, p);
            }
            lemma_complete_indices_in_range(orig, p);
            let q = choose|q: int| 0 <= q < n && orig[q] == out@[v];
            lemma_count_unique(orig, v, p, q);
        }
    }
    Ok(out)
}


/// Refuses an empty URL before any request is made.
pub fn require_url(url: &str) -> (r: Result<(), DownloadError>)
    ensures
        url@.len() == 0 ==> (r matches Err(DownloadError::InvalidUrl(m)) && m@ == "URL cannot be empty"@),
        url@.len() > 0 ==> r is Ok,
{
    if url.is_empty() {
        Err(DownloadError::InvalidUrl(String::from_str("URL cannot be empty")))
    } else {
        Ok(())
    }
}

/// File length from the `Content-Length` header of a HEAD response (`None`
/// when the header is absent or not visible ASCII): its decimal value, or
/// `ContentLengthUnknown`.
pub fn content_length_from_header(value: Option<&str>) -> (r: Result<u64, DownloadError>)
    ensures
        match value {
            Some(v) => match parse_u64_spec(v@) {
                Some(n) => r == Ok::<u64, DownloadError>(n),
                None => r == Err::<u64, DownloadError>(DownloadError::ContentLengthUnknown),
            },
            None => r == Err::<u64, DownloadError>(DownloadError::ContentLengthUnknown),
        },
{
    match value {
        Some(v) => match parse_u64(v) {
            Some(n) => Ok(n),
            None => Err(DownloadError::ContentLengthUnknown),
        },
        None => Err(DownloadError::ContentLengthUnknown),
    }
}

/// Whether the `Accept-Ranges` header (`None` when absent or not visible
/// ASCII) announces byte ranges: it must equal `bytes` up to ASCII case.
pub fn range_support_from_header(value: Option<&str>) -> (r: Result<(), DownloadError>)
    ensures
        r is Ok <==> (value matches Some(v) && eq_ignore_ascii_case_spec(v@, "bytes"@)),
        r is Err ==> r == Err::<(), DownloadError>(DownloadError::RangeNotSupported),
{
    match value {
        Some(v) => {
            let cs = chars_of(v);
            let bytes = chars_of("bytes");
            if eq_ignore_ascii_case(&cs, &bytes) {
                Ok(())
            } else {
                Err(DownloadError::RangeNotSupported)
            }
        },
        None => Err(DownloadError::RangeNotSupported),
    }
}

/// The `Range` header value asking for one chunk: `bytes=<start>-<end>`.
pub fn range_header(chunk: &ChunkInfo) -> (r: String)
    ensures
        r@ == "bytes="@ + decimal(chunk.start as nat) + "-"@ + decimal(chunk.end as nat),
{
    let mut r = String::from_str("bytes=");
    let a = decimal_string(chunk.start);
    push_str(&mut r, a.as_str());
    push_str(&mut r, "-");
    let b = decimal_string(chunk.end);
    push_str(&mut r, b.as_str());
    r
}

/// A chunk response is accepted with status 200 (OK) or 206 (Partial Content).
pub fn chunk_status_accepted(status: u16) -> (r: bool)
    ensures
        r == (status == 200 || status == 206),
{
    status == 200 || status == 206
}

/// Text of the error for a chunk body of the wrong length.
pub open spec fn wrong_length_text(expected: nat, got: nat, index: nat) -> Seq<char> {
    "Expected "@ + decimal(expected) + " bytes, got "@ + decimal(got) + " bytes for chunk "@ + decimal(index)
}

/// A downloaded chunk body must be exactly as long as the chunk.
pub fn check_chunk_length(chunk: &ChunkInfo, got: u64) -> (r: Result<(), DownloadError>)
    ensures
        got == chunk.size ==> r is Ok,
        got != chunk.size ==> (r matches Err(DownloadError::InvalidChunkRange(m)) && m@ == wrong_length_text(
            chunk.size as nat,
            got as nat,
            chunk.index as nat,
        )),
{
    if got == chunk.size {
        return Ok(());
    }
    let mut m = String::from_str("Expected ");
    let a = decimal_string(chunk.size);
    push_str(&mut m, a.as_str());
    push_str(&mut m, " bytes, got ");
    let b = decimal_string(got);
    push_str(&mut m, b.as_str());
    push_str(&mut m, " bytes for chunk ");
    let c = decimal_string(chunk.index as u64);
    push_str(&mut m, c.as_str());
    Err(DownloadError::InvalidChunkRange(m))
}

/// With adaptive sizing a worker looks at the link again after every fifth
/// chunk it has finished.
pub fn congestion_check_due(adaptive: bool, finished: u64) -> (r: bool)
    ensures
        r == (adaptive && finished % 5 == 0),
{
    adaptive && finished % 5 == 0
}

} // verus!
