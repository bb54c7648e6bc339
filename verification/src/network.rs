//! Bookkeeping of recent chunk downloads, and the chunk size the link
//! quality calls for.
use vstd::prelude::*;
use std::collections::VecDeque;

verus! {

broadcast use vstd::std_specs::vecdeque::group_vec_dequeue_axioms;

/// One finished chunk: its size, how long it took (ms), when it finished
/// (ms on the monitor's monotonic clock) and whether it succeeded.
#[derive(Debug, Clone, Copy)]
pub struct ChunkSample {
    pub bytes: u64,
    pub duration_ms: u64,
    pub at_ms: u64,
    pub success: bool,
}

/// At most this many samples are kept.
pub const MAX_SAMPLES: usize = 50;

/// Samples older than this many milliseconds are dropped.
pub const WINDOW_MS: u64 = 30000;

/// The oldest finishing time still kept at time `now`.
pub open spec fn window_start(now: nat) -> nat {
    if now >= WINDOW_MS {
        (now - WINDOW_MS) as nat
    } else {
        0
    }
}

/// `s` without its leading samples that finished before `cutoff`.
pub open spec fn drop_stale(s: Seq<ChunkSample>, cutoff: nat) -> Seq<ChunkSample>
    decreases s.len(),
{
    if s.len() > 0 && s[0].at_ms < cutoff {
        drop_stale(s.drop_first(), cutoff)
    } else {
        s
    }
}

/// The newest `MAX_SAMPLES` of `s`.
pub open spec fn newest(s: Seq<ChunkSample>) -> Seq<ChunkSample> {
    if s.len() > MAX_SAMPLES {
        s.subrange(s.len() - MAX_SAMPLES, s.len() as int)
    } else {
        s
    }
}

/// The samples kept after `sample` is recorded at time `now`: it is
/// appended, the oldest are dropped down to `MAX_SAMPLES`, then those at
/// the front that finished before the window are dropped.
pub open spec fn after_record(s: Seq<ChunkSample>, sample: ChunkSample, now: nat) -> Seq<ChunkSample> {
    drop_stale(newest(s.push(sample)), window_start(now))
}

/// Finishing times never decrease from front to back.
pub open spec fn in_time_order(s: Seq<ChunkSample>) -> bool {
    forall|i: int, j: int| 0 <= i <= j < s.len() ==> s[i].at_ms <= s[j].at_ms
}

/// Sum of the sizes of `s`.
pub open spec fn bytes_total(s: Seq<ChunkSample>) -> nat
    decreases s.len(),
{
    if s.len() == 0 {
        0
    } else {
        bytes_total(s.drop_last()) + s.last().bytes as nat
    }
}

/// Sum of the durations of `s`, in ms.
pub open spec fn duration_total(s: Seq<ChunkSample>) -> nat
    decreases s.len(),
{
    if s.len() == 0 {
        0
    } else {
        duration_total(s.drop_last()) + s.last().duration_ms as nat
    }
}

/// How many samples of `s` failed.
pub open spec fn failures(s: Seq<ChunkSample>) -> nat
    decreases s.len(),
{
    if s.len() == 0 {
        0
    } else {
        failures(s.drop_last()) + if s.last().success { 0nat } else { 1nat }
    }
}

/// The recent chunk downloads of one transfer.
pub struct SampleWindow {
    samples: VecDeque<ChunkSample>,
}

impl View for SampleWindow {
    type V = Seq<ChunkSample>;

    closed spec fn view(&self) -> Seq<ChunkSample> {
        self.samples@
    }
}

proof fn lemma_drop_stale_shape(s: Seq<ChunkSample>, cutoff: nat)
    ensures
        drop_stale(s, cutoff).len() <= s.len(),
        exists|k: int| 0 <= k <= s.len() && drop_stale(s, cutoff) == s.subrange(k, s.len() as int),
    decreases s.len(),
{
    if s.len() > 0 && s[0].at_ms < cutoff {
        lemma_drop_stale_shape(s.drop_first(), cutoff);
        let k = choose|k: int| 0 <= k <= s.drop_first().len() && drop_stale(s.drop_first(), cutoff) == s.drop_first().subrange(k, s.drop_first().len() as int);
        assert(s.drop_first().subrange(k, s.drop_first().len() as int) =~= s.subrange(k + 1, s.len() as int));
    } else {
        assert(s.subrange(0, s.len() as int) =~= s);
    }
}

proof fn lemma_drop_stale_keeps_last(s: Seq<ChunkSample>, cutoff: nat)
    requires
        s.len() > 0,
        s.last().at_ms >= cutoff,
    ensures
        drop_stale(s, cutoff).len() > 0,
        drop_stale(s, cutoff).last() == s.last(),
    decreases s.len(),
{
    if s[0].at_ms < cutoff {
        assert(s.len() > 1);
        assert(s.drop_first().last() == s.last());
        lemma_drop_stale_keeps_last(s.drop_first(), cutoff);
    }
}

proof fn lemma_drop_stale_window(s: Seq<ChunkSample>, cutoff: nat)
    requires
        in_time_order(s),
    ensures
        in_time_order(drop_stale(s, cutoff)),
        forall|i: int| 0 <= i < drop_stale(s, cutoff).len() ==> #[trigger] drop_stale(s, cutoff)[i].at_ms >= cutoff,
    decreases s.len(),
{
    if s.len() > 0 && s[0].at_ms < cutoff {
        let t = s.drop_first();
        assert(in_time_order(t)) by {
            assert forall|i: int, j: int| 0 <= i <= j < t.len() implies t[i].at_ms <= t[j].at_ms by {
                assert(t[i] == s[i + 1] && t[j] == s[j + 1]);
            }
        }
        lemma_drop_stale_window(t, cutoff);
    } else if s.len() > 0 {
        assert forall|i: int| 0 <= i < s.len() implies #[trigger] s[i].at_ms >= cutoff by {
            assert(s[0].at_ms <= s[i].at_ms);
        }
    }
}

proof fn lemma_totals_push(s: Seq<ChunkSample>, x: ChunkSample)
    ensures
        bytes_total(s.push(x)) == bytes_total(s) + x.bytes,
        duration_total(s.push(x)) == duration_total(s) + x.duration_ms,
        failures(s.push(x)) == failures(s) + if x.success { 0nat } else { 1nat },
{
    assert(s.push(x).drop_last() =~= s);
}

impl SampleWindow {
    /// An empty window.
    pub fn new() -> (r: Self)
        ensures
            r@ == Seq::<ChunkSample>::empty(),
    {
        SampleWindow { samples: VecDeque::new() }
    }

    /// How many samples are kept.
    pub fn len(&self) -> (n: usize)
        ensures
            n == self@.len(),
    {
        self.samples.len()
    }

    /// Records a chunk that finished at `now` (ms) after `duration_ms`.
    /// At most `MAX_SAMPLES` are kept and the new sample always is the
    /// newest kept; where finishing times come in order, as they do from a
    /// monotonic clock, every sample left finished within the last
    /// `WINDOW_MS` before `now`.
    pub fn record(&mut self, bytes: u64, duration_ms: u64, success: bool, now: u64)
        ensures
            final(self)@ == after_record(
                old(self)@,
                ChunkSample { bytes, duration_ms, at_ms: now, success },
                now as nat,
            ),
            old(self)@.len() <= MAX_SAMPLES ==> final(self)@.len() <= MAX_SAMPLES,
            final(self)@.len() > 0,
            final(self)@.last() == (ChunkSample { bytes, duration_ms, at_ms: now, success }),
            in_time_order(old(self)@) && (old(self)@.len() > 0 ==> old(self)@.last().at_ms <= now) ==> {
                &&& in_time_order(final(self)@)
                &&& forall|i: int| 0 <= i < final(self)@.len() ==> #[trigger] final(self)@[i].at_ms >= window_start(now as nat)
            },
    {
        let sample = ChunkSample { bytes, duration_ms, at_ms: now, success };
        let ghost pushed = self.samples@.push(sample);
        self.samples.push_back(sample);
        while self.samples.len() > MAX_SAMPLES
            invariant
                pushed.len() > 0,
                pushed.len() <= MAX_SAMPLES ==> self.samples@ == pushed,
                pushed.len() > MAX_SAMPLES ==> MAX_SAMPLES <= self.samples@.len() <= pushed.len(),
                pushed.len() > MAX_SAMPLES ==> self.samples@ == pushed.subrange(
                    pushed.len() - self.samples@.len(),
                    pushed.len() as int,
                ),
            decreases self.samples@.len(),
        {
            let ghost before = self.samples@;
            let _ = self.samples.pop_front();
            assert(self.samples@ =~= pushed.subrange(pushed.len() - self.samples@.len(), pushed.len() as int));
        }
        assert(self.samples@ == newest(pushed));
        let cutoff: u64 = if now >= WINDOW_MS {
            now - WINDOW_MS
        } else {
            0
        };
        let ghost capped = self.samples@;
        while self.samples.len() > 0 && self.samples[0].at_ms < cutoff
            invariant
                cutoff == window_start(now as nat),
                drop_stale(self.samples@, cutoff as nat) == drop_stale(capped, cutoff as nat),
            decreases self.samples@.len(),
        {
            let ghost before = self.samples@;
            let _ = self.samples.pop_front();
            assert(self.samples@ =~= before.drop_first());
        }
        proof {
            let cur = self.samples@;
            assert(drop_stale(cur, cutoff as nat) == cur);
            lemma_drop_stale_shape(capped, cutoff as nat);
            assert(capped.last() == sample);
            lemma_drop_stale_keeps_last(capped, cutoff as nat);
            let sorted = in_time_order(old(self)@) && (old(self)@.len() > 0 ==> old(self)@.last().at_ms <= now);
            if sorted {
                assert(in_time_order(pushed)) by {
                    assert forall|i: int, j: int| 0 <= i <= j < pushed.len() implies pushed[i].at_ms <= pushed[j].at_ms by {
                        if j < old(self)@.len() {
                            assert(pushed[i] == old(self)@[i] && pushed[j] == old(self)@[j]);
                        } else if i < old(self)@.len() {
                            assert(old(self)@[i].at_ms <= old(self)@.last().at_ms);
                        }
                    }
                }
                assert(in_time_order(capped)) by {
                    assert forall|i: int, j: int| 0 <= i <= j < capped.len() implies capped[i].at_ms <= capped[j].at_ms by {
                        if pushed.len() > MAX_SAMPLES {
                            let off = pushed.len() - MAX_SAMPLES;
                            assert(capped[i] == pushed[off + i] && capped[j] == pushed[off + j]);
                        }
                    }
                }
                lemma_drop_stale_window(capped, cutoff as nat);
            }
        }
    }

    /// The kept samples, oldest first.
    pub fn samples(&self) -> (r: Vec<ChunkSample>)
        ensures
            r@ == self@,
    {
        let mut r: Vec<ChunkSample> = Vec::new();
        let mut i: usize = 0;
        while i < self.samples.len()
            invariant
                i <= self.samples@.len(),
                r@ == self.samples@.subrange(0, i as int),
            decreases self.samples@.len() - i,
        {
            r.push(self.samples[i]);
            i = i + 1;
            assert(r@ =~= self.samples@.subrange(0, i as int));
        }
        assert(r@ =~= self.samples@);
        r
    }

    /// Bytes, milliseconds and failures summed over the kept samples.
    pub fn totals(&self) -> (r: (u128, u128, usize))
        ensures
            r.0 == bytes_total(self@),
            r.1 == duration_total(self@),
            r.2 == failures(self@),
    {
        let mut bytes: u128 = 0;
        let mut millis: u128 = 0;
        let mut failed: usize = 0;
        let mut i: usize = 0;
        while i < self.samples.len()
            invariant
                i <= self.samples@.len(),
                bytes == bytes_total(self.samples@.take(i as int)),
                millis == duration_total(self.samples@.take(i as int)),
                failed == failures(self.samples@.take(i as int)),
                bytes <= i * 0xffff_ffff_ffff_ffff,
                millis <= i * 0xffff_ffff_ffff_ffff,
                failed <= i,
            decreases self.samples@.len() - i,
        {
            let s = self.samples[i];
            proof {
                assert(self.samples@.take(i + 1) =~= self.samples@.take(i as int).push(s));
                lemma_totals_push(self.samples@.take(i as int), s);
                assert(i * 0xffff_ffff_ffff_ffff + 0xffff_ffff_ffff_ffff == (i + 1) * 0xffff_ffff_ffff_ffff) by (nonlinear_arith);
                assert((i + 1) * 0xffff_ffff_ffff_ffff <= 0xffff_ffff_ffff_ffff * 0xffff_ffff_ffff_ffff) by (nonlinear_arith)
                    requires i + 1 <= 0xffff_ffff_ffff_ffff;
            }
            bytes = bytes + s.bytes as u128;
            millis = millis + s.duration_ms as u128;
            if !s.success {
                failed = failed + 1;
            }
            i = i + 1;
        }
        assert(self.samples@.take(self.samples@.len() as int) =~= self.samples@);
        (bytes, millis, failed)
    }
}

/// How fast the link is, in the steps the chunk size follows.
#[derive(Debug, Clone, Copy, PartialEq, Eq, Structural)]
pub enum BandwidthTier {
    /// Above 50 Mbit/s.
    Fast,
    /// Above 20 Mbit/s.
    Good,
    /// Above 5 Mbit/s.
    Fair,
    /// 5 Mbit/s or less.
    Slow,
}

/// The chunk size for a link: 10, 5, 2 or 1 MiB by bandwidth; halved
/// when more than 5% of chunks fail, otherwise cut to 70% (rounded down)
/// when the jitter exceeds 500 ms.
pub open spec fn optimal_chunk_size_spec(tier: BandwidthTier, lossy: bool, jittery: bool) -> nat {
    let base: nat = match tier {
        BandwidthTier::Fast => 10485760,
        BandwidthTier::Good => 5242880,
        BandwidthTier::Fair => 2097152,
        BandwidthTier::Slow => 1048576,
    };
    if lossy {
        base / 2
    } else if jittery {
        base * 7 / 10
    } else {
        base
    }
}

/// The chunk size that suits a link of the given quality.
pub fn optimal_chunk_size(tier: BandwidthTier, lossy: bool, jittery: bool) -> (r: u64)
    ensures
        r == optimal_chunk_size_spec(tier, lossy, jittery),
{
    let base: u64 = match tier {
        BandwidthTier::Fast => 10485760,
        BandwidthTier::Good => 5242880,
        BandwidthTier::Fair => 2097152,
        BandwidthTier::Slow => 1048576,
    };
    if lossy {
        base / 2
    } else if jittery {
        base * 7 / 10
    } else {
        base
    }
}

} // verus!
