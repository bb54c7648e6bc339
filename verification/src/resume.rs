//! What is kept on disk to resume an interrupted chunked download.
use vstd::prelude::*;
use crate::chunked::{
    chunk_count, chunking_fits, lemma_chunks_tile_file, planned_chunk, ChunkInfo, ChunkPriority, ChunkResult,
};

verus! {

/// One byte range of a resumable download and whether it has been written.
#[derive(Debug)]
pub struct ChunkState {
    pub index: usize,
    pub start: u64,
    pub end: u64,
    pub completed: bool,
    pub hash: Option<String>,
}

impl Clone for ChunkState {
    fn clone(&self) -> (r: Self)
        ensures
            r == *self,
    {
        let hash = match &self.hash {
            Some(h) => Some(h.clone()),
            None => None,
        };
        ChunkState { index: self.index, start: self.start, end: self.end, completed: self.completed, hash }
    }
}

/// Progress record of one download. `output_path` is the path of the file
/// being written; `timestamp` is in seconds since the Unix epoch.
#[derive(Debug)]
pub struct DownloadState {
    pub url: String,
    pub output_path: String,
    pub total_size: u64,
    pub downloaded_chunks: Vec<ChunkState>,
    pub timestamp: u64,
    pub chunk_size: u64,
    pub etag: Option<String>,
    pub last_modified: Option<String>,
}

/// The record of chunk `i` of a fresh download: the planned byte range,
/// not yet completed, no hash.
pub open spec fn fresh_chunk_state(i: nat, len: nat, cs: nat) -> ChunkState {
    let c = planned_chunk(i, len, cs);
    ChunkState { index: c.index, start: c.start, end: c.end, completed: false, hash: None }
}

/// What holds of the chunk list of a fresh record of `total` bytes: no
/// chunk is written yet, so every chunk is left to fetch; and for a
/// non-empty file there is at least one chunk, so the record is not
/// complete, and the list passes the integrity check.
pub open spec fn fresh_record_laws(s: Seq<ChunkState>, total: nat) -> bool {
    &&& s.filter(|c: ChunkState| !c.completed) == s
    &&& total > 0 ==> {
        &&& s.len() > 0
        &&& !(forall|i: int| 0 <= i < s.len() ==> #[trigger] s[i].completed)
        &&& integrity(s, total)
    }
}

/// A list of chunks none of which is written is its own list of chunks
/// left.
proof fn lemma_all_left(s: Seq<ChunkState>)
    requires
        forall|i: int| 0 <= i < s.len() ==> !(#[trigger] s[i]).completed,
    ensures
        s.filter(|c: ChunkState| !c.completed) == s,
    decreases s.len(),
{
    if s.len() > 0 {
        let p = s.drop_last();
        assert forall|i: int| 0 <= i < p.len() implies !(#[trigger] p[i]).completed by {
            assert(p[i] == s[i]);
        }
        lemma_all_left(p);
        assert(s =~= p.push(s.last()));
        p.lemma_filter_push(s.last(), |c: ChunkState| !c.completed);
    } else {
        assert(s.filter(|c: ChunkState| !c.completed) =~= s);
    }
}

/// The chunk list that `new_at` builds has the properties of a fresh record.
proof fn lemma_fresh_record(s: Seq<ChunkState>, total: nat, cs: nat)
    requires
        cs > 0,
        total <= u64::MAX,
        chunking_fits(total, cs),
        s.len() == chunk_count(total, cs),
        forall|i: int| 0 <= i < s.len() ==> #[trigger] s[i] == fresh_chunk_state(i as nat, total, cs),
    ensures
        fresh_record_laws(s, total),
{
    assert forall|i: int| 0 <= i < s.len() implies !(#[trigger] s[i]).completed by {
        assert(s[i] == fresh_chunk_state(i as nat, total, cs));
    }
    lemma_all_left(s);
    if total > 0 {
        crate::chunked::lemma_in_file(0, total as int, cs as int);
        assert(!s[0].completed);
        lemma_fresh_state_is_consistent(s, total, cs);
    }
}

/// Seconds since the Unix epoch, read from the system clock (std
/// `SystemTime::now` and `SystemTime::duration_since(UNIX_EPOCH)`), or
/// `None` when the clock reads a time before the epoch. Nothing is promised
/// of the value: it is whatever the clock says.
#[verifier::external_body]
fn unix_now_secs() -> Option<u64> {
    match std::time::SystemTime::now().duration_since(std::time::UNIX_EPOCH) {
        Ok(d) => Some(d.as_secs()),
        Err(_) => None,
    }
}

/// The last component of a path, as std's `Path::file_name` finds it on the
/// platform the crate is built for (`None` for a root, an empty path or a
/// path ending in `..`).
pub uninterp spec fn path_file_name(path: Seq<char>) -> Option<Seq<char>>;

/// A path with its last component replaced by `name`, as std's
/// `PathBuf::set_file_name` makes it.
pub uninterp spec fn path_with_file_name(path: Seq<char>, name: Seq<char>) -> Seq<char>;

/// Last component of `path` (std `Path::file_name`); the contract only
/// names the result.
#[verifier::external_body]
pub(crate) fn file_name_of(path: &str) -> (r: Option<String>)
    ensures
        match r {
            Some(n) => path_file_name(path@) == Some(n@),
            None => path_file_name(path@) is None,
        },
{
    std::path::Path::new(path).file_name().and_then(|n| n.to_str()).map(|n| n.to_string())
}

/// `path` with its last component set to `name` (std
/// `PathBuf::set_file_name`); the contract only names the result.
#[verifier::external_body]
fn with_file_name(path: &str, name: &str) -> (r: String)
    ensures
        r@ == path_with_file_name(path@, name@),
{
    let mut p = std::path::PathBuf::from(path);
    p.set_file_name(name);
    p.to_string_lossy().into_owned()
}

/// Name of the resume record kept beside a file named `file_name`.
pub open spec fn state_file_name(file_name: Option<Seq<char>>) -> Seq<char> {
    "."@ + (match file_name {
        Some(n) => n,
        None => "download"@,
    }) + ".rpdl_state"@
}

/// `a` comes before `b` when the chunks are sorted by start offset, keeping
/// the stored order among equal starts.
pub open spec fn precedes(s: Seq<ChunkState>, a: int, b: int) -> bool {
    s[a].start < s[b].start || (s[a].start == s[b].start && a < b)
}

/// The stored indices are `0..n` in the order of the start offsets: sorting
/// the chunks by start (stably) puts chunk `i` at position `i`.
pub open spec fn ordered_by_start(s: Seq<ChunkState>) -> bool {
    &&& forall|a: int| 0 <= a < s.len() ==> #[trigger] s[a].index < s.len()
    &&& forall|a: int, b: int|
        0 <= a < s.len() && 0 <= b < s.len() && a != b ==> #[trigger] s[a].index != #[trigger] s[b].index
    &&& forall|a: int, b: int|
        0 <= a < s.len() && 0 <= b < s.len() && #[trigger] s[a].index < #[trigger] s[b].index ==> precedes(s, a, b)
}

/// The numbering of the chunks and the start of the first one: the part of
/// `integrity` that involves neither the chunks' ends nor the total size.
pub open spec fn integrity_prefix(s: Seq<ChunkState>) -> bool {
    &&& s.len() > 0
    &&& ordered_by_start(s)
    &&& forall|a: int| 0 <= a < s.len() && #[trigger] s[a].index == 0 ==> s[a].start == 0
}

/// Chunk `k + 1` starts on the byte right after the last byte of chunk
/// `k`, for every `k`: no byte is left out between them and none is shared.
pub open spec fn chunks_touch(s: Seq<ChunkState>) -> bool {
    forall|a: int, b: int|
        #![trigger s[a].index, s[b].index]
        0 <= a < s.len() && 0 <= b < s.len() && s[b].index == s[a].index + 1 ==> s[b].start == s[a].end + 1
}

/// The chunk list is consistent with a file of `total` bytes: sorted by
/// start the chunks are numbered `0..n`, the first starts at byte 0, each
/// next one starts right after the one before it ends, and the last ends
/// at byte `total - 1`. The chunks then cover the file exactly once.
pub open spec fn integrity(s: Seq<ChunkState>, total: nat) -> bool {
    &&& integrity_prefix(s)
    &&& chunks_touch(s)
    &&& forall|a: int| 0 <= a < s.len() && #[trigger] s[a].index == s.len() - 1 ==> s[a].end == total - 1
}

/// The chunk in position `pos[u + 1]` starts right after the one in
/// position `pos[u]` ends.
spec fn touches_at(s: Seq<ChunkState>, pos: Seq<usize>, u: int) -> bool {
    s[pos[u + 1] as int].start == s[pos[u] as int].end + 1
}

/// `n` distinct values in `0..n` take every value in `0..n`.
proof fn lemma_distinct_cover(idx: Seq<int>, n: int, v: int)
    requires
        idx.len() == n,
        forall|a: int| 0 <= a < n ==> 0 <= #[trigger] idx[a] < n,
        idx.no_duplicates(),
        0 <= v < n,
    ensures
        idx.contains(v),
{
    idx.unique_seq_to_set();
    vstd::set_lib::lemma_int_range(0, n);
    let r = vstd::set_lib::set_int_range(0, n);
    assert(idx.to_set().subset_of(r));
    vstd::set_lib::lemma_subset_equality(idx.to_set(), r);
    assert(r.contains(v));
    assert(idx.to_set().contains(v));
}


/// A stored chunk whose byte range `start..=end` is well formed and whose
/// length fits a `u64`.
pub open spec fn has_sized_range(c: ChunkState) -> bool {
    c.start <= c.end && c.end - c.start < u64::MAX
}

/// The request for a stored chunk that is fetched again: same number and
/// range, normal priority.
pub open spec fn resume_request(c: ChunkState) -> ChunkInfo {
    ChunkInfo {
        index: c.index,
        start: c.start,
        end: c.end,
        priority: ChunkPriority::Normal,
        size: (c.end - c.start + 1) as u64,
    }
}

/// Positions `p < k` of `s` whose result carries chunk index `v`, in order.
pub open spec fn positions_of_index(s: Seq<ChunkResult>, v: int, k: int) -> Seq<int>
    decreases k,
{
    if k <= 0 {
        Seq::empty()
    } else {
        positions_of_index(s, v, k - 1) + if s[k - 1].index == v {
            seq![k - 1]
        } else {
            Seq::empty()
        }
    }
}

/// The positions of `s` sorted stably by chunk index, for indices below
/// `m`: first those holding index 0, then index 1, and so on, each group in
/// the order the results came.
pub open spec fn stable_index_order(s: Seq<ChunkResult>, m: int) -> Seq<int>
    decreases m,
{
    if m <= 0 {
        Seq::empty()
    } else {
        stable_index_order(s, m - 1) + positions_of_index(s, m - 1, s.len() as int)
    }
}

impl DownloadState {
    /// A fresh record for `total_size` bytes cut into `chunk_size`-byte chunks,
    /// stamped with `timestamp`.
    pub fn new_at(url: String, output_path: String, total_size: u64, chunk_size: u64, timestamp: u64) -> (r: Self)
        requires
            chunk_size > 0,
            chunking_fits(total_size as nat, chunk_size as nat),
        ensures
            r.url == url,
            r.output_path == output_path,
            r.total_size == total_size,
            r.chunk_size == chunk_size,
            r.timestamp == timestamp,
            r.etag is None,
            r.last_modified is None,
            r.downloaded_chunks@.len() == chunk_count(total_size as nat, chunk_size as nat),
            forall|i: int|
                0 <= i < r.downloaded_chunks@.len() ==> #[trigger] r.downloaded_chunks@[i] == fresh_chunk_state(
                    i as nat,
                    total_size as nat,
                    chunk_size as nat,
                ),
            fresh_record_laws(r.downloaded_chunks@, total_size as nat),
    {
        let chunks = crate::chunked::create_chunks(total_size, chunk_size);
        let mut states: Vec<ChunkState> = Vec::new();
        let mut i: usize = 0;
        while i < chunks.len()
            invariant
                i <= chunks@.len(),
                states@.len() == i,
                chunks@.len() == chunk_count(total_size as nat, chunk_size as nat),
                forall|k: int|
                    0 <= k < chunks@.len() ==> #[trigger] chunks@[k] == planned_chunk(
                        k as nat,
                        total_size as nat,
                        chunk_size as nat,
                    ),
                forall|k: int|
                    0 <= k < i ==> #[trigger] states@[k] == fresh_chunk_state(
                        k as nat,
                        total_size as nat,
                        chunk_size as nat,
                    ),
            decreases chunks@.len() - i,
        {
            let c = chunks[i];
            states.push(ChunkState { index: c.index, start: c.start, end: c.end, completed: false, hash: None });
            i = i + 1;
        }
        proof {
            lemma_fresh_record(states@, total_size as nat, chunk_size as nat);
        }
        DownloadState {
            url,
            output_path,
            total_size,
            downloaded_chunks: states,
            timestamp,
            chunk_size,
            etag: None,
            last_modified: None,
        }
    }

    /// A fresh record stamped with the current time, as `new_at` builds it;
    /// `None` when the system clock reads a time before the Unix epoch.
    pub fn new(url: String, output_path: String, total_size: u64, chunk_size: u64) -> (r: Option<Self>)
        requires
            chunk_size > 0,
            chunking_fits(total_size as nat, chunk_size as nat),
        ensures
            match r {
                Some(st) => {
                    &&& st.url == url
                    &&& st.output_path == output_path
                    &&& st.total_size == total_size
                    &&& st.chunk_size == chunk_size
                    &&& st.etag is None
                    &&& st.last_modified is None
                    &&& st.downloaded_chunks@.len() == chunk_count(total_size as nat, chunk_size as nat)
                    &&& forall|i: int|
                        0 <= i < st.downloaded_chunks@.len() ==> #[trigger] st.downloaded_chunks@[i]
                            == fresh_chunk_state(i as nat, total_size as nat, chunk_size as nat)
                    &&& fresh_record_laws(st.downloaded_chunks@, total_size as nat)
                },
                None => true,
            },
    {
        match unix_now_secs() {
            Some(now) => Some(Self::new_at(url, output_path, total_size, chunk_size, now)),
            None => None,
        }
    }

    /// Path of the resume record of `output_path`: `.<name>.rpdl_state` in
    /// the same directory, `<name>` being the file name (`download` when the
    /// path has none).
    pub fn state_file_path(output_path: &str) -> (r: String)
        ensures
            r@ == path_with_file_name(output_path@, state_file_name(path_file_name(output_path@))),
    {
        let name = file_name_of(output_path);
        let mut n = String::from_str(".");
        match &name {
            Some(f) => crate::text::push_str(&mut n, f.as_str()),
            None => crate::text::push_str(&mut n, "download"),
        }
        crate::text::push_str(&mut n, ".rpdl_state");
        with_file_name(output_path, n.as_str())
    }

    /// Marks the chunk at position `index` as written; does nothing when
    /// there is no such chunk.
    pub fn mark_chunk_completed(&mut self, index: usize)
        ensures
            final(self).downloaded_chunks@.len() == old(self).downloaded_chunks@.len(),
            forall|i: int|
                0 <= i < old(self).downloaded_chunks@.len() && i != index ==> #[trigger] final(self).downloaded_chunks@[i]
                    == old(self).downloaded_chunks@[i],
            index < old(self).downloaded_chunks@.len() ==> final(self).downloaded_chunks@[index as int] == (ChunkState {
                completed: true,
                ..old(self).downloaded_chunks@[index as int]
            }),
            final(self).url == old(self).url,
            final(self).output_path == old(self).output_path,
            final(self).total_size == old(self).total_size,
            final(self).timestamp == old(self).timestamp,
            final(self).chunk_size == old(self).chunk_size,
            final(self).etag == old(self).etag,
            final(self).last_modified == old(self).last_modified,
    {
        if index < self.downloaded_chunks.len() {
            let mut c = self.downloaded_chunks[index].clone();
            c.completed = true;
            self.downloaded_chunks.set(index, c);
        }
    }

    /// The chunks not yet written, in stored order.
    pub fn get_incomplete_chunks(&self) -> (r: Vec<ChunkState>)
        ensures
            r@ == self.downloaded_chunks@.filter(|c: ChunkState| !c.completed),
    {
        let mut r: Vec<ChunkState> = Vec::new();
        let mut i: usize = 0;
        while i < self.downloaded_chunks.len()
            invariant
                i <= self.downloaded_chunks@.len(),
                r@ == self.downloaded_chunks@.take(i as int).filter(|c: ChunkState| !c.completed),
            decreases self.downloaded_chunks@.len() - i,
        {
            let c = self.downloaded_chunks[i].clone();
            proof {
                let s = self.downloaded_chunks@;
                assert(s.take(i + 1).drop_last() =~= s.take(i as int));
                s.take(i as int).lemma_filter_push(s[i as int], |c: ChunkState| !c.completed);
                assert(s.take(i + 1) =~= s.take(i as int).push(s[i as int]));
            }
            if !c.completed {
                r.push(c);
            }
            i = i + 1;
        }
        assert(self.downloaded_chunks@.take(self.downloaded_chunks@.len() as int) =~= self.downloaded_chunks@);
        r
    }

    /// The requests that fetch the chunks not yet written, in stored order.
    /// Each unwritten chunk must have a well-formed range.
    pub fn chunks_to_resume(&self) -> (r: Vec<ChunkInfo>)
        requires
            forall|i: int|
                0 <= i < self.downloaded_chunks@.len() && !(#[trigger] self.downloaded_chunks@[i]).completed
                    ==> has_sized_range(self.downloaded_chunks@[i]),
        ensures
            r@ == self.downloaded_chunks@.filter(|c: ChunkState| !c.completed).map_values(
                |c: ChunkState| resume_request(c),
            ),
    {
        let mut r: Vec<ChunkInfo> = Vec::new();
        let mut i: usize = 0;
        while i < self.downloaded_chunks.len()
            invariant
                i <= self.downloaded_chunks@.len(),
                forall|k: int|
                    0 <= k < self.downloaded_chunks@.len() && !(#[trigger] self.downloaded_chunks@[k]).completed
                        ==> has_sized_range(self.downloaded_chunks@[k]),
                r@ == self.downloaded_chunks@.take(i as int).filter(|c: ChunkState| !c.completed).map_values(
                    |c: ChunkState| resume_request(c),
                ),
            decreases self.downloaded_chunks@.len() - i,
        {
            let c = &self.downloaded_chunks[i];
            proof {
                let s = self.downloaded_chunks@;
                s.take(i as int).lemma_filter_push(s[i as int], |c: ChunkState| !c.completed);
                assert(s.take(i + 1) =~= s.take(i as int).push(s[i as int]));
            }
            let ghost before = r@;
            if !c.completed {
                let info = ChunkInfo {
                    index: c.index,
                    start: c.start,
                    end: c.end,
                    priority: ChunkPriority::Normal,
                    size: c.end - c.start + 1,
                };
                r.push(info);
                assert(r@ =~= before.push(resume_request(*c)));
            }
            proof {
                let s = self.downloaded_chunks@;
                let f = s.take(i + 1).filter(|c: ChunkState| !c.completed);
                let g = s.take(i as int).filter(|c: ChunkState| !c.completed);
                if !c.completed {
                    assert(f =~= g.push(s[i as int]));
                    assert(f.map_values(|c: ChunkState| resume_request(c)) =~= g.map_values(
                        |c: ChunkState| resume_request(c),
                    ).push(resume_request(s[i as int])));
                } else {
                    assert(f =~= g);
                }
            }
            i = i + 1;
        }
        assert(self.downloaded_chunks@.take(self.downloaded_chunks@.len() as int) =~= self.downloaded_chunks@);
        r
    }

    /// The order in which downloaded results are written back: their
    /// positions sorted stably by chunk index. Every result must name a
    /// stored chunk. Each result is written at the start offset of the
    /// chunk it names.
    pub fn write_order(&self, results: &Vec<ChunkResult>) -> (r: Vec<usize>)
        requires
            forall|p: int| 0 <= p < results@.len() ==> (#[trigger] results@[p]).index < self.downloaded_chunks@.len(),
        ensures
            r@.map_values(|p: usize| p as int) == stable_index_order(results@, self.downloaded_chunks@.len() as int),
            forall|t: int| 0 <= t < r@.len() ==> #[trigger] r@[t] < results@.len(),
            forall|t: int, u: int|
                0 <= t < u < r@.len() ==> results@[#[trigger] r@[t] as int].index <= results@[#[trigger] r@[u] as int].index,
            r@.no_duplicates(),
            forall|q: usize| (q as int) < results@.len() ==> #[trigger] r@.contains(q),
    {
        let n = self.downloaded_chunks.len();
        let mut r: Vec<usize> = Vec::new();
        let mut v: usize = 0;
        while v < n
            invariant
                v <= n,
                n == self.downloaded_chunks@.len(),
                r@.map_values(|p: usize| p as int) == stable_index_order(results@, v as int),
                forall|t: int| 0 <= t < r@.len() ==> #[trigger] r@[t] < results@.len(),
                forall|t: int| 0 <= t < r@.len() ==> results@[#[trigger] r@[t] as int].index < v,
                forall|t: int, u: int|
                    0 <= t < u < r@.len() ==> results@[#[trigger] r@[t] as int].index <= results@[#[trigger] r@[u] as int].index,
                r@.no_duplicates(),
                forall|q: int| 0 <= q < results@.len() && (#[trigger] results@[q]).index < v ==> r@.contains(q as usize),
            decreases n - v,
        {
            let ghost base = r@.map_values(|p: usize| p as int);
            let ghost base_len = r@.len();
            let mut p: usize = 0;
            while p < results.len()
                invariant
                    v < n,
                    p <= results@.len(),
                    base_len <= r@.len(),
                    r@.map_values(|q: usize| q as int) == base + positions_of_index(results@, v as int, p as int),
                    forall|t: int| 0 <= t < r@.len() ==> #[trigger] r@[t] < results@.len(),
                    forall|t: int| 0 <= t < base_len ==> results@[#[trigger] r@[t] as int].index < v,
                    forall|t: int| base_len <= t < r@.len() ==> results@[#[trigger] r@[t] as int].index == v,
                    forall|t: int, u: int|
                        0 <= t < u < r@.len() ==> results@[#[trigger] r@[t] as int].index <= results@[#[trigger] r@[u] as int].index,
                    r@.no_duplicates(),
                    forall|t: int| base_len <= t < r@.len() ==> #[trigger] r@[t] < p,
                    forall|q: int| 0 <= q < results@.len() && (#[trigger] results@[q]).index < v ==> r@.contains(q as usize),
                    forall|q: int| 0 <= q < p && (#[trigger] results@[q]).index == v ==> r@.contains(q as usize),
                decreases results@.len() - p,
            {
                let ghost before = r@;
                if results[p].index == v {
                    proof {
                        assert forall|t: int| 0 <= t < before.len() implies before[t] != p by {
                            if t < base_len {
                                assert(results@[before[t] as int].index < v);
                            }
                        }
                    }
                    r.push(p);
                    proof {
                        assert forall|q: int| 0 <= q < results@.len() && (#[trigger] results@[q]).index < v implies r@.contains(q as usize) by {
                            let t = choose|t: int| 0 <= t < before.len() && before[t] == q as usize;
                            assert(r@[t] == q as usize);
                        }
                        assert forall|q: int| 0 <= q < p + 1 && (#[trigger] results@[q]).index == v implies r@.contains(q as usize) by {
                            if q < p {
                                let t = choose|t: int| 0 <= t < before.len() && before[t] == q as usize;
                                assert(r@[t] == q as usize);
                            } else {
                                assert(r@[before.len() as int] == q as usize);
                            }
                        }
                    }
                    assert(r@.map_values(|q: usize| q as int) =~= before.map_values(|q: usize| q as int).push(p as int));
                    assert(positions_of_index(results@, v as int, p + 1) =~= positions_of_index(results@, v as int, p as int).push(p as int));
                } else {
                    assert(positions_of_index(results@, v as int, p + 1) =~= positions_of_index(results@, v as int, p as int));
                }
                p = p + 1;
            }
            v = v + 1;
        }
        assert forall|q: usize| (q as int) < results@.len() implies #[trigger] r@.contains(q) by {
            assert(results@[q as int].index < n);
        }
        r
    }

    /// Whether every chunk has been written.
    pub fn is_complete(&self) -> (r: bool)
        ensures
            r == forall|i: int| 0 <= i < self.downloaded_chunks@.len() ==> #[trigger] self.downloaded_chunks@[i].completed,
    {
        let mut i: usize = 0;
        while i < self.downloaded_chunks.len()
            invariant
                i <= self.downloaded_chunks@.len(),
                forall|k: int| 0 <= k < i ==> #[trigger] self.downloaded_chunks@[k].completed,
            decreases self.downloaded_chunks@.len() - i,
        {
            if !self.downloaded_chunks[i].completed {
                return false;
            }
            i = i + 1;
        }
        true
    }

    /// Number of chunks written so far.
    pub fn completed_chunks(&self) -> (r: usize)
        ensures
            r == self.downloaded_chunks@.filter(|c: ChunkState| c.completed).len(),
    {
        let mut n: usize = 0;
        let mut i: usize = 0;
        while i < self.downloaded_chunks.len()
            invariant
                i <= self.downloaded_chunks@.len(),
                n == self.downloaded_chunks@.take(i as int).filter(|c: ChunkState| c.completed).len(),
                n <= i,
            decreases self.downloaded_chunks@.len() - i,
        {
            proof {
                let s = self.downloaded_chunks@;
                s.take(i as int).lemma_filter_push(s[i as int], |c: ChunkState| c.completed);
                assert(s.take(i + 1) =~= s.take(i as int).push(s[i as int]));
            }
            if self.downloaded_chunks[i].completed {
                n = n + 1;
            }
            i = i + 1;
        }
        assert(self.downloaded_chunks@.take(self.downloaded_chunks@.len() as int) =~= self.downloaded_chunks@);
        n
    }

    /// Whether the chunk list is consistent with the file size (see
    /// `integrity`).
    pub fn validate_integrity(&self) -> (r: bool)
        requires
            self.total_size > 0 || !integrity_prefix(self.downloaded_chunks@),
        ensures
            r == integrity(self.downloaded_chunks@, self.total_size as nat),
    {
        let s = &self.downloaded_chunks;
        let ghost sv = self.downloaded_chunks@;
        let n = s.len();
        if n == 0 {
            return false;
        }
        let mut pos: Vec<usize> = Vec::new();
        let mut seen: Vec<bool> = Vec::new();
        let mut j: usize = 0;
        while j < n
            invariant
                j <= n,
                pos@.len() == j,
                seen@.len() == j,
                forall|v: int| 0 <= v < j ==> !seen@[v],
            decreases n - j,
        {
            pos.push(0);
            seen.push(false);
            j = j + 1;
        }
        let mut a: usize = 0;
        while a < n
            invariant
                sv == s@,
                sv == self.downloaded_chunks@,
                n == s@.len(),
                a <= n,
                pos@.len() == n,
                seen@.len() == n,
                forall|b: int| 0 <= b < a ==> #[trigger] s@[b].index < n,
                forall|b: int, c: int|
                    0 <= b < a && 0 <= c < a && b != c ==> #[trigger] s@[b].index != #[trigger] s@[c].index,
                forall|v: int| 0 <= v < n ==> (#[trigger] seen@[v] <==> exists|b: int| 0 <= b < a && s@[b].index == v),
                forall|b: int| 0 <= b < a ==> #[trigger] pos@[s@[b].index as int] == b,
            decreases n - a,
        {
            let i = s[a].index;
            if i >= n {
                proof {
                    assert(!(s@[a as int].index < s@.len()));
                    assert(!ordered_by_start(sv));
                }
                return false;
            }
            if seen[i] {
                proof {
                    let b = choose|b: int| 0 <= b < a && s@[b].index == i;
                    assert(s@[b].index == s@[a as int].index);
                    assert(!ordered_by_start(sv));
                }
                return false;
            }
            seen.set(i, true);
            pos.set(i, a);
            a = a + 1;
        }
        proof {
            let idx = s@.map_values(|c: ChunkState| c.index as int);
            assert(idx.no_duplicates()) by {
                assert forall|x: int, y: int| 0 <= x < idx.len() && 0 <= y < idx.len() && x != y implies idx[x] != idx[y] by {
                    assert(s@[x].index != s@[y].index);
                }
            }
            assert forall|v: int| 0 <= v < n implies #[trigger] pos@[v] < n && s@[pos@[v] as int].index == v by {
                lemma_distinct_cover(idx, n as int, v);
                let b = choose|b: int| 0 <= b < idx.len() && idx[b] == v;
                assert(s@[b].index == v);
                assert(pos@[s@[b].index as int] == b);
            }
        }
        let mut i: usize = 0;
        while i + 1 < n
            invariant
                sv == s@,
                sv == self.downloaded_chunks@,
                n == s@.len(),
                i < n,
                pos@.len() == n,
                forall|b: int| 0 <= b < n ==> #[trigger] s@[b].index < n,
                forall|b: int| 0 <= b < n ==> #[trigger] pos@[s@[b].index as int] == b,
                forall|v: int| 0 <= v < n ==> #[trigger] pos@[v] < n && s@[pos@[v] as int].index == v,
                forall|u: int, v: int| 0 <= u < v <= i ==> precedes(s@, #[trigger] pos@[u] as int, #[trigger] pos@[v] as int),
                forall|u: int| 0 <= u < i ==> #[trigger] touches_at(s@, pos@, u),
            decreases n - i,
        {
            let x = pos[i];
            let y = pos[i + 1];
            if !(s[x].start < s[y].start || (s[x].start == s[y].start && x < y)) {
                proof {
                    assert(s@[x as int].index < s@[y as int].index);
                    assert(!ordered_by_start(sv));
                }
                return false;
            }
            if !(s[x].end < u64::MAX && s[y].start == s[x].end + 1) {
                proof {
                    assert(s@[y as int].index == s@[x as int].index + 1);
                    assert(!chunks_touch(sv));
                }
                return false;
            }
            proof {
                assert(touches_at(s@, pos@, i as int));
            }
            i = i + 1;
        }
        proof {
            assert forall|a: int, b: int|
                0 <= a < n && 0 <= b < n && #[trigger] s@[a].index < #[trigger] s@[b].index implies precedes(s@, a, b) by {
                assert(pos@[s@[a].index as int] == a);
                assert(pos@[s@[b].index as int] == b);
            }
            assert forall|a: int, b: int|
                0 <= a < n && 0 <= b < n && a != b implies #[trigger] s@[a].index != #[trigger] s@[b].index by {
                assert(pos@[s@[a].index as int] == a);
                assert(pos@[s@[b].index as int] == b);
            }
            assert(ordered_by_start(sv));
            assert forall|a: int, b: int|
                #![trigger s@[a].index, s@[b].index]
                0 <= a < n && 0 <= b < n && s@[b].index == s@[a].index + 1 implies s@[b].start == s@[a].end + 1 by {
                let u = s@[a].index as int;
                assert(touches_at(s@, pos@, u));
                assert(pos@[s@[a].index as int] == a);
                assert(pos@[s@[b].index as int] == b);
            }
            assert(chunks_touch(sv));
        }
        let first = pos[0];
        let last = pos[n - 1];
        if s[first].start != 0 {
            proof {
                assert(s@[first as int].index == 0);
            }
            return false;
        }
        proof {
            assert forall|a: int| 0 <= a < n && #[trigger] s@[a].index == 0 implies s@[a].start == 0 by {
                assert(pos@[s@[a].index as int] == a);
            }
            assert(integrity_prefix(sv));
            assert forall|a: int| 0 <= a < n && #[trigger] s@[a].index == n - 1 implies (s@[a].end == self.total_size - 1) == (s@[last as int].end == self.total_size - 1) by {
                assert(pos@[s@[a].index as int] == a);
            }
        }
        s[last].end == self.total_size - 1
    }
}


/// A fresh record of a non-empty file is consistent: `validate_integrity`
/// accepts what `new_at` builds.
pub proof fn lemma_fresh_state_is_consistent(s: Seq<ChunkState>, total: nat, cs: nat)
    requires
        cs > 0,
        0 < total <= u64::MAX,
        chunking_fits(total, cs),
        s.len() == chunk_count(total, cs),
        forall|i: int| 0 <= i < s.len() ==> #[trigger] s[i] == fresh_chunk_state(i as nat, total, cs),
    ensures
        integrity(s, total),
{
    lemma_chunks_tile_file(total, cs);
    let n = s.len() as int;
    assert forall|a: int| 0 <= a < n implies #[trigger] s[a].index == a && s[a].start == a * cs by {
        assert(s[a] == fresh_chunk_state(a as nat, total, cs));
        assert(a * cs < total) by {
            crate::chunked::lemma_in_file(a, total as int, cs as int);
        }
    }
    assert forall|a: int, b: int|
        0 <= a < n && 0 <= b < n && #[trigger] s[a].index < #[trigger] s[b].index implies precedes(s, a, b) by {
        assert(s[a].index == a && s[b].index == b);
        assert(a * cs < b * cs) by (nonlinear_arith)
            requires
                a < b,
                cs > 0,
        ;
    }
    assert forall|a: int, b: int| 0 <= a < n && 0 <= b < n && a != b implies #[trigger] s[a].index != #[trigger] s[b].index by {
        assert(s[a].index == a && s[b].index == b);
    }
    assert forall|a: int| 0 <= a < n && #[trigger] s[a].index == 0 implies s[a].start == 0 by {
        assert(s[a].index == a);
        assert(s[0] == fresh_chunk_state(0, total, cs));
    }
    assert forall|a: int| 0 <= a < n && #[trigger] s[a].index == n - 1 implies s[a].end == total - 1 by {
        assert(s[a].index == a);
        assert(s[n - 1] == fresh_chunk_state((n - 1) as nat, total, cs));
    }
    assert forall|a: int, b: int|
        #![trigger s[a].index, s[b].index]
        0 <= a < n && 0 <= b < n && s[b].index == s[a].index + 1 implies s[b].start == s[a].end + 1 by {
        assert(s[a].index == a && s[b].index == b);
        assert(s[a] == fresh_chunk_state(a as nat, total, cs));
        assert(s[b] == fresh_chunk_state(b as nat, total, cs));
        assert(planned_chunk((a + 1) as nat, total, cs).start == planned_chunk(a as nat, total, cs).end + 1);
    }
}

/// Only the numbering and byte ranges decide consistency: two chunk lists
/// that differ only in completion flags and hashes are both consistent or
/// both not. In particular `mark_chunk_completed` keeps a record consistent.
pub proof fn lemma_integrity_ignores_progress(s1: Seq<ChunkState>, s2: Seq<ChunkState>, total: nat)
    requires
        s1.len() == s2.len(),
        forall|i: int|
            0 <= i < s1.len() ==> (#[trigger] s1[i]).index == s2[i].index && s1[i].start == s2[i].start
                && s1[i].end == s2[i].end,
    ensures
        integrity(s1, total) == integrity(s2, total),
{
    assert(ordered_by_start(s1) == ordered_by_start(s2)) by {
        if ordered_by_start(s1) {
            assert forall|a: int, b: int|
                0 <= a < s2.len() && 0 <= b < s2.len() && #[trigger] s2[a].index < #[trigger] s2[b].index implies precedes(s2, a, b) by {
                assert(s1[a].index < s1[b].index);
            }
            assert forall|a: int, b: int| 0 <= a < s2.len() && 0 <= b < s2.len() && a != b implies #[trigger] s2[a].index != #[trigger] s2[b].index by {
                assert(s1[a].index != s1[b].index);
            }
            assert forall|a: int| 0 <= a < s2.len() implies #[trigger] s2[a].index < s2.len() by {
                assert(s1[a].index < s1.len());
            }
        }
        if ordered_by_start(s2) {
            assert forall|a: int, b: int|
                0 <= a < s1.len() && 0 <= b < s1.len() && #[trigger] s1[a].index < #[trigger] s1[b].index implies precedes(s1, a, b) by {
                assert(s2[a].index < s2[b].index);
            }
            assert forall|a: int, b: int| 0 <= a < s1.len() && 0 <= b < s1.len() && a != b implies #[trigger] s1[a].index != #[trigger] s1[b].index by {
                assert(s2[a].index != s2[b].index);
            }
            assert forall|a: int| 0 <= a < s1.len() implies #[trigger] s1[a].index < s1.len() by {
                assert(s2[a].index < s2.len());
            }
        }
    }
    assert(integrity(s1, total) == integrity(s2, total)) by {
        if integrity(s1, total) {
            assert forall|a: int, b: int|
                #![trigger s2[a].index, s2[b].index]
                0 <= a < s2.len() && 0 <= b < s2.len() && s2[b].index == s2[a].index + 1 implies s2[b].start
                    == s2[a].end + 1 by {
                assert(s1[b].index == s1[a].index + 1);
            }
            assert forall|a: int| 0 <= a < s2.len() && #[trigger] s2[a].index == 0 implies s2[a].start == 0 by {
                assert(s1[a].index == 0);
            }
            assert forall|a: int| 0 <= a < s2.len() && #[trigger] s2[a].index == s2.len() - 1 implies s2[a].end == total - 1 by {
                assert(s1[a].index == s1.len() - 1);
            }
        }
        if integrity(s2, total) {
            assert forall|a: int, b: int|
                #![trigger s1[a].index, s1[b].index]
                0 <= a < s1.len() && 0 <= b < s1.len() && s1[b].index == s1[a].index + 1 implies s1[b].start
                    == s1[a].end + 1 by {
                assert(s2[b].index == s2[a].index + 1);
            }
            assert forall|a: int| 0 <= a < s1.len() && #[trigger] s1[a].index == 0 implies s1[a].start == 0 by {
                assert(s2[a].index == 0);
            }
            assert forall|a: int| 0 <= a < s1.len() && #[trigger] s1[a].index == s1.len() - 1 implies s1[a].end == total - 1 by {
                assert(s2[a].index == s2.len() - 1);
            }
        }
    }
}

/// Writing a chunk that was left moves it from the chunks left to the
/// chunks done; writing a chunk that was already done changes neither
/// count.
pub proof fn lemma_mark_moves_one_chunk(s: Seq<ChunkState>, i: int)
    requires
        0 <= i < s.len(),
    ensures
        s.update(i, ChunkState { completed: true, ..s[i] }).filter(|c: ChunkState| c.completed).len() == s.filter(
            |c: ChunkState| c.completed,
        ).len() + if s[i].completed {
            0int
        } else {
            1int
        },
        s.update(i, ChunkState { completed: true, ..s[i] }).filter(|c: ChunkState| !c.completed).len() + if s[i].completed {
            0int
        } else {
            1int
        } == s.filter(|c: ChunkState| !c.completed).len(),
    decreases s.len(),
{
    let done = |c: ChunkState| c.completed;
    let left = |c: ChunkState| !c.completed;
    let t = s.update(i, ChunkState { completed: true, ..s[i] });
    let p = s.drop_last();
    assert(s =~= p.push(s.last()));
    p.lemma_filter_push(s.last(), done);
    p.lemma_filter_push(s.last(), left);
    if i == s.len() - 1 {
        assert(t =~= p.push(ChunkState { completed: true, ..s[i] }));
        p.lemma_filter_push(ChunkState { completed: true, ..s[i] }, done);
        p.lemma_filter_push(ChunkState { completed: true, ..s[i] }, left);
    } else {
        let q = p.update(i, ChunkState { completed: true, ..p[i] });
        lemma_mark_moves_one_chunk(p, i);
        assert(t =~= q.push(s.last()));
        q.lemma_filter_push(s.last(), done);
        q.lemma_filter_push(s.last(), left);
    }
}


/// A record is complete exactly when no chunk is left to download.
pub proof fn lemma_complete_iff_nothing_left(s: Seq<ChunkState>)
    ensures
        (forall|i: int| 0 <= i < s.len() ==> #[trigger] s[i].completed) <==> s.filter(|c: ChunkState| !c.completed).len() == 0,
    decreases s.len(),
{
    let f = |c: ChunkState| !c.completed;
    if s.len() > 0 {
        lemma_complete_iff_nothing_left(s.drop_last());
        assert(s =~= s.drop_last().push(s.last()));
        s.drop_last().lemma_filter_push(s.last(), f);
        if forall|i: int| 0 <= i < s.drop_last().len() ==> #[trigger] s.drop_last()[i].completed {
            if s.last().completed {
                assert forall|i: int| 0 <= i < s.len() implies #[trigger] s[i].completed by {
                    if i < s.len() - 1 {
                        assert(s.drop_last()[i].completed);
                    }
                }
            }
        } else {
            let i = choose|i: int| 0 <= i < s.drop_last().len() && !(#[trigger] s.drop_last()[i].completed);
            assert(!s[i].completed);
        }
    } else {
        assert(s.filter(f) =~= Seq::<ChunkState>::empty());
    }
}

} // verus!
