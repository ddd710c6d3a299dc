use vstd::prelude::*;
use vstd::string::StringExecFns;

use crate::error::{error_text, PipeError};
use crate::pipe_utils::{bytes_to_human, size_text};
use crate::text::{decimal, decimal2, push_decimal, push_decimal2};
use crate::plan::DownloadPlan;
use crate::progress_history::{after_add, sat_add, speed_of, window_speed, ProgressHistory};
use crate::schedule::UnfinishedChunks;

verus! {

/// The sum of the counters in `s`.
pub open spec fn seq_sum(s: Seq<usize>) -> int
    decreases s.len(),
{
    if s.len() == 0 {
        0
    } else {
        seq_sum(s.drop_last()) + s.last()
    }
}

proof fn lemma_seq_sum_update(s: Seq<usize>, i: int, v: usize)
    requires
        0 <= i < s.len(),
    ensures
        seq_sum(s.update(i, v)) == seq_sum(s) - s[i] + v,
    decreases s.len(),
{
    let t = s.update(i, v);
    if i == s.len() - 1 {
        assert(t.drop_last() =~= s.drop_last());
    } else {
        assert(t.drop_last() =~= s.drop_last().update(i, v));
        lemma_seq_sum_update(s.drop_last(), i, v);
    }
}

proof fn lemma_seq_sum_zeros(n: nat)
    ensures
        seq_sum(Seq::new(n, |i: int| 0usize)) == 0,
    decreases n,
{
    if n > 0 {
        assert(Seq::new(n, |i: int| 0usize).drop_last() =~= Seq::new((n - 1) as nat, |i: int| 0usize));
        lemma_seq_sum_zeros((n - 1) as nat);
    }
}

proof fn lemma_seq_sum_nonneg(s: Seq<usize>)
    ensures
        0 <= seq_sum(s),
    decreases s.len(),
{
    if s.len() > 0 {
        lemma_seq_sum_nonneg(s.drop_last());
    }
}

proof fn lemma_seq_sum_bound(s: Seq<usize>, i: int)
    requires
        0 <= i < s.len(),
    ensures
        s[i] <= seq_sum(s),
        0 <= seq_sum(s),
    decreases s.len(),
{
    lemma_seq_sum_nonneg(s.drop_last());
    if i < s.len() - 1 {
        lemma_seq_sum_bound(s.drop_last(), i);
    }
}

/// The in-flight records after `n` bytes are counted for `chunk_no`: the
/// first record of that chunk gains them, saturating; the others stay.
pub open spec fn chunks_after_bytes(
    s: Seq<DownloadChunkProgress>,
    chunk_no: usize,
    n: usize,
) -> Seq<DownloadChunkProgress> {
    if exists|i: int| 0 <= i < s.len() && s[i].chunk_no == chunk_no {
        let i = choose|i: int|
            0 <= i < s.len() && s[i].chunk_no == chunk_no && forall|j: int|
                0 <= j < i ==> s[j].chunk_no != chunk_no;
        s.update(
            i,
            DownloadChunkProgress { downloaded: sat_add(s[i].downloaded as int, n as int) as usize, ..s[i] },
        )
    } else {
        s
    }
}

/// Adds `n` bytes, saturating, to the first in-flight record of `chunk_no`.
fn note_chunk_bytes(chunks: &mut Vec<DownloadChunkProgress>, chunk_no: usize, n: usize)
    ensures
        final(chunks)@ == chunks_after_bytes(old(chunks)@, chunk_no, n),
{
    let m = chunks.len();
    let mut i: usize = 0;
    while i < m
        invariant
            m == chunks@.len(),
            *chunks == *old(chunks),
            i <= m,
            forall|j: int| 0 <= j < i ==> chunks@[j].chunk_no != chunk_no,
        decreases m - i,
    {
        if chunks[i].chunk_no == chunk_no {
            let ghost s = chunks@;
            let mut c = chunks[i];
            c.downloaded = if n <= usize::MAX - c.downloaded {
                c.downloaded + n
            } else {
                usize::MAX
            };
            chunks[i] = c;
            proof {
                let w = choose|w: int|
                    0 <= w < s.len() && s[w].chunk_no == chunk_no && forall|j: int|
                        0 <= j < w ==> s[j].chunk_no != chunk_no;
                assert(w == i as int) by {
                    if w < i {
                    } else if w > i {
                        assert(s[i as int].chunk_no == chunk_no);
                    }
                }
            }
            return;
        }
        i = i + 1;
    }
}

/// The progress of one chunk being fetched.
#[derive(Clone, Copy, Debug, PartialEq, Eq, Structural)]
pub struct DownloadChunkProgress {
    /// Index of the chunk.
    pub chunk_no: usize,
    /// Bytes received.
    pub downloaded: usize,
    /// Bytes in the chunk.
    pub to_download: usize,
    /// Bytes unpacked.
    pub unpacked: usize,
    /// Bytes to unpack.
    pub to_unpack: usize,
}

/// One of the most recent archive entries.
#[derive(Clone, Debug)]
pub struct UnpackedFile {
    /// Position of the entry in the archive.
    pub index: usize,
    /// Path of the entry.
    pub name: String,
    /// Size of the entry.
    pub size: u64,
    /// Whether the entry was written out.
    pub finished: bool,
}

/// How many recent archive entries the progress keeps.
pub const LAST_UNPACKED_CAPACITY: usize = 10;

/// The state that every stage reports into, under one lock.
pub struct InternalProgress {
    /// When the download was started, in Unix milliseconds.
    pub start_time_ms: u64,
    /// Chunks not yet delivered.
    pub unfinished_chunks: UnfinishedChunks,
    /// Number of chunks in the plan.
    pub total_chunks: usize,
    /// Nominal chunk length of the plan.
    pub chunk_size: usize,
    /// Bytes of delivered chunks.
    pub total_downloaded: usize,
    /// The resource's length, where known.
    pub total_download_size: Option<usize>,
    /// Bytes received per worker for the chunk it is fetching.
    pub chunk_downloaded: Vec<usize>,
    /// The chunks being fetched.
    pub current_chunks: Vec<DownloadChunkProgress>,
    /// Bytes decoded.
    pub total_unpacked: usize,
    /// The decoded length, where known.
    pub total_unpack_size: Option<usize>,
    /// Whether a stop was requested.
    pub stop_requested: bool,
    /// Whether the stop came from the controller rather than a failure.
    pub stop_by_request: bool,
    /// Whether the download is paused.
    pub paused: bool,
    /// Short-window sampler of downloaded bytes.
    pub progress_buckets_download: ProgressHistory,
    /// Short-window sampler of decoded bytes.
    pub progress_buckets_unpack: ProgressHistory,
    /// When the pipeline finished, in Unix milliseconds.
    pub finish_time_ms: Option<u64>,
    /// When the pipeline failed, in Unix milliseconds.
    pub error_time_ms: Option<u64>,
    /// Why the fetchers failed.
    pub error_message_download: Option<String>,
    /// Why the decoder failed.
    pub error_message_unpack: Option<String>,
    /// Why the pipeline as a whole failed.
    pub error_message: Option<String>,
    /// The resolved address of the resource.
    pub download_url: Option<String>,
    /// The most recent archive entries, oldest first.
    pub last_unpacked_files: Vec<UnpackedFile>,
    /// Number of archive entries seen.
    pub unpacked_files: usize,
}

impl InternalProgress {
    /// Bytes downloaded, counting chunks in flight.
    pub open spec fn downloaded_spec(&self) -> int {
        self.total_downloaded + seq_sum(self.chunk_downloaded@)
    }

    /// Nothing that only grows went down from `self` to `later`: downloaded
    /// and decoded bytes, and delivered chunks.
    pub open spec fn advances_to(&self, later: &InternalProgress) -> bool {
        &&& self.downloaded_spec() <= later.downloaded_spec()
        &&& self.total_downloaded <= later.total_downloaded
        &&& self.total_unpacked <= later.total_unpacked
        &&& later.unfinished_chunks@.len() <= self.unfinished_chunks@.len()
    }

    /// The record's internal consistency.
    pub open spec fn wf(&self) -> bool {
        &&& self.downloaded_spec() <= usize::MAX
        &&& self.unfinished_chunks.wf()
        &&& self.progress_buckets_download.wf()
        &&& self.progress_buckets_unpack.wf()
        &&& self.last_unpacked_files@.len() <= LAST_UNPACKED_CAPACITY
    }

    /// A fresh record for a download started at `start_time_ms`.
    pub fn new(start_time_ms: u64) -> (r: InternalProgress)
        ensures
            r.wf(),
            r.start_time_ms == start_time_ms,
            r.downloaded_spec() == 0,
            r.total_unpacked == 0,
            r.unfinished_chunks@.len() == 0,
            r.chunk_downloaded@.len() == 0,
            !r.stop_requested,
            !r.paused,
            r.finish_time_ms is None,
            r.error_time_ms is None,
            r.total_download_size is None,
            r.download_url is None,
    {
        InternalProgress {
            start_time_ms,
            unfinished_chunks: UnfinishedChunks::new(),
            total_chunks: 0,
            chunk_size: 0,
            total_downloaded: 0,
            total_download_size: None,
            chunk_downloaded: Vec::new(),
            current_chunks: Vec::new(),
            total_unpacked: 0,
            total_unpack_size: None,
            stop_requested: false,
            stop_by_request: false,
            paused: false,
            progress_buckets_download: ProgressHistory::new(),
            progress_buckets_unpack: ProgressHistory::new(),
            finish_time_ms: None,
            error_time_ms: None,
            error_message_download: None,
            error_message_unpack: None,
            error_message: None,
            download_url: None,
            last_unpacked_files: Vec::new(),
            unpacked_files: 0,
        }
    }

    /// Bytes downloaded, counting chunks in flight.
    pub fn downloaded(&self) -> (r: usize)
        requires
            self.wf(),
        ensures
            r == self.downloaded_spec(),
    {
        let n = self.chunk_downloaded.len();
        let mut i: usize = 0;
        let mut sum: usize = self.total_downloaded;
        proof {
            assert(self.chunk_downloaded@.subrange(0, 0) =~= Seq::<usize>::empty());
        }
        while i < n
            invariant
                self.wf(),
                n == self.chunk_downloaded@.len(),
                i <= n,
                sum == self.total_downloaded + seq_sum(self.chunk_downloaded@.subrange(0, i as int)),
            decreases n - i,
        {
            proof {
                let s = self.chunk_downloaded@;
                assert(s.subrange(0, i + 1).drop_last() =~= s.subrange(0, i as int));
                if i + 1 < n {
                    assert(s =~= s.subrange(0, n as int));
                    lemma_prefix_sum_le(s, (i + 1) as int);
                }
                assert(s.subrange(0, n as int) =~= s);
                lemma_prefix_sum_le(s, (i + 1) as int);
            }
            sum = sum + self.chunk_downloaded[i];
            i = i + 1;
        }
        proof {
            assert(self.chunk_downloaded@.subrange(0, n as int) =~= self.chunk_downloaded@);
        }
        sum
    }

    /// Records the plan: seeds the unfinished chunks once, and gives every
    /// active worker a zero counter.
    pub fn init_plan(&mut self, plan: &DownloadPlan)
        requires
            old(self).wf(),
            plan.wf(),
            old(self).total_downloaded == 0,
        ensures
            final(self).wf(),
            old(self).unfinished_chunks@.len() == 0 ==> forall|k: usize|
                final(self).unfinished_chunks@.contains(k) <==> k < plan.chunk_count,
            old(self).unfinished_chunks@.len() == 0 ==> final(self).total_chunks == plan.chunk_count,
            final(self).chunk_downloaded@ == Seq::new(
                plan.active_worker_count as nat,
                |i: int| 0usize,
            ),
            final(self).total_download_size == plan.total_bytes,
            final(self).downloaded_spec() == 0,
            final(self).stop_requested == old(self).stop_requested,
            final(self).paused == old(self).paused,
            final(self).total_unpacked == old(self).total_unpacked,
    {
        if self.unfinished_chunks.is_empty() {
            self.unfinished_chunks = UnfinishedChunks::seeded(plan.chunk_count);
            self.total_chunks = plan.chunk_count;
            self.chunk_size = plan.chunk_bytes;
        }
        let mut counters: Vec<usize> = Vec::new();
        let mut i: usize = 0;
        while i < plan.active_worker_count
            invariant
                i <= plan.active_worker_count,
                counters@ == Seq::new(i as nat, |j: int| 0usize),
            decreases plan.active_worker_count - i,
        {
            counters.push(0);
            i = i + 1;
            assert(counters@ =~= Seq::new(i as nat, |j: int| 0usize));
        }
        self.chunk_downloaded = counters;
        self.total_download_size = plan.total_bytes;
        proof {
            lemma_seq_sum_zeros(plan.active_worker_count as nat);
        }
    }

    /// Counts `n` bytes received by `worker` for chunk `chunk_no` at `now_ms`.
    /// The counters saturate at `usize::MAX`. Fails with `Stopped` once a stop
    /// was requested, which ends the read.
    pub fn record_downloaded(&mut self, worker: usize, chunk_no: usize, n: usize, now_ms: u64) -> (r:
        Result<(), PipeError>)
        requires
            old(self).wf(),
            worker < old(self).chunk_downloaded@.len(),
        ensures
            old(self).advances_to(&*final(self)),
            final(self).wf(),
            final(self).downloaded_spec() == sat_add(old(self).downloaded_spec(), n as int),
            final(self).total_downloaded == old(self).total_downloaded,
            final(self).chunk_downloaded@ == old(self).chunk_downloaded@.update(
                worker as int,
                (old(self).chunk_downloaded@[worker as int] + (sat_add(
                    old(self).downloaded_spec(),
                    n as int,
                ) - old(self).downloaded_spec())) as usize,
            ),
            final(self).progress_buckets_download.entries() == after_add(
                old(self).progress_buckets_download.entries(),
                now_ms as int,
                n as int,
                old(self).progress_buckets_download.max_entries(),
                old(self).progress_buckets_download.keep_ms(),
            ),
            final(self).progress_buckets_download.max_entries() == old(
                self,
            ).progress_buckets_download.max_entries(),
            final(self).progress_buckets_download.keep_ms() == old(
                self,
            ).progress_buckets_download.keep_ms(),
            final(self).total_unpacked == old(self).total_unpacked,
            final(self).unfinished_chunks@ == old(self).unfinished_chunks@,
            final(self).stop_requested == old(self).stop_requested,
            final(self).paused == old(self).paused,
            final(self).current_chunks@ == chunks_after_bytes(
                old(self).current_chunks@,
                chunk_no,
                n,
            ),
            r == if old(self).stop_requested {
                Err::<(), PipeError>(PipeError::Stopped)
            } else {
                Ok::<(), PipeError>(())
            },
    {
        let d = self.downloaded();
        let add = if n <= usize::MAX - d {
            n
        } else {
            usize::MAX - d
        };
        let cur = self.chunk_downloaded[worker];
        proof {
            lemma_seq_sum_bound(self.chunk_downloaded@, worker as int);
            lemma_seq_sum_update(self.chunk_downloaded@, worker as int, (cur + add) as usize);
        }
        self.chunk_downloaded[worker] = cur + add;
        note_chunk_bytes(&mut self.current_chunks, chunk_no, n);
        self.progress_buckets_download.add_bytes(now_ms, n);
        if self.stop_requested {
            Err(PipeError::Stopped)
        } else {
            Ok(())
        }
    }

    /// Opens the in-flight record of chunk `chunk_no` of `len` bytes.
    pub fn begin_chunk(&mut self, chunk_no: usize, len: usize)
        requires
            old(self).wf(),
        ensures
            old(self).advances_to(&*final(self)),
            final(self).wf(),
            final(self).downloaded_spec() == old(self).downloaded_spec(),
            final(self).total_downloaded == old(self).total_downloaded,
            final(self).chunk_downloaded@ == old(self).chunk_downloaded@,
            final(self).unfinished_chunks@ == old(self).unfinished_chunks@,
            final(self).total_unpacked == old(self).total_unpacked,
            final(self).stop_requested == old(self).stop_requested,
            final(self).paused == old(self).paused,
            final(self).current_chunks@.contains(
                DownloadChunkProgress {
                    chunk_no,
                    downloaded: 0,
                    to_download: len,
                    unpacked: 0,
                    to_unpack: len,
                },
            ),
    {
        self.forget_chunk(chunk_no);
        let e = DownloadChunkProgress {
            chunk_no,
            downloaded: 0,
            to_download: len,
            unpacked: 0,
            to_unpack: len,
        };
        self.current_chunks.push(e);
        assert(self.current_chunks@[self.current_chunks@.len() - 1] == e);
    }

    /// Drops the in-flight record of chunk `chunk_no`.
    fn forget_chunk(&mut self, chunk_no: usize)
        requires
            old(self).wf(),
        ensures
            final(self).wf(),
            forall|i: int|
                0 <= i < final(self).current_chunks@.len()
                    ==> #[trigger] final(self).current_chunks@[i].chunk_no != chunk_no,
            final(self).total_downloaded == old(self).total_downloaded,
            final(self).chunk_downloaded@ == old(self).chunk_downloaded@,
            final(self).unfinished_chunks@ == old(self).unfinished_chunks@,
            final(self).total_unpacked == old(self).total_unpacked,
            final(self).stop_requested == old(self).stop_requested,
            final(self).paused == old(self).paused,
    {
        let mut i: usize = 0;
        while i < self.current_chunks.len()
            invariant
                self.wf(),
                i <= self.current_chunks@.len(),
                forall|j: int| 0 <= j < i ==> #[trigger] self.current_chunks@[j].chunk_no != chunk_no,
                self.total_downloaded == old(self).total_downloaded,
                self.chunk_downloaded@ == old(self).chunk_downloaded@,
                self.unfinished_chunks@ == old(self).unfinished_chunks@,
                self.total_unpacked == old(self).total_unpacked,
                self.stop_requested == old(self).stop_requested,
                self.paused == old(self).paused,
            decreases self.current_chunks@.len() - i,
        {
            if self.current_chunks[i].chunk_no == chunk_no {
                self.current_chunks.remove(i);
            } else {
                i = i + 1;
            }
        }
    }

    /// Chunk `chunk_no` was fetched whole by `worker`: its bytes move from the
    /// worker's counter to the delivered total, and it leaves the unfinished
    /// set. Returns whether it was still owed.
    pub fn complete_chunk(&mut self, worker: usize, chunk_no: usize) -> (r: bool)
        requires
            old(self).wf(),
            worker < old(self).chunk_downloaded@.len(),
        ensures
            old(self).advances_to(&*final(self)),
            final(self).wf(),
            final(self).downloaded_spec() == old(self).downloaded_spec(),
            final(self).total_downloaded == old(self).total_downloaded
                + old(self).chunk_downloaded@[worker as int],
            final(self).chunk_downloaded@ == old(self).chunk_downloaded@.update(worker as int, 0),
            r == old(self).unfinished_chunks@.contains(chunk_no),
            !final(self).unfinished_chunks@.contains(chunk_no),
            forall|x: usize|
                x != chunk_no ==> (final(self).unfinished_chunks@.contains(x) <==> old(
                    self,
                ).unfinished_chunks@.contains(x)),
            final(self).unfinished_chunks@.len() <= old(self).unfinished_chunks@.len(),
            forall|i: int|
                0 <= i < final(self).current_chunks@.len()
                    ==> #[trigger] final(self).current_chunks@[i].chunk_no != chunk_no,
            final(self).total_unpacked == old(self).total_unpacked,
            final(self).stop_requested == old(self).stop_requested,
            final(self).paused == old(self).paused,
    {
        let cur = self.chunk_downloaded[worker];
        proof {
            lemma_seq_sum_bound(self.chunk_downloaded@, worker as int);
            lemma_seq_sum_update(self.chunk_downloaded@, worker as int, 0);
        }
        self.total_downloaded = self.total_downloaded + cur;
        self.chunk_downloaded[worker] = 0;
        let r = self.unfinished_chunks.complete(chunk_no);
        self.forget_chunk(chunk_no);
        r
    }

    /// A failed attempt of `worker`: its counter goes back to zero.
    pub fn reset_worker(&mut self, worker: usize)
        requires
            old(self).wf(),
            worker < old(self).chunk_downloaded@.len(),
        ensures
            final(self).wf(),
            final(self).chunk_downloaded@ == old(self).chunk_downloaded@.update(worker as int, 0),
            final(self).downloaded_spec() == old(self).downloaded_spec()
                - old(self).chunk_downloaded@[worker as int],
            final(self).total_downloaded == old(self).total_downloaded,
            final(self).unfinished_chunks@ == old(self).unfinished_chunks@,
            final(self).total_unpacked == old(self).total_unpacked,
            final(self).stop_requested == old(self).stop_requested,
            final(self).paused == old(self).paused,
    {
        proof {
            lemma_seq_sum_bound(self.chunk_downloaded@, worker as int);
            lemma_seq_sum_update(self.chunk_downloaded@, worker as int, 0);
        }
        self.chunk_downloaded[worker] = 0;
    }

    /// Counts `n` decoded bytes at `now_ms`, saturating at `usize::MAX`.
    /// Returns whether a stop was requested.
    pub fn record_unpacked(&mut self, n: usize, now_ms: u64) -> (r: bool)
        requires
            old(self).wf(),
        ensures
            old(self).advances_to(&*final(self)),
            final(self).wf(),
            final(self).total_unpacked == sat_add(old(self).total_unpacked as int, n as int),
            final(self).downloaded_spec() == old(self).downloaded_spec(),
            final(self).total_downloaded == old(self).total_downloaded,
            final(self).chunk_downloaded@ == old(self).chunk_downloaded@,
            final(self).unfinished_chunks@ == old(self).unfinished_chunks@,
            final(self).stop_requested == old(self).stop_requested,
            final(self).paused == old(self).paused,
            final(self).progress_buckets_unpack.entries() == after_add(
                old(self).progress_buckets_unpack.entries(),
                now_ms as int,
                n as int,
                old(self).progress_buckets_unpack.max_entries(),
                old(self).progress_buckets_unpack.keep_ms(),
            ),
            final(self).progress_buckets_unpack.max_entries() == old(
                self,
            ).progress_buckets_unpack.max_entries(),
            final(self).progress_buckets_unpack.keep_ms() == old(
                self,
            ).progress_buckets_unpack.keep_ms(),
            final(self).progress_buckets_download == old(self).progress_buckets_download,
            r == old(self).stop_requested,
    {
        self.total_unpacked = if n <= usize::MAX - self.total_unpacked {
            self.total_unpacked + n
        } else {
            usize::MAX
        };
        self.progress_buckets_unpack.add_bytes(now_ms, n);
        self.stop_requested
    }

    /// The controller asks every stage to wind down; nothing else changes.
    pub fn signal_stop(&mut self)
        ensures
            old(self).advances_to(&*final(self)),
            *final(self) == (InternalProgress { stop_requested: true, stop_by_request: true, ..*old(self) }),
    {
        self.stop_requested = true;
        self.stop_by_request = true;
    }

    /// Pauses new fetch attempts; nothing else changes.
    pub fn pause_download(&mut self)
        ensures
            old(self).advances_to(&*final(self)),
            *final(self) == (InternalProgress { paused: true, ..*old(self) }),
    {
        self.paused = true;
    }

    /// Lets fetch attempts go on; nothing else changes.
    pub fn resume_download(&mut self)
        ensures
            old(self).advances_to(&*final(self)),
            *final(self) == (InternalProgress { paused: false, ..*old(self) }),
    {
        self.paused = false;
    }
}

proof fn lemma_prefix_sum_le(s: Seq<usize>, k: int)
    requires
        0 <= k <= s.len(),
    ensures
        seq_sum(s.subrange(0, k)) <= seq_sum(s),
        0 <= seq_sum(s.subrange(0, k)),
    decreases s.len(),
{
    lemma_seq_sum_nonneg(s);
    lemma_seq_sum_nonneg(s.subrange(0, k));
    if k == s.len() {
        assert(s.subrange(0, k) =~= s);
    } else {
        assert(s.subrange(0, k) =~= s.drop_last().subrange(0, k));
        lemma_prefix_sum_le(s.drop_last(), k);
    }
    if k == 0 {
        assert(s.subrange(0, 0) =~= Seq::<usize>::empty());
    }
}

/// Progress only grows along any run of updates other than the reset of a
/// failed attempt: what grows from `a` to `b` and from `b` to `c` grew from
/// `a` to `c`.
pub proof fn lemma_progress_monotone(a: &InternalProgress, b: &InternalProgress, c: &InternalProgress)
    requires
        a.advances_to(b),
        b.advances_to(c),
    ensures
        a.advances_to(c),
{
}

/// `p` is a snapshot of `s`, as far as the growing fields go.
pub open spec fn snapshot_of(p: &PipeDownloaderProgress, s: &InternalProgress) -> bool {
    &&& p.downloaded == s.downloaded_spec()
    &&& p.unpacked == s.total_unpacked
    &&& p.chunks_left == s.unfinished_chunks@.len()
}

/// Progress monotonicity: between two snapshots taken across any run of
/// updates other than the reset of a failed attempt, downloaded and unpacked
/// bytes never fall and the chunks left never rise.
pub proof fn lemma_snapshots_monotone(
    a: &InternalProgress,
    b: &InternalProgress,
    pa: &PipeDownloaderProgress,
    pb: &PipeDownloaderProgress,
)
    requires
        a.advances_to(b),
        snapshot_of(pa, a),
        snapshot_of(pb, b),
    ensures
        pa.downloaded <= pb.downloaded,
        pa.unpacked <= pb.unpacked,
        pb.chunks_left <= pa.chunks_left,
        a.total_downloaded <= b.total_downloaded,
{
}

/// A point-in-time copy of the public progress fields.
pub struct PipeDownloaderProgress {
    /// When the download was started, in Unix milliseconds.
    pub start_time_ms: u64,
    /// Bytes downloaded, counting chunks in flight.
    pub downloaded: usize,
    /// Bytes decoded.
    pub unpacked: usize,
    /// Whether a stop was requested.
    pub stop_requested: bool,
    /// Whether the download is paused.
    pub paused: bool,
    /// Milliseconds since the start, up to the finish where there was one.
    pub elapsed_time_ms: u64,
    /// Seconds left, where they can be estimated.
    pub eta_sec: Option<u64>,
    /// When the pipeline finished, in Unix milliseconds.
    pub finish_time_ms: Option<u64>,
    /// Short-window download speed, bytes per second.
    pub current_download_speed: usize,
    /// Short-window decode speed, bytes per second.
    pub current_unpack_speed: usize,
    /// Why the pipeline failed.
    pub error_message: Option<String>,
    /// Why the fetchers failed.
    pub error_message_download: Option<String>,
    /// Why the decoder failed.
    pub error_message_unpack: Option<String>,
    /// The decoded length, where known.
    pub total_unpack_size: Option<usize>,
    /// The resource's length, where known.
    pub total_download_size: Option<usize>,
    /// The resolved address of the resource.
    pub download_url: Option<String>,
    /// Number of fetchers.
    pub chunks_downloading: usize,
    /// Number of chunks in the plan.
    pub chunks_total: usize,
    /// Number of chunks not yet delivered.
    pub chunks_left: usize,
}

fn copy_text(o: &Option<String>) -> (r: Option<String>)
    ensures
        r == *o,
{
    match o {
        Some(s) => Some(s.clone()),
        None => None,
    }
}

/// `ETA: hh:mm:ss` for `eta` seconds, or `ETA: unknown`.
pub open spec fn eta_text(eta: Option<u64>) -> Seq<char> {
    match eta {
        Some(e) => "ETA: "@ + decimal2(e as nat / 3600) + ":"@ + decimal2((e as nat / 60) % 60) + ":"@
            + decimal2(e as nat % 60),
        None => "ETA: unknown"@,
    }
}

/// `downloaded` as a percentage of `total`, in hundredths, rounded.
pub open spec fn percent_hundredths(downloaded: nat, total: nat) -> nat {
    ((20000 * downloaded + total) / (2 * total)) as nat
}

/// `[pp.hh%]` where the total is known, else nothing.
pub open spec fn percent_text(downloaded: nat, total: Option<usize>) -> Seq<char> {
    match total {
        Some(t) => if t > 0 {
            let p = percent_hundredths(downloaded, t as nat);
            "["@ + decimal(p / 100) + "."@ + decimal2(p % 100) + "%]"@
        } else {
            Seq::empty()
        },
        None => Seq::empty(),
    }
}

/// The human readable progress line.
pub open spec fn progress_line_text(
    downloaded: nat,
    lifetime_download: nat,
    current_download: nat,
    unpacked: nat,
    lifetime_unpack: nat,
    current_unpack: nat,
    eta: Option<u64>,
    total: Option<usize>,
) -> Seq<char> {
    "Downloaded: "@ + size_text(downloaded) + " ["@ + size_text(lifetime_download) + "/s now: "@
        + size_text(current_download) + "/s], Unpack: "@ + size_text(unpacked) + " ["@ + size_text(
        lifetime_unpack,
    ) + "/s now: "@ + size_text(current_unpack) + "/s] - "@ + eta_text(eta) + " "@ + percent_text(
        downloaded,
        total,
    )
}

/// Rounded bytes per second for `bytes` over `elapsed_ms`.
fn rate(bytes: usize, elapsed_ms: u64) -> (r: usize)
    ensures
        r == speed_of(bytes as int, elapsed_ms as int),
{
    if elapsed_ms == 0 {
        return 0;
    }
    let v = (2000 * (bytes as u128) + elapsed_ms as u128) / (2 * elapsed_ms as u128);
    if v > usize::MAX as u128 {
        usize::MAX
    } else {
        v as usize
    }
}

impl InternalProgress {
    /// Milliseconds from the start to the finish, or to `now` while running;
    /// 0 where the clock reads earlier than the start.
    pub open spec fn elapsed_spec(&self, now_ms: u64) -> int {
        let end = match self.finish_time_ms {
            Some(f) => f,
            None => now_ms,
        };
        if end < self.start_time_ms {
            0
        } else {
            end - self.start_time_ms
        }
    }

    /// Lifetime download speed: 0 once finished.
    pub open spec fn download_speed_spec(&self, now_ms: u64) -> int {
        if self.finish_time_ms is Some {
            0
        } else {
            speed_of(self.downloaded_spec(), self.elapsed_spec(now_ms))
        }
    }

    /// Lifetime decode speed: 0 once finished.
    pub open spec fn unpack_speed_spec(&self, now_ms: u64) -> int {
        if self.finish_time_ms is Some {
            0
        } else {
            speed_of(self.total_unpacked as int, self.elapsed_spec(now_ms))
        }
    }

    /// Short-window download speed.
    pub open spec fn current_download_speed_spec(&self, now_ms: u64) -> int {
        window_speed(
            self.progress_buckets_download.entries(),
            now_ms as int,
            self.progress_buckets_download.keep_ms(),
        )
    }

    /// Short-window decode speed.
    pub open spec fn current_unpack_speed_spec(&self, now_ms: u64) -> int {
        window_speed(
            self.progress_buckets_unpack.entries(),
            now_ms as int,
            self.progress_buckets_unpack.keep_ms(),
        )
    }

    /// Seconds left: 0 once finished; the bytes still owed over the
    /// short-window speed where the length is known and the speed is at least
    /// 100 bytes per second; unknown otherwise.
    pub open spec fn eta_spec(&self, now_ms: u64) -> Option<u64> {
        if self.finish_time_ms is Some {
            Some(0)
        } else {
            let speed = self.current_download_speed_spec(now_ms);
            if speed < 100 {
                None
            } else {
                match self.total_download_size {
                    Some(t) => {
                        let left = if t >= self.downloaded_spec() {
                            t - self.downloaded_spec()
                        } else {
                            0
                        };
                        Some((left / speed) as u64)
                    },
                    None => None,
                }
            }
        }
    }

    /// Milliseconds since the start; see `elapsed_spec`.
    pub fn get_elapsed(&self, now_ms: u64) -> (r: u64)
        ensures
            r == self.elapsed_spec(now_ms),
    {
        let end = match self.finish_time_ms {
            Some(f) => f,
            None => now_ms,
        };
        if end < self.start_time_ms {
            0
        } else {
            end - self.start_time_ms
        }
    }

    /// Lifetime download speed in bytes per second.
    pub fn get_download_speed(&self, now_ms: u64) -> (r: usize)
        requires
            self.wf(),
        ensures
            r == self.download_speed_spec(now_ms),
    {
        if self.finish_time_ms.is_some() {
            return 0;
        }
        rate(self.downloaded(), self.get_elapsed(now_ms))
    }

    /// Lifetime decode speed in bytes per second.
    pub fn get_unpack_speed(&self, now_ms: u64) -> (r: usize)
        ensures
            r == self.unpack_speed_spec(now_ms),
    {
        if self.finish_time_ms.is_some() {
            return 0;
        }
        rate(self.total_unpacked, self.get_elapsed(now_ms))
    }

    /// Seconds left; see `eta_spec`.
    pub fn get_time_left_sec(&self, now_ms: u64) -> (r: Option<u64>)
        requires
            self.wf(),
        ensures
            r == self.eta_spec(now_ms),
    {
        if self.finish_time_ms.is_some() {
            return Some(0);
        }
        let speed = self.progress_buckets_download.get_speed(now_ms);
        if speed < 100 {
            return None;
        }
        match self.total_download_size {
            Some(t) => {
                let d = self.downloaded();
                let left = if t >= d {
                    t - d
                } else {
                    0
                };
                Some((left / speed) as u64)
            },
            None => None,
        }
    }

    /// A snapshot of the public fields at `now_ms`.
    pub fn progress(&self, now_ms: u64) -> (r: PipeDownloaderProgress)
        requires
            self.wf(),
        ensures
            r.start_time_ms == self.start_time_ms,
            r.downloaded == self.downloaded_spec(),
            r.unpacked == self.total_unpacked,
            r.stop_requested == self.stop_requested,
            r.paused == self.paused,
            r.elapsed_time_ms == self.elapsed_spec(now_ms),
            r.eta_sec == self.eta_spec(now_ms),
            r.finish_time_ms == self.finish_time_ms,
            r.current_download_speed == self.current_download_speed_spec(now_ms),
            r.current_unpack_speed == self.current_unpack_speed_spec(now_ms),
            r.error_message == self.error_message,
            r.error_message_download == self.error_message_download,
            r.error_message_unpack == self.error_message_unpack,
            r.total_unpack_size == self.total_unpack_size,
            r.total_download_size == self.total_download_size,
            r.download_url == self.download_url,
            r.chunks_downloading == self.chunk_downloaded@.len(),
            r.chunks_total == self.total_chunks,
            r.chunks_left == self.unfinished_chunks@.len(),
            snapshot_of(&r, self),
    {
        PipeDownloaderProgress {
            start_time_ms: self.start_time_ms,
            downloaded: self.downloaded(),
            unpacked: self.total_unpacked,
            stop_requested: self.stop_requested,
            paused: self.paused,
            elapsed_time_ms: self.get_elapsed(now_ms),
            eta_sec: self.get_time_left_sec(now_ms),
            finish_time_ms: self.finish_time_ms,
            current_download_speed: self.progress_buckets_download.get_speed(now_ms),
            current_unpack_speed: self.progress_buckets_unpack.get_speed(now_ms),
            error_message: copy_text(&self.error_message),
            error_message_download: copy_text(&self.error_message_download),
            error_message_unpack: copy_text(&self.error_message_unpack),
            total_unpack_size: self.total_unpack_size,
            total_download_size: self.total_download_size,
            download_url: copy_text(&self.download_url),
            chunks_downloading: self.chunk_downloaded.len(),
            chunks_total: self.total_chunks,
            chunks_left: self.unfinished_chunks.len(),
        }
    }

    /// The one-line human readable progress at `now_ms`, with sizes and
    /// speeds, the ETA and, where the length is known, the percentage.
    pub fn progress_line(&self, now_ms: u64) -> (r: String)
        requires
            self.wf(),
        ensures
            r@ == progress_line_text(
                self.downloaded_spec() as nat,
                self.download_speed_spec(now_ms) as nat,
                self.current_download_speed_spec(now_ms) as nat,
                self.total_unpacked as nat,
                self.unpack_speed_spec(now_ms) as nat,
                self.current_unpack_speed_spec(now_ms) as nat,
                self.eta_spec(now_ms),
                self.total_download_size,
            ),
    {
        let d = self.downloaded();
        let eta = self.get_time_left_sec(now_ms);
        let mut s = String::from_str("Downloaded: ");
        s.append(bytes_to_human(d).as_str());
        s.append(" [");
        s.append(bytes_to_human(self.get_download_speed(now_ms)).as_str());
        s.append("/s now: ");
        s.append(bytes_to_human(self.progress_buckets_download.get_speed(now_ms)).as_str());
        s.append("/s], Unpack: ");
        s.append(bytes_to_human(self.total_unpacked).as_str());
        s.append(" [");
        s.append(bytes_to_human(self.get_unpack_speed(now_ms)).as_str());
        s.append("/s now: ");
        s.append(bytes_to_human(self.progress_buckets_unpack.get_speed(now_ms)).as_str());
        s.append("/s] - ");
        push_eta(&mut s, eta);
        s.append(" ");
        push_percent(&mut s, d, self.total_download_size);
        s
    }
}

fn push_eta(s: &mut String, eta: Option<u64>)
    ensures
        final(s)@ == old(s)@ + eta_text(eta),
{
    match eta {
        Some(e) => {
            s.append("ETA: ");
            push_decimal2(s, (e / 3600) as u128);
            s.append(":");
            push_decimal2(s, ((e / 60) % 60) as u128);
            s.append(":");
            push_decimal2(s, (e % 60) as u128);
            assert(s@ =~= old(s)@ + eta_text(eta));
        },
        None => {
            s.append("ETA: unknown");
        },
    }
}

fn push_percent(s: &mut String, downloaded: usize, total: Option<usize>)
    ensures
        final(s)@ == old(s)@ + percent_text(downloaded as nat, total),
{
    match total {
        Some(t) => {
            if t > 0 {
                let p = (20000 * (downloaded as u128) + t as u128) / (2 * t as u128);
                proof {
                    assert(p == percent_hundredths(downloaded as nat, t as nat));
                    assert(p <= 20000 * (downloaded as u128) + t as u128) by (nonlinear_arith)
                        requires
                            t > 0,
                            p == (20000 * (downloaded as u128) + t as u128) / (2 * t as u128),
                    ;
                }
                s.append("[");
                push_decimal(s, p / 100);
                s.append(".");
                push_decimal2(s, p % 100);
                s.append("%]");
                assert(s@ =~= old(s)@ + percent_text(downloaded as nat, total));
            } else {
                assert(s@ =~= old(s)@ + percent_text(downloaded as nat, total));
            }
        },
        None => {
            assert(s@ =~= old(s)@ + percent_text(downloaded as nat, total));
        },
    }
}

impl InternalProgress {
    /// Publishes the resolved address for the later stages.
    pub fn publish_url(&mut self, url: String)
        requires
            old(self).wf(),
        ensures
            old(self).advances_to(&*final(self)),
            final(self).wf(),
            final(self).download_url == Some(url),
            final(self).stop_requested == old(self).stop_requested,
    {
        self.download_url = Some(url);
    }

    /// The fetchers failed with `error`: the other stages are asked to stop.
    pub fn fail_download(&mut self, error: PipeError)
        requires
            old(self).wf(),
        ensures
            old(self).advances_to(&*final(self)),
            final(self).wf(),
            final(self).stop_requested,
            final(self).error_message_download matches Some(m) && m@ == error_text(error),
            final(self).error_message == old(self).error_message,
            final(self).error_message_unpack == old(self).error_message_unpack,
    {
        self.stop_requested = true;
        self.error_message_download = Some(String::from_str(error.message()));
    }

    /// The decoder failed with `error`: the other stages are asked to stop.
    pub fn fail_unpack(&mut self, error: PipeError)
        requires
            old(self).wf(),
        ensures
            old(self).advances_to(&*final(self)),
            final(self).wf(),
            final(self).stop_requested,
            final(self).error_message_unpack matches Some(m) && m@ == error_text(error),
            final(self).error_message == old(self).error_message,
            final(self).error_message_download == old(self).error_message_download,
    {
        self.stop_requested = true;
        self.error_message_unpack = Some(String::from_str(error.message()));
    }

    /// The sink failed: records why in the overall slot, and asks the other
    /// stages to stop.
    pub fn fail_overall(&mut self, message: String)
        requires
            old(self).wf(),
        ensures
            old(self).advances_to(&*final(self)),
            final(self).wf(),
            final(self).stop_requested,
            final(self).error_message == Some(message),
            final(self).error_message_download == old(self).error_message_download,
            final(self).error_message_unpack == old(self).error_message_unpack,
            final(self).finish_time_ms == old(self).finish_time_ms,
            final(self).error_time_ms == old(self).error_time_ms,
    {
        self.error_message = Some(message);
        self.stop_requested = true;
    }

    /// Records how the sink ended and tells whether the run ended in order:
    /// the sink succeeded, or its stream was cut by a stop that the
    /// controller asked for, which is the orderly end that a stop brings.
    /// Any other failure of the sink fills the overall slot.
    pub fn end_sink(&mut self, result: Result<(), String>) -> (r: bool)
        requires
            old(self).wf(),
        ensures
            old(self).advances_to(&*final(self)),
            final(self).wf(),
            r == (result is Ok || old(self).stop_by_request),
            final(self).stop_requested,
            r ==> final(self).error_message == old(self).error_message,
            !r ==> final(self).error_message == Some(result->Err_0),
            final(self).error_message_download == old(self).error_message_download,
            final(self).error_message_unpack == old(self).error_message_unpack,
            final(self).finish_time_ms == old(self).finish_time_ms,
            final(self).error_time_ms == old(self).error_time_ms,
    {
        match result {
            Ok(()) => {
                self.stop_requested = true;
                true
            },
            Err(message) => {
                if self.stop_by_request {
                    self.stop_requested = true;
                    true
                } else {
                    self.fail_overall(message);
                    false
                }
            },
        }
    }

    /// Whether the fetchers or the decoder recorded a failure.
    pub fn upstream_failed(&self) -> (r: bool)
        ensures
            r == (self.error_message_download is Some || self.error_message_unpack is Some),
    {
        self.error_message_download.is_some() || self.error_message_unpack.is_some()
    }

    /// Stamps the successful end, after every stage was joined.
    pub fn mark_finished(&mut self, now_ms: u64)
        requires
            old(self).wf(),
        ensures
            old(self).advances_to(&*final(self)),
            final(self).wf(),
            final(self).stop_requested,
            final(self).finish_time_ms == Some(now_ms),
            final(self).error_time_ms == old(self).error_time_ms,
            final(self).error_message == old(self).error_message,
            final(self).error_message_download == old(self).error_message_download,
            final(self).error_message_unpack == old(self).error_message_unpack,
    {
        self.stop_requested = true;
        self.finish_time_ms = Some(now_ms);
    }

    /// Stamps the failed end, after every stage was joined.
    pub fn mark_failed(&mut self, now_ms: u64)
        requires
            old(self).wf(),
        ensures
            old(self).advances_to(&*final(self)),
            final(self).wf(),
            final(self).stop_requested,
            final(self).error_time_ms == Some(now_ms),
            final(self).finish_time_ms == old(self).finish_time_ms,
            final(self).error_message == old(self).error_message,
            final(self).error_message_download == old(self).error_message_download,
            final(self).error_message_unpack == old(self).error_message_unpack,
    {
        self.stop_requested = true;
        self.error_time_ms = Some(now_ms);
    }

    /// An archive entry of `size` bytes at `name` is being unpacked. It joins
    /// the most recent entries, the oldest leaving beyond their capacity.
    /// Returns its index.
    pub fn note_entry_started(&mut self, name: String, size: u64) -> (r: usize)
        requires
            old(self).wf(),
        ensures
            old(self).advances_to(&*final(self)),
            final(self).wf(),
            r == old(self).unpacked_files,
            final(self).unpacked_files == sat_add(old(self).unpacked_files as int, 1),
            final(self).last_unpacked_files@.len() > 0,
            final(self).last_unpacked_files@.last().index == r,
            final(self).last_unpacked_files@.last().name == name,
            final(self).last_unpacked_files@.last().size == size,
            !final(self).last_unpacked_files@.last().finished,
            final(self).last_unpacked_files@.drop_last() == if old(self).last_unpacked_files@.len()
                == LAST_UNPACKED_CAPACITY {
                old(self).last_unpacked_files@.drop_first()
            } else {
                old(self).last_unpacked_files@
            },
            final(self).downloaded_spec() == old(self).downloaded_spec(),
            final(self).total_unpacked == old(self).total_unpacked,
            final(self).unfinished_chunks@ == old(self).unfinished_chunks@,
            final(self).stop_requested == old(self).stop_requested,
    {
        let index = self.unpacked_files;
        if self.last_unpacked_files.len() == LAST_UNPACKED_CAPACITY {
            self.last_unpacked_files.remove(0);
        }
        let ghost kept = self.last_unpacked_files@;
        self.last_unpacked_files.push(UnpackedFile { index, name, size, finished: false });
        assert(self.last_unpacked_files@.drop_last() =~= kept);
        if self.unpacked_files < usize::MAX {
            self.unpacked_files = self.unpacked_files + 1;
        }
        index
    }

    /// The entry with index `index` was written out.
    pub fn note_entry_finished(&mut self, index: usize)
        requires
            old(self).wf(),
        ensures
            old(self).advances_to(&*final(self)),
            final(self).wf(),
            final(self).last_unpacked_files@.len() == old(self).last_unpacked_files@.len(),
            forall|i: int|
                0 <= i < old(self).last_unpacked_files@.len() ==> {
                    let a = #[trigger] final(self).last_unpacked_files@[i];
                    let b = old(self).last_unpacked_files@[i];
                    a.index == b.index && a.name == b.name && a.size == b.size && a.finished == (
                    b.finished || b.index == index)
                },
            final(self).downloaded_spec() == old(self).downloaded_spec(),
            final(self).total_unpacked == old(self).total_unpacked,
            final(self).unfinished_chunks@ == old(self).unfinished_chunks@,
            final(self).stop_requested == old(self).stop_requested,
    {
        let n = self.last_unpacked_files.len();
        let mut i: usize = 0;
        while i < n
            invariant
                self.wf(),
                n == self.last_unpacked_files@.len(),
                n == old(self).last_unpacked_files@.len(),
                i <= n,
                forall|j: int|
                    0 <= j < n ==> {
                        let a = #[trigger] self.last_unpacked_files@[j];
                        let b = old(self).last_unpacked_files@[j];
                        a.index == b.index && a.name == b.name && a.size == b.size && a.finished
                            == if j < i {
                            b.finished || b.index == index
                        } else {
                            b.finished
                        }
                    },
                self.downloaded_spec() == old(self).downloaded_spec(),
                self.total_downloaded == old(self).total_downloaded,
                self.total_unpacked == old(self).total_unpacked,
                self.unfinished_chunks@ == old(self).unfinished_chunks@,
                self.stop_requested == old(self).stop_requested,
            decreases n - i,
        {
            if self.last_unpacked_files[i].index == index {
                let mut f = self.last_unpacked_files.remove(i);
                f.finished = true;
                self.last_unpacked_files.insert(i, f);
            }
            i = i + 1;
        }
    }
}

} // verus!
