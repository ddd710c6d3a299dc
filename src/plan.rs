use vstd::prelude::*;
use vstd::string::StringExecFns;

use crate::error::{is_transient, PipeError};
use crate::text::{decimal, push_decimal};

verus! {

/// Below this many bytes a resource is fetched over a single connection.
pub const SINGLE_REQUEST_LIMIT: usize = 10_000;

/// The status that confirms a range request.
pub const STATUS_PARTIAL_CONTENT: u16 = 206;

/// The status of a whole-body answer.
pub const STATUS_OK: u16 = 200;

/// The most bytes that one read of a response body asks for.
pub const READ_STEP_BYTES: usize = 1_048_576;

/// Whether the HEAD answer leaves range requests as a candidate, which a probe then confirms.
pub open spec fn probe_wanted(force_no_ranges: bool, content_length: Option<usize>) -> bool {
    !force_no_ranges && (content_length matches Some(n) && n >= SINGLE_REQUEST_LIMIT)
}

/// Decides, from the `Content-Length` of the HEAD answer, whether to probe for
/// range support. An empty resource is refused.
pub fn range_probe_needed(force_no_ranges: bool, content_length: Option<usize>) -> (r: Result<
    bool,
    PipeError,
>)
    ensures
        content_length == Some(0usize) ==> r == Err::<bool, PipeError>(PipeError::EmptyBody),
        content_length != Some(0usize) ==> r == Ok::<bool, PipeError>(
            probe_wanted(force_no_ranges, content_length),
        ),
{
    match content_length {
        Some(n) => {
            if n == 0 {
                Err(PipeError::EmptyBody)
            } else {
                Ok(!force_no_ranges && n >= SINGLE_REQUEST_LIMIT)
            }
        },
        None => Ok(false),
    }
}

/// Whether the status of the probe `Range: bytes=1000-2000` confirms range support.
pub fn probe_confirms_ranges(status: u16) -> (r: bool)
    ensures
        r == (status == STATUS_PARTIAL_CONTENT),
{
    status == STATUS_PARTIAL_CONTENT
}

/// The number of chunks of `chunk_bytes` that cover `total` bytes.
pub open spec fn chunk_count_of(total: nat, chunk_bytes: nat) -> nat
    recommends
        chunk_bytes > 0,
{
    if total == 0 {
        0
    } else {
        ((total - 1) as nat / chunk_bytes + 1) as nat
    }
}

/// Chunk `k` belongs to worker `worker` of `active`.
pub open spec fn assigned(k: int, active: int, worker: int) -> bool {
    k % active == worker
}

/// How a resource is split among fetchers, fixed at initialization.
#[derive(Clone, Copy, Debug, PartialEq, Eq, Structural)]
pub struct DownloadPlan {
    /// The resource's length, where the server gave it.
    pub total_bytes: Option<usize>,
    /// Whether range requests are used.
    pub use_ranges: bool,
    /// The number of fetchers that take part.
    pub active_worker_count: usize,
    /// The nominal length of one chunk.
    pub chunk_bytes: usize,
    /// The number of chunks.
    pub chunk_count: usize,
}

impl DownloadPlan {
    /// The plan's internal consistency.
    pub open spec fn wf(&self) -> bool {
        &&& self.chunk_bytes > 0
        &&& self.active_worker_count > 0
        &&& (self.use_ranges ==> self.total_bytes is Some)
        &&& (!self.use_ranges ==> self.active_worker_count == 1 && self.chunk_count == 1)
        &&& (self.use_ranges ==> self.chunk_count == chunk_count_of(
            self.total_bytes->0 as nat,
            self.chunk_bytes as nat,
        ))
        &&& (self.total_bytes matches Some(n) ==> n > 0)
    }

    /// Start of chunk `k`.
    pub open spec fn chunk_start(&self, k: nat) -> nat {
        if self.use_ranges {
            (k * self.chunk_bytes) as nat
        } else {
            0
        }
    }

    /// End (exclusive) of chunk `k`, where the length is known.
    pub open spec fn chunk_end(&self, k: nat) -> nat {
        let n = self.total_bytes->0 as nat;
        if !self.use_ranges {
            n
        } else if (k + 1) * self.chunk_bytes <= n {
            ((k + 1) * self.chunk_bytes) as nat
        } else {
            n
        }
    }

    /// Fixes the plan. Ranges are used only where asked for and the length is
    /// known; then every worker takes part, else one.
    pub fn new(
        total_bytes: Option<usize>,
        use_ranges: bool,
        worker_count: usize,
        chunk_bytes: usize,
    ) -> (r: DownloadPlan)
        requires
            chunk_bytes > 0,
            worker_count > 0,
            total_bytes != Some(0usize),
        ensures
            r.wf(),
            r.total_bytes == total_bytes,
            r.chunk_bytes == chunk_bytes,
            r.use_ranges == (use_ranges && total_bytes is Some),
            r.active_worker_count == if r.use_ranges {
                worker_count
            } else {
                1
            },
    {
        match total_bytes {
            Some(n) => {
                if use_ranges {
                    let count = (n - 1) / chunk_bytes + 1;
                    DownloadPlan {
                        total_bytes,
                        use_ranges: true,
                        active_worker_count: worker_count,
                        chunk_bytes,
                        chunk_count: count,
                    }
                } else {
                    DownloadPlan {
                        total_bytes,
                        use_ranges: false,
                        active_worker_count: 1,
                        chunk_bytes,
                        chunk_count: 1,
                    }
                }
            },
            None => DownloadPlan {
                total_bytes,
                use_ranges: false,
                active_worker_count: 1,
                chunk_bytes,
                chunk_count: 1,
            },
        }
    }

    /// Whether worker `worker` fetches chunk `k`.
    pub fn is_assigned(&self, k: usize, worker: usize) -> (r: bool)
        requires
            self.wf(),
        ensures
            r == (k % self.active_worker_count == worker),
    {
        k % self.active_worker_count == worker
    }

    /// Whether worker `worker` takes part at all; one that does not exits
    /// without a request.
    pub fn is_active_worker(&self, worker: usize) -> (r: bool)
        ensures
            r == (worker < self.active_worker_count),
    {
        worker < self.active_worker_count
    }

    /// The first chunk at or after `from` that worker `worker` fetches.
    pub fn next_assigned(&self, worker: usize, from: usize) -> (r: Option<usize>)
        requires
            self.wf(),
        ensures
            r matches Some(k) ==> from <= k < self.chunk_count && k % self.active_worker_count
                == worker,
            r matches Some(k) ==> forall|j: int|
                from <= j < k ==> !#[trigger] assigned(j, self.active_worker_count as int, worker as int),
            r is None ==> forall|j: int|
                from <= j < self.chunk_count ==> !#[trigger] assigned(j, self.active_worker_count as int, worker as int),
    {
        let mut k = from;
        while k < self.chunk_count
            invariant
                self.wf(),
                from <= k,
                forall|j: int| from <= j < k ==> !#[trigger] assigned(j, self.active_worker_count as int, worker as int),
            decreases self.chunk_count - k,
        {
            if k % self.active_worker_count == worker {
                return Some(k);
            }
            k = k + 1;
        }
        None
    }

    /// Whether one connection is kept across chunks: only a lone fetcher
    /// does so, asking for everything from its chunk to the end.
    pub fn reuses_connection(&self) -> (r: bool)
        ensures
            r == (self.active_worker_count == 1),
    {
        self.active_worker_count == 1
    }

    /// The bytes to ask the server for when fetching chunk `k` on a new
    /// connection: the chunk itself, or, for a lone fetcher with ranges, from
    /// the chunk's start to the end of the resource.
    pub fn request_range(&self, k: usize) -> (r: std::ops::Range<usize>)
        requires
            self.wf(),
            self.total_bytes is Some,
            k < self.chunk_count,
        ensures
            r.start == self.chunk_start(k as nat),
            r.end == if self.use_ranges && self.active_worker_count == 1 {
                self.total_bytes->0 as nat
            } else {
                self.chunk_end(k as nat)
            },
            r.start < r.end <= self.total_bytes->0,
    {
        let c = self.chunk_range(k);
        if self.use_ranges && self.active_worker_count == 1 {
            let n = match self.total_bytes {
                Some(n) => n,
                None => 0,
            };
            c.start..n
        } else {
            c
        }
    }

    /// The byte range `[start, end)` of chunk `k`, for a resource of known length.
    pub fn chunk_range(&self, k: usize) -> (r: std::ops::Range<usize>)
        requires
            self.wf(),
            self.total_bytes is Some,
            k < self.chunk_count,
        ensures
            r.start == self.chunk_start(k as nat),
            r.end == self.chunk_end(k as nat),
            r.start < r.end <= self.total_bytes->0,
    {
        let n = match self.total_bytes {
            Some(n) => n,
            None => 0,
        };
        if !self.use_ranges {
            return 0..n;
        }
        let c = self.chunk_bytes;
        proof {
            let cnt = self.chunk_count as int;
            assert(cnt == (n - 1) / (c as int) + 1);
            assert((k as int) * (c as int) <= (cnt - 1) * (c as int)) by (nonlinear_arith)
                requires
                    k < cnt,
                    c > 0,
            ;
            assert(((n - 1) / (c as int)) * (c as int) <= n - 1) by (nonlinear_arith)
                requires
                    n >= 1,
                    c > 0,
            ;
        }
        let start = k * c;
        let end = if c <= n - start {
            start + c
        } else {
            n
        };
        proof {
            assert((k as int + 1) * (c as int) == k * c + c) by (nonlinear_arith);
        }
        start..end
    }
}

/// The value of a `Range` header that asks for bytes `start..end`.
pub open spec fn range_header_text(start: nat, end: nat) -> Seq<char> {
    "bytes="@ + decimal(start) + "-"@ + decimal((end - 1) as nat)
}

/// The `Range` header value for bytes `start..end` (`bytes=start-(end-1)`).
pub fn range_header(start: usize, end: usize) -> (r: String)
    requires
        start < end,
    ensures
        r@ == range_header_text(start as nat, end as nat),
{
    let mut s = String::from_str("bytes=");
    push_decimal(&mut s, start as u128);
    s.append("-");
    push_decimal(&mut s, (end - 1) as u128);
    s
}

/// Checks the answer to a ranged GET of bytes `start..end`.
pub open spec fn range_response_verdict(
    start: nat,
    end: nat,
    status: u16,
    content_length: Option<usize>,
) -> Result<(), PipeError> {
    if status == STATUS_OK && start != 0 {
        Err(PipeError::PartialContentUnsupported)
    } else if status != STATUS_PARTIAL_CONTENT && !(status == STATUS_OK && start == 0) {
        Err(PipeError::UnexpectedStatus)
    } else {
        match content_length {
            None => Err(PipeError::ContentLengthMissing),
            Some(n) => if n == end - start {
                Ok(())
            } else {
                Err(PipeError::ContentLengthMismatch)
            },
        }
    }
}

/// Validates the status and `Content-Length` of the answer to a ranged GET of
/// bytes `range`.
pub fn check_range_response(
    range: &std::ops::Range<usize>,
    status: u16,
    content_length: Option<usize>,
) -> (r: Result<(), PipeError>)
    requires
        range.start < range.end,
    ensures
        r == range_response_verdict(range.start as nat, range.end as nat, status, content_length),
{
    if status == STATUS_OK && range.start != 0 {
        Err(PipeError::PartialContentUnsupported)
    } else if status != STATUS_PARTIAL_CONTENT && !(status == STATUS_OK && range.start == 0) {
        Err(PipeError::UnexpectedStatus)
    } else {
        match content_length {
            None => Err(PipeError::ContentLengthMissing),
            Some(n) => if n == range.end - range.start {
                Ok(())
            } else {
                Err(PipeError::ContentLengthMismatch)
            },
        }
    }
}

/// Checks the status of the answer to a GET without a `Range` header, for a
/// resource of unknown length.
pub fn check_whole_response(status: u16) -> (r: Result<(), PipeError>)
    ensures
        r == if status == STATUS_OK {
            Ok::<(), PipeError>(())
        } else {
            Err::<(), PipeError>(PipeError::UnexpectedStatus)
        },
{
    if status == STATUS_OK {
        Ok(())
    } else {
        Err(PipeError::UnexpectedStatus)
    }
}

/// What a fetcher does before an attempt at a chunk.
#[derive(Clone, Copy, Debug, PartialEq, Eq, Structural)]
pub enum AttemptStep {
    /// Give up: a stop was requested.
    Stop,
    /// Sleep one retry interval and look again.
    Wait,
    /// Issue the request.
    Go,
}

/// What a fetcher does after an attempt failed.
#[derive(Clone, Copy, Debug, PartialEq, Eq, Structural)]
pub enum FailureStep {
    /// Give up: a stop was requested.
    Stop,
    /// Give up with this error.
    Fail(PipeError),
    /// Sleep one retry interval and try again on a fresh connection.
    Retry,
}

/// The decision before each attempt: a stop ends the worker, a pause waits.
pub fn before_attempt(stop_requested: bool, paused: bool) -> (r: AttemptStep)
    ensures
        stop_requested ==> r == AttemptStep::Stop,
        !stop_requested && paused ==> r == AttemptStep::Wait,
        !stop_requested && !paused ==> r == AttemptStep::Go,
{
    if stop_requested {
        AttemptStep::Stop
    } else if paused {
        AttemptStep::Wait
    } else {
        AttemptStep::Go
    }
}

/// The decision after a failed attempt: retries only with range requests and
/// only for transient errors.
pub fn after_failed_attempt(error: PipeError, stop_requested: bool, use_ranges: bool) -> (r:
    FailureStep)
    ensures
        stop_requested ==> r == FailureStep::Stop,
        !stop_requested && use_ranges && is_transient(error) ==> r == FailureStep::Retry,
        !stop_requested && !(use_ranges && is_transient(error)) ==> r == FailureStep::Fail(error),
{
    if stop_requested {
        FailureStep::Stop
    } else if use_ranges && error.is_retryable() {
        FailureStep::Retry
    } else {
        FailureStep::Fail(error)
    }
}

/// Whether a fetcher limited to `max_speed` bytes per second, having received
/// `received` bytes in `elapsed_us` microseconds, must sleep before reading on:
/// true exactly while it is ahead of the ideal time for those bytes.
pub fn throttle_wait(received: usize, max_speed: usize, elapsed_us: u64) -> (r: bool)
    requires
        max_speed > 0,
    ensures
        r == (received * 1_000_000 > elapsed_us * max_speed),
{
    let e = elapsed_us as u128;
    let m = max_speed as u128;
    proof {
        assert(e * m <= 0xffff_ffff_ffff_ffffu128 * 0xffff_ffff_ffff_ffffu128) by (nonlinear_arith)
            requires
                e <= 0xffff_ffff_ffff_ffffu128,
                m <= 0xffff_ffff_ffff_ffffu128,
        ;
    }
    (received as u128) * 1_000_000 > e * m
}

} // verus!
