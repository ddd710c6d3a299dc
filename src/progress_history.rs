use vstd::prelude::*;

verus! {

/// The most buckets that a sampler may be configured to keep.
pub const MAX_HISTORY_ENTRIES: usize = 1024;

/// One bucket of a throughput sampler: bytes counted since `time_ms`.
#[derive(Clone, Copy, Debug, PartialEq, Eq, Structural)]
pub struct ProgressHistoryEntry {
    /// When the bucket was opened, in milliseconds.
    pub time_ms: u64,
    /// Bytes counted in the bucket.
    pub bytes: usize,
}

/// Whether bucket `e` lies outside the window of `keep_ms` before `now`.
pub open spec fn is_stale(e: ProgressHistoryEntry, now: int, keep_ms: int) -> bool {
    now - e.time_ms > keep_ms
}

/// Bytes of the newest buckets, up to the first stale one.
pub open spec fn window_bytes(s: Seq<ProgressHistoryEntry>, now: int, keep_ms: int) -> int
    decreases s.len(),
{
    if s.len() == 0 || is_stale(s.last(), now, keep_ms) {
        0
    } else {
        s.last().bytes + window_bytes(s.drop_last(), now, keep_ms)
    }
}

/// Opening time of the oldest bucket counted by `window_bytes`.
pub open spec fn window_oldest(s: Seq<ProgressHistoryEntry>, now: int, keep_ms: int) -> Option<
    int,
>
    decreases s.len(),
{
    if s.len() == 0 || is_stale(s.last(), now, keep_ms) {
        None
    } else {
        match window_oldest(s.drop_last(), now, keep_ms) {
            Some(t) => Some(t),
            None => Some(s.last().time_ms as int),
        }
    }
}

/// Bytes per second for `bytes` counted over `elapsed_ms`, rounded to the
/// nearest integer, 0 where no time passed, at most `usize::MAX`.
pub open spec fn speed_of(bytes: int, elapsed_ms: int) -> int {
    if elapsed_ms <= 0 {
        0
    } else {
        let v = (2000 * bytes + elapsed_ms) / (2 * elapsed_ms);
        if v > usize::MAX {
            usize::MAX as int
        } else {
            v
        }
    }
}

/// The short-window speed: bytes in the window over the time since its oldest
/// bucket, or over the whole window where it is empty.
pub open spec fn window_speed(s: Seq<ProgressHistoryEntry>, now: int, keep_ms: int) -> int {
    let elapsed = match window_oldest(s, now, keep_ms) {
        Some(t) => now - t,
        None => keep_ms,
    };
    speed_of(window_bytes(s, now, keep_ms), elapsed)
}

/// Drops stale buckets from the front.
pub open spec fn drop_stale(s: Seq<ProgressHistoryEntry>, now: int, keep_ms: int) -> Seq<
    ProgressHistoryEntry,
>
    decreases s.len(),
{
    if s.len() > 0 && is_stale(s[0], now, keep_ms) {
        drop_stale(s.drop_first(), now, keep_ms)
    } else {
        s
    }
}

/// Keeps the newest `max` buckets.
pub open spec fn keep_newest(s: Seq<ProgressHistoryEntry>, max: nat) -> Seq<ProgressHistoryEntry> {
    if s.len() > max {
        s.subrange(s.len() - max, s.len() as int)
    } else {
        s
    }
}

/// `a + b`, or `usize::MAX` where that does not fit.
pub open spec fn sat_add(a: int, b: int) -> int {
    if a + b > usize::MAX {
        usize::MAX as int
    } else {
        a + b
    }
}

/// The buckets after `bytes` are counted at `now`: they go to the newest
/// bucket while it is younger than `keep_ms / max`, else to a new bucket,
/// after which the oldest beyond `max` and the stale ones are dropped.
pub open spec fn after_add(
    s: Seq<ProgressHistoryEntry>,
    now: int,
    bytes: int,
    max: nat,
    keep_ms: int,
) -> Seq<ProgressHistoryEntry> {
    if s.len() > 0 && now - s.last().time_ms < keep_ms / (max as int) {
        s.update(
            s.len() - 1,
            ProgressHistoryEntry {
                time_ms: s.last().time_ms,
                bytes: sat_add(s.last().bytes as int, bytes) as usize,
            },
        )
    } else {
        drop_stale(
            keep_newest(s.push(ProgressHistoryEntry { time_ms: now as u64, bytes: bytes as usize }), max),
            now,
            keep_ms,
        )
    }
}

/// A rolling throughput sampler over a short window.
#[derive(Clone, Debug)]
pub struct ProgressHistory {
    progress_entries: Vec<ProgressHistoryEntry>,
    max_entries: usize,
    keep_time_ms: u64,
}

impl Default for ProgressHistory {
    /// A sampler of 10 buckets over one second.
    fn default() -> (r: Self)
        ensures
            r.wf(),
            r.entries().len() == 0,
            r.max_entries() == 10,
            r.keep_ms() == 1_000,
    {
        Self::with_window(10, 1_000)
    }
}

impl ProgressHistory {
    /// The buckets, oldest first.
    pub closed spec fn entries(&self) -> Seq<ProgressHistoryEntry> {
        self.progress_entries@
    }

    /// The most buckets kept.
    pub closed spec fn max_entries(&self) -> nat {
        self.max_entries as nat
    }

    /// The window's length in milliseconds.
    pub closed spec fn keep_ms(&self) -> int {
        self.keep_time_ms as int
    }

    /// The sampler's internal consistency.
    pub open spec fn wf(&self) -> bool {
        &&& 0 < self.max_entries() <= MAX_HISTORY_ENTRIES
        &&& self.entries().len() <= self.max_entries()
    }

    /// A sampler with the given bucket count and window.
    pub fn with_window(max_entries: usize, keep_time_ms: u64) -> (r: ProgressHistory)
        requires
            0 < max_entries <= MAX_HISTORY_ENTRIES,
        ensures
            r.wf(),
            r.entries().len() == 0,
            r.max_entries() == max_entries,
            r.keep_ms() == keep_time_ms,
    {
        ProgressHistory { progress_entries: Vec::new(), max_entries, keep_time_ms }
    }

    /// The sampler used for progress: 50 buckets over 10 seconds.
    pub fn new() -> (r: ProgressHistory)
        ensures
            r.wf(),
            r.entries().len() == 0,
            r.max_entries() == 50,
            r.keep_ms() == 10_000,
    {
        Self::with_window(50, 10_000)
    }

    /// Counts `bytes` at `now_ms`.
    pub fn add_bytes(&mut self, now_ms: u64, bytes: usize)
        requires
            old(self).wf(),
        ensures
            final(self).wf(),
            final(self).max_entries() == old(self).max_entries(),
            final(self).keep_ms() == old(self).keep_ms(),
            final(self).entries() == after_add(
                old(self).entries(),
                now_ms as int,
                bytes as int,
                old(self).max_entries(),
                old(self).keep_ms(),
            ),
    {
        let n = self.progress_entries.len();
        if n > 0 {
            let last = self.progress_entries[n - 1];
            let step = self.keep_time_ms / (self.max_entries as u64);
            if now_ms < last.time_ms || now_ms - last.time_ms < step {
                let b = if bytes <= usize::MAX - last.bytes {
                    last.bytes + bytes
                } else {
                    usize::MAX
                };
                self.progress_entries[n - 1] = ProgressHistoryEntry { time_ms: last.time_ms, bytes: b };
                return;
            }
        }
        self.progress_entries.push(ProgressHistoryEntry { time_ms: now_ms, bytes });
        let ghost pushed = self.progress_entries@;
        if self.progress_entries.len() > self.max_entries {
            self.progress_entries.remove(0);
        }
        let ghost capped = self.progress_entries@;
        assert(capped =~= keep_newest(pushed, self.max_entries as nat));
        let ghost now = now_ms as int;
        let ghost keep = self.keep_time_ms as int;
        while self.progress_entries.len() > 0 && now_ms >= self.progress_entries[0].time_ms
            && now_ms - self.progress_entries[0].time_ms > self.keep_time_ms
            invariant
                self.max_entries == old(self).max_entries,
                self.keep_time_ms == old(self).keep_time_ms,
                keep == self.keep_time_ms as int,
                now == now_ms as int,
                drop_stale(self.progress_entries@, now, keep) == drop_stale(capped, now, keep),
                self.progress_entries@.len() <= capped.len(),
                capped.len() <= self.max_entries,
            decreases self.progress_entries@.len(),
        {
            let ghost before = self.progress_entries@;
            self.progress_entries.remove(0);
            assert(self.progress_entries@ =~= before.drop_first());
        }
    }

    /// The short-window speed at `now_ms`, in bytes per second.
    pub fn get_speed(&self, now_ms: u64) -> (r: usize)
        requires
            self.wf(),
        ensures
            r == window_speed(self.entries(), now_ms as int, self.keep_ms()),
    {
        let s = Ghost(self.progress_entries@);
        let now = Ghost(now_ms as int);
        let keep = Ghost(self.keep_time_ms as int);
        let n = self.progress_entries.len();
        let mut i: usize = n;
        let mut total: u128 = 0;
        let mut oldest: Option<u64> = None;
        assert(s@.subrange(0, n as int) =~= s@);
        assert(s@.subrange(0, 0) =~= Seq::<ProgressHistoryEntry>::empty());
        while i > 0
            invariant
                s@ == self.progress_entries@,
                now@ == now_ms as int,
                keep@ == self.keep_time_ms as int,
                n == s@.len(),
                n <= MAX_HISTORY_ENTRIES,
                i <= n,
                s@.subrange(0, 0) == Seq::<ProgressHistoryEntry>::empty(),
                total <= (n - i) * 0xffff_ffff_ffff_ffffu128,
                window_bytes(s@, now@, keep@) == total + window_bytes(
                    s@.subrange(0, i as int),
                    now@,
                    keep@,
                ),
                window_oldest(s@, now@, keep@) == match window_oldest(
                    s@.subrange(0, i as int),
                    now@,
                    keep@,
                ) {
                    Some(t) => Some(t),
                    None => match oldest {
                        Some(t) => Some(t as int),
                        None => None,
                    },
                },
            ensures
                total <= n * 0xffff_ffff_ffff_ffffu128,
                window_bytes(s@, now@, keep@) == total,
                window_oldest(s@, now@, keep@) == match oldest {
                    Some(t) => Some(t as int),
                    None => None::<int>,
                },
            decreases i,
        {
            let e = self.progress_entries[i - 1];
            let ghost pre = s@.subrange(0, i as int);
            assert(pre.drop_last() =~= s@.subrange(0, i - 1));
            assert(pre.last() == e);
            if now_ms >= e.time_ms && now_ms - e.time_ms > self.keep_time_ms {
                assert(window_bytes(pre, now@, keep@) == 0);
                assert(window_oldest(pre, now@, keep@) is None);
                break;
            }
            total = total + e.bytes as u128;
            oldest = Some(e.time_ms);
            i = i - 1;
        }
        let elapsed: u64 = match oldest {
            Some(t) => if t >= now_ms {
                0
            } else {
                now_ms - t
            },
            None => self.keep_time_ms,
        };
        if elapsed == 0 {
            return 0;
        }
        let v = (2000 * total + elapsed as u128) / (2 * elapsed as u128);
        if v > usize::MAX as u128 {
            usize::MAX
        } else {
            v as usize
        }
    }
}

} // verus!
