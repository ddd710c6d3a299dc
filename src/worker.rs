use vstd::arithmetic::div_mod::lemma_small_mod;
use vstd::prelude::*;

use crate::error::{is_transient, PipeError};
use crate::plan::{after_failed_attempt, assigned, before_attempt, AttemptStep, DownloadPlan, FailureStep};

verus! {

/// The chunks below `hi` that worker `worker` of `active` fetches, in order.
pub open spec fn assigned_below(active: int, worker: int, hi: nat) -> Seq<usize>
    decreases hi,
{
    if hi == 0 {
        Seq::empty()
    } else if assigned(hi - 1, active, worker) {
        assigned_below(active, worker, (hi - 1) as nat).push((hi - 1) as usize)
    } else {
        assigned_below(active, worker, (hi - 1) as nat)
    }
}

proof fn lemma_assigned_below_gap(active: int, worker: int, lo: nat, hi: nat)
    requires
        lo <= hi,
        forall|j: int| lo <= j < hi ==> !#[trigger] assigned(j, active, worker),
    ensures
        assigned_below(active, worker, hi) == assigned_below(active, worker, lo),
    decreases hi,
{
    if hi > lo {
        assert(!assigned(hi - 1, active, worker));
        lemma_assigned_below_gap(active, worker, lo, (hi - 1) as nat);
    }
}

/// Where a fetcher stands.
#[derive(Clone, Copy, Debug, PartialEq, Eq, Structural)]
pub enum WorkerPhase {
    /// Waiting for the window to admit the current chunk.
    Gate,
    /// Admitted; about to attempt the current chunk.
    Ready,
    /// An attempt at the current chunk is under way.
    Fetching,
    /// Nothing more to do.
    Done,
}

/// What a fetcher does next.
#[derive(Clone, Copy, Debug, PartialEq, Eq, Structural)]
pub enum WorkerAction {
    /// A stop was requested.
    Stop,
    /// Give up with this error.
    Fail(PipeError),
    /// Sleep briefly and observe the window again.
    WaitWindow,
    /// Sleep one retry interval and observe again.
    WaitRetry,
    /// Open the in-flight record of this chunk.
    Begin(usize),
    /// Attempt this chunk.
    Fetch(usize),
    /// Enqueue this chunk, fetched whole; then observe again.
    Deliver(usize),
}

/// The decisions of one fetcher, one event at a time.
pub struct FetchWorker {
    worker: usize,
    current: Option<usize>,
    phase: WorkerPhase,
    delivered: Ghost<Seq<usize>>,
}

impl FetchWorker {
    /// The fetcher's index.
    pub closed spec fn worker(&self) -> usize {
        self.worker
    }

    /// The chunk being worked on.
    pub closed spec fn current(&self) -> Option<usize> {
        self.current
    }

    /// The phase.
    pub closed spec fn phase(&self) -> WorkerPhase {
        self.phase
    }

    /// The chunks delivered so far, in order.
    pub closed spec fn delivered(&self) -> Seq<usize> {
        self.delivered@
    }

    /// The fetcher's consistency against `plan`: it has delivered exactly its
    /// chunks below the current one, or all of them once none is left, and
    /// the current one is its.
    pub closed spec fn wf(&self, plan: &DownloadPlan) -> bool {
        &&& plan.wf()
        &&& match self.current {
            Some(k) => {
                &&& k < plan.chunk_count
                &&& assigned(k as int, plan.active_worker_count as int, self.worker as int)
                &&& self.delivered@ == assigned_below(
                    plan.active_worker_count as int,
                    self.worker as int,
                    k as nat,
                )
            },
            None => {
                &&& self.phase == WorkerPhase::Done
                &&& self.delivered@ == assigned_below(
                    plan.active_worker_count as int,
                    self.worker as int,
                    plan.chunk_count as nat,
                )
            },
        }
    }

    /// Whether the fetcher ended because nothing was left.
    pub closed spec fn finished_all(&self) -> bool {
        self.current is None
    }

    /// A fetcher about to gate its first chunk; one that takes no part in
    /// the plan, or has no chunk, is done at once.
    pub fn new(plan: &DownloadPlan, worker: usize) -> (r: FetchWorker)
        requires
            plan.wf(),
        ensures
            r.wf(plan),
            r.worker() == worker,
            r.delivered() == Seq::<usize>::empty(),
            r.phase() == WorkerPhase::Gate || r.phase() == WorkerPhase::Done,
            !(worker < plan.active_worker_count) ==> r.phase() == WorkerPhase::Done
                && r.current() is None,
            worker < plan.active_worker_count && worker < plan.chunk_count ==> r.phase()
                == WorkerPhase::Gate && r.current() == Some(worker),
    {
        let current = if plan.is_active_worker(worker) {
            plan.next_assigned(worker, 0)
        } else {
            None
        };
        let phase = match current {
            Some(_) => WorkerPhase::Gate,
            None => WorkerPhase::Done,
        };
        let r = FetchWorker { worker, current, phase, delivered: Ghost(Seq::empty()) };
        proof {
            let a = plan.active_worker_count as int;
            if worker < plan.active_worker_count && worker < plan.chunk_count {
                lemma_small_mod(worker as nat, a as nat);
                assert(assigned(worker as int, a, worker as int));
                assert forall|j: int| 0 <= j < worker implies !#[trigger] assigned(
                    j,
                    a,
                    worker as int,
                ) by {
                    lemma_small_mod(j as nat, a as nat);
                }
                match current {
                    Some(k) => {
                        if k > worker {
                            assert(!assigned(worker as int, a, worker as int));
                        }
                        lemma_small_mod(k as nat, a as nat);
                    },
                    None => {
                        assert(!assigned(worker as int, a, worker as int));
                    },
                }
            }
            match current {
                Some(k) => {
                    lemma_assigned_below_gap(a, worker as int, 0, k as nat);
                },
                None => {
                    if worker < plan.active_worker_count {
                        lemma_assigned_below_gap(a, worker as int, 0, plan.chunk_count as nat);
                    } else {
                        assert forall|j: int| 0 <= j < plan.chunk_count implies !#[trigger] assigned(
                            j,
                            a,
                            worker as int,
                        ) by {}
                        lemma_assigned_below_gap(a, worker as int, 0, plan.chunk_count as nat);
                    }
                },
            }
        }
        r
    }

    /// The chunk being worked on.
    pub fn current_chunk(&self) -> (r: Option<usize>)
        ensures
            r == self.current(),
    {
        self.current
    }

    /// The current phase.
    pub fn get_phase(&self) -> (r: WorkerPhase)
        ensures
            r == self.phase(),
    {
        self.phase
    }

    /// Takes in the shared flags and whether the window admits the current
    /// chunk, observed together; valid while gating or ready.
    pub fn observe(&mut self, plan: &DownloadPlan, stop: bool, paused: bool, window_open: bool) -> (r:
        WorkerAction)
        requires
            old(self).wf(plan),
            old(self).phase() == WorkerPhase::Gate || old(self).phase() == WorkerPhase::Ready,
        ensures
            final(self).wf(plan),
            final(self).worker() == old(self).worker(),
            final(self).current() == old(self).current(),
            final(self).delivered() == old(self).delivered(),
            stop ==> r == WorkerAction::Stop && final(self).phase() == WorkerPhase::Done,
            !stop && old(self).phase() == WorkerPhase::Gate && !window_open ==> r
                == WorkerAction::WaitWindow && final(self).phase() == WorkerPhase::Gate,
            !stop && old(self).phase() == WorkerPhase::Gate && window_open ==> r
                == WorkerAction::Begin(old(self).current()->0) && final(self).phase()
                == WorkerPhase::Ready,
            !stop && old(self).phase() == WorkerPhase::Ready && paused ==> r
                == WorkerAction::WaitRetry && final(self).phase() == WorkerPhase::Ready,
            !stop && old(self).phase() == WorkerPhase::Ready && !paused ==> r
                == WorkerAction::Fetch(old(self).current()->0) && final(self).phase()
                == WorkerPhase::Fetching,
    {
        let k = match self.current {
            Some(k) => k,
            None => 0,
        };
        if stop {
            self.phase = WorkerPhase::Done;
            return WorkerAction::Stop;
        }
        match self.phase {
            WorkerPhase::Gate => {
                if window_open {
                    self.phase = WorkerPhase::Ready;
                    WorkerAction::Begin(k)
                } else {
                    WorkerAction::WaitWindow
                }
            },
            _ => match before_attempt(stop, paused) {
                AttemptStep::Go => {
                    self.phase = WorkerPhase::Fetching;
                    WorkerAction::Fetch(k)
                },
                _ => WorkerAction::WaitRetry,
            },
        }
    }

    /// Takes in how the attempt at the current chunk ended, and whether a
    /// stop was requested by then. A success delivers the chunk and moves on
    /// to the next assigned one; a failure retries only where allowed.
    pub fn attempt_ended(&mut self, plan: &DownloadPlan, outcome: Result<(), PipeError>, stop: bool) -> (r:
        WorkerAction)
        requires
            old(self).wf(plan),
            old(self).phase() == WorkerPhase::Fetching,
        ensures
            final(self).wf(plan),
            final(self).worker() == old(self).worker(),
            outcome is Ok ==> r == WorkerAction::Deliver(old(self).current()->0)
                && final(self).delivered() == old(self).delivered().push(old(self).current()->0),
            outcome is Ok && final(self).current() is Some ==> final(self).current()->0 > old(
                self,
            ).current()->0 && final(self).phase() == WorkerPhase::Gate,
            outcome is Ok && final(self).current() is None ==> final(self).phase()
                == WorkerPhase::Done && final(self).delivered() == assigned_below(
                plan.active_worker_count as int,
                final(self).worker() as int,
                plan.chunk_count as nat,
            ),
            outcome matches Err(e) ==> final(self).delivered() == old(self).delivered() && match
                after_failed_outcome(e, stop, plan.use_ranges) {
                FailureStep::Stop => r == WorkerAction::Stop && final(self).phase()
                    == WorkerPhase::Done,
                FailureStep::Fail(f) => r == WorkerAction::Fail(f) && final(self).phase()
                    == WorkerPhase::Done,
                FailureStep::Retry => r == WorkerAction::WaitRetry && final(self).phase()
                    == WorkerPhase::Ready && final(self).current() == old(self).current(),
            },
    {
        let k = match self.current {
            Some(k) => k,
            None => 0,
        };
        match outcome {
            Ok(()) => {
                let next = plan.next_assigned(self.worker, k + 1);
                proof {
                    let a = plan.active_worker_count as int;
                    let w = self.worker as int;
                    let hi = match next {
                        Some(n) => n as nat,
                        None => plan.chunk_count as nat,
                    };
                    lemma_assigned_below_gap(a, w, (k + 1) as nat, hi);
                    assert(assigned_below(a, w, (k + 1) as nat) == assigned_below(a, w, k as nat).push(
                        k,
                    ));
                }
                self.delivered = Ghost(self.delivered@.push(k));
                self.current = next;
                self.phase = match next {
                    Some(_) => WorkerPhase::Gate,
                    None => WorkerPhase::Done,
                };
                WorkerAction::Deliver(k)
            },
            Err(e) => match after_failed_attempt(e, stop, plan.use_ranges) {
                FailureStep::Stop => {
                    self.phase = WorkerPhase::Done;
                    WorkerAction::Stop
                },
                FailureStep::Fail(f) => {
                    self.phase = WorkerPhase::Done;
                    WorkerAction::Fail(f)
                },
                FailureStep::Retry => {
                    self.phase = WorkerPhase::Ready;
                    WorkerAction::WaitRetry
                },
            },
        }
    }
}

/// The decision after a failed attempt, as `after_failed_attempt` takes it.
pub open spec fn after_failed_outcome(error: PipeError, stop: bool, use_ranges: bool) -> FailureStep {
    if stop {
        FailureStep::Stop
    } else if use_ranges && is_transient(error) {
        FailureStep::Retry
    } else {
        FailureStep::Fail(error)
    }
}

/// A fetcher that finished without a stop or an error delivered each of its
/// chunks once, in increasing order, and no other chunk.
pub proof fn lemma_worker_delivers_its_chunks(w: &FetchWorker, plan: &DownloadPlan)
    requires
        w.wf(plan),
        w.finished_all(),
    ensures
        w.delivered() == assigned_below(
            plan.active_worker_count as int,
            w.worker() as int,
            plan.chunk_count as nat,
        ),
{
}

} // verus!
