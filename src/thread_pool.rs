//! Job accounting of a worker pool.

use vstd::prelude::*;

verus! {

/// Jobs that were submitted to a pool and have not finished yet (queued or
/// running), with the totals of jobs submitted and finished.
pub struct JobCount {
    count: usize,
    submitted: Ghost<nat>,
    finished: Ghost<nat>,
}

impl JobCount {
    #[verifier::type_invariant]
    spec fn balanced(&self) -> bool {
        &&& self.finished@ <= self.submitted@
        &&& self.count == self.submitted@ - self.finished@
    }

    /// Number of jobs submitted so far.
    pub closed spec fn submitted(&self) -> nat {
        self.submitted@
    }

    /// Number of jobs finished so far.
    pub closed spec fn finished(&self) -> nat {
        self.finished@
    }

    /// Number of jobs in flight.
    pub open spec fn pending(&self) -> int {
        self.submitted() - self.finished()
    }

    /// A counter with no job submitted.
    pub fn new() -> (r: JobCount)
        ensures
            r.submitted() == 0,
            r.finished() == 0,
            r.finished() <= r.submitted(),
    {
        JobCount { count: 0, submitted: Ghost(0), finished: Ghost(0) }
    }

    /// Records that a job was submitted.
    pub fn start_job(&mut self)
        requires
            old(self).pending() < usize::MAX,
        ensures
            old(self).finished() <= old(self).submitted(),
            final(self).submitted() == old(self).submitted() + 1,
            final(self).finished() == old(self).finished(),
            final(self).finished() <= final(self).submitted(),
    {
        proof {
            use_type_invariant(&*self);
        }
        *self = JobCount {
            count: self.count + 1,
            submitted: Ghost(self.submitted@ + 1),
            finished: self.finished,
        };
    }

    /// Records that a submitted job has finished.
    pub fn finish_job(&mut self)
        requires
            old(self).pending() > 0,
        ensures
            old(self).finished() <= old(self).submitted(),
            final(self).submitted() == old(self).submitted(),
            final(self).finished() == old(self).finished() + 1,
            final(self).finished() <= final(self).submitted(),
    {
        proof {
            use_type_invariant(&*self);
        }
        *self = JobCount {
            count: self.count - 1,
            submitted: self.submitted,
            finished: Ghost(self.finished@ + 1),
        };
    }

    /// Whether every submitted job has finished.
    pub fn is_empty(&self) -> (r: bool)
        ensures
            r == (self.finished() == self.submitted()),
            self.finished() <= self.submitted(),
    {
        proof {
            use_type_invariant(self);
        }
        self.count == 0
    }

    /// Number of jobs in flight.
    pub fn in_flight(&self) -> (r: usize)
        ensures
            r == self.pending(),
            self.finished() <= self.submitted(),
    {
        proof {
            use_type_invariant(self);
        }
        self.count
    }
}

/// A counter reports itself empty exactly when every one of the `m` jobs
/// submitted to it has finished, so a wait for emptiness after `m`
/// submissions ends only once all `m` have run.
pub proof fn lemma_empty_means_all_finished(c: JobCount, m: nat)
    requires
        c.submitted() == m,
        c.pending() == 0,
    ensures
        c.finished() == m,
{
}

/// Phase of a pool's life.
#[derive(Debug, Clone, Copy, PartialEq, Eq, Structural)]
pub enum PoolPhase {
    /// Accepting jobs.
    Running,
    /// Teardown has begun: no new jobs, queued jobs still run.
    Draining,
    /// The queue is closed and empty.
    Closed,
    /// Every worker thread has been joined.
    Joined,
}

/// What the owner of a pool does next during teardown.
#[derive(Debug, Clone, Copy, PartialEq, Eq, Structural)]
pub enum TeardownStep {
    /// Block until no job is in flight, then step again.
    WaitForJobs,
    /// Drop the sending end of the job queue, then step again.
    CloseQueue,
    /// Join every worker thread, then step again.
    JoinWorkers,
    /// Nothing is left to do.
    Done,
}

/// The phase that follows `p` during teardown, given whether no job is in
/// flight.
pub open spec fn next_phase(p: PoolPhase, idle: bool) -> PoolPhase {
    match p {
        PoolPhase::Running => PoolPhase::Draining,
        PoolPhase::Draining => if idle {
            PoolPhase::Closed
        } else {
            PoolPhase::Draining
        },
        PoolPhase::Closed => PoolPhase::Joined,
        PoolPhase::Joined => PoolPhase::Joined,
    }
}

/// The step that goes with leaving phase `p`.
pub open spec fn step_of(p: PoolPhase, idle: bool) -> TeardownStep {
    match p {
        PoolPhase::Running => TeardownStep::WaitForJobs,
        PoolPhase::Draining => if idle {
            TeardownStep::CloseQueue
        } else {
            TeardownStep::WaitForJobs
        },
        PoolPhase::Closed => TeardownStep::JoinWorkers,
        PoolPhase::Joined => TeardownStep::Done,
    }
}

impl PoolPhase {
    /// Whether the pool takes new jobs.
    pub fn accepts_jobs(&self) -> (r: bool)
        ensures
            r == (*self == PoolPhase::Running),
    {
        match self {
            PoolPhase::Running => true,
            _ => false,
        }
    }

    /// One step of teardown: drain, then close the queue, then join the
    /// workers.
    pub fn teardown_step(self, idle: bool) -> (r: (PoolPhase, TeardownStep))
        ensures
            r.0 == next_phase(self, idle),
            r.1 == step_of(self, idle),
    {
        match self {
            PoolPhase::Running => (PoolPhase::Draining, TeardownStep::WaitForJobs),
            PoolPhase::Draining => if idle {
                (PoolPhase::Closed, TeardownStep::CloseQueue)
            } else {
                (PoolPhase::Draining, TeardownStep::WaitForJobs)
            },
            PoolPhase::Closed => (PoolPhase::Joined, TeardownStep::JoinWorkers),
            PoolPhase::Joined => (PoolPhase::Joined, TeardownStep::Done),
        }
    }
}

/// The queue is closed only once no job is in flight, and only when
/// leaving the draining phase; after that no job is taken again.
pub proof fn lemma_close_only_when_drained(p: PoolPhase, idle: bool)
    ensures
        step_of(p, idle) == TeardownStep::CloseQueue ==> idle && p == PoolPhase::Draining,
        step_of(p, idle) == TeardownStep::CloseQueue ==> next_phase(p, idle) == PoolPhase::Closed,
        p != PoolPhase::Running ==> next_phase(p, idle) != PoolPhase::Running,
{
}

/// Starting from a running pool whose jobs have all finished, teardown
/// drains, closes the queue, joins the workers, and then does nothing more:
/// each of these happens exactly once.
pub proof fn lemma_teardown_runs_once(later: bool)
    ensures
        step_of(PoolPhase::Running, true) == TeardownStep::WaitForJobs,
        step_of(next_phase(PoolPhase::Running, true), true) == TeardownStep::CloseQueue,
        step_of(PoolPhase::Closed, later) == TeardownStep::JoinWorkers,
        next_phase(PoolPhase::Closed, later) == PoolPhase::Joined,
        step_of(PoolPhase::Joined, later) == TeardownStep::Done,
        next_phase(PoolPhase::Joined, later) == PoolPhase::Joined,
{
}

} // verus!
