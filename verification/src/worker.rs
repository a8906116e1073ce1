//! One worker of the pool: a long-lived consumer identified by an ordinal id.
//!
//! A worker moves through three states. It starts `Waiting` (blocked on a
//! dequeue attempt), becomes `Executing` when a dequeue yields a job, returns
//! to `Waiting` when that job finishes normally, and reaches `Terminated`
//! either when a dequeue observes that the channel is closed or when a job
//! fails catastrophically during execution. `Terminated` is terminal: no
//! further dequeue attempts occur.

use vstd::multiset::Multiset;
use vstd::prelude::*;

verus! {

broadcast use vstd::multiset::group_multiset_axioms;

/// The state of one worker. A worker runs at most one job at a time, so the
/// `Executing` state carries the tag of that single job.
#[derive(Clone, Copy, Debug, PartialEq, Eq, Structural)]
pub enum WorkerState {
    /// Blocked attempting to dequeue the next job.
    Waiting,
    /// Running the job whose tag is carried here.
    Executing(u64),
    /// The worker's loop has exited; no further dequeue attempts occur.
    Terminated,
}

/// One worker: its ordinal id, its current state, the tags of the jobs it has
/// completed (oldest first), the tag of a job whose execution failed
/// catastrophically (if any), and whether its thread handle has been consumed
/// by teardown.
pub struct Worker {
    /// Ordinal id, assigned at construction, used only for identification.
    pub id: usize,
    /// Current state of the worker's loop.
    pub state: WorkerState,
    /// Tags of the jobs this worker ran to completion, oldest first.
    pub executed: Vec<u64>,
    /// The tag of the job whose execution unwound catastrophically, if that
    /// happened; such a failure drives the worker directly to `Terminated`.
    pub failed_job: Option<u64>,
    /// Whether teardown has consumed this worker's thread handle. The handle
    /// is consumed exactly once, and only after the worker terminated.
    pub joined: bool,
}

impl Worker {
    /// Well-formedness of a worker standing at position `i` of the pool:
    /// its id is its position, a consumed handle implies a terminated loop,
    /// and a catastrophic failure implies a terminated loop.
    pub open spec fn wf_at(self, i: int) -> bool {
        &&& self.id == i
        &&& (self.joined ==> self.state is Terminated)
        &&& (self.failed_job is Some ==> self.state is Terminated)
    }

    /// The job this worker currently holds, as a multiset: one tag while
    /// `Executing`, none otherwise.
    pub open spec fn in_flight(self) -> Multiset<u64> {
        match self.state {
            WorkerState::Executing(t) => Multiset::empty().insert(t),
            _ => Multiset::empty(),
        }
    }

    /// The job lost to a catastrophic failure, as a multiset.
    pub open spec fn lost(self) -> Multiset<u64> {
        match self.failed_job {
            Some(t) => Multiset::empty().insert(t),
            None => Multiset::empty(),
        }
    }

    /// Every job this worker has taken off the channel: completed ones,
    /// the one in flight, and the one lost to a failure.
    pub open spec fn consumed(self) -> Multiset<u64> {
        self.executed@.to_multiset().add(self.in_flight()).add(self.lost())
    }

    /// The tag of the job this worker is executing.
    pub open spec fn executing_tag(self) -> u64
        recommends
            self.state is Executing,
    {
        match self.state {
            WorkerState::Executing(t) => t,
            _ => 0,
        }
    }

    /// The worker's loop exited because the channel closed, not because a
    /// job failed.
    pub open spec fn terminated_gracefully(self) -> bool {
        self.state is Terminated && self.failed_job is None
    }

    /// A fresh worker: it enters its wait state immediately upon spawn.
    pub fn new(id: usize) -> (w: Worker)
        ensures
            w.id == id,
            w.state is Waiting,
            w.executed@ == Seq::<u64>::empty(),
            w.failed_job is None,
            !w.joined,
            w.consumed() == Multiset::<u64>::empty(),
    {
        let w = Worker { id, state: WorkerState::Waiting, executed: Vec::new(), failed_job: None, joined: false };
        proof {
            assert(w.executed@.to_multiset() =~= Multiset::<u64>::empty()) by {
                w.executed@.to_multiset_ensures();
            }
            assert(w.consumed() =~= Multiset::<u64>::empty());
        }
        w
    }
}

} // verus!
