//! The pool: a fixed, ordered set of workers, the dispatch channel they
//! share, and the lifecycle of the whole.
//!
//! The lifecycle is a tagged state. While `Active`, the pool holds the
//! producer handle and `execute` enqueues jobs. Teardown begins by dropping
//! that handle, which alone causes every worker's next dequeue attempt to
//! observe closure once the queue drains; it then consumes each worker's
//! thread handle, and completes only after every worker has terminated.
//!
//! The central invariant is conservation: every job ever accepted is either
//! still queued, held in flight by exactly one worker, completed by exactly
//! one worker, or lost to exactly one catastrophic job failure. From it
//! follow the pool's headline guarantees: no job is lost or run twice, and
//! a completed teardown without job failures has run every accepted job.

use vstd::multiset::Multiset;
use vstd::prelude::*;

use crate::channel::DispatchChannel;
use crate::channel::ReceiveOutcome;
use crate::worker::Worker;
use crate::worker::WorkerState;

verus! {

broadcast use vstd::multiset::group_multiset_axioms, vstd::seq_lib::group_to_multiset_ensures;

/// Where the pool stands in its life: accepting jobs, tearing down, or done.
#[derive(Clone, Copy, Debug, PartialEq, Eq, Structural)]
pub enum Lifecycle {
    /// The producer handle is held; `execute` enqueues.
    Active,
    /// The producer handle has been dropped; workers drain the queue and
    /// terminate, and their thread handles are being consumed.
    ShuttingDown,
    /// Every worker has terminated and every thread handle was consumed.
    Stopped,
}

/// The error of the fallible constructor.
#[derive(Clone, Copy, Debug, PartialEq, Eq, Structural)]
pub enum PoolError {
    /// A pool must have at least one worker.
    InvalidPoolSize,
}

/// The pool itself. The worker count is fixed at construction and never
/// changes; the ghost `accepted` sequence records, in order, the tag of
/// every job the pool has taken in while active.
pub struct ThreadPool {
    /// The fixed, ordered set of workers; worker `i` has id `i`.
    pub workers: Vec<Worker>,
    /// The shared dispatch channel.
    pub channel: DispatchChannel,
    /// Where the pool stands in its life.
    pub lifecycle: Lifecycle,
    /// Tags of every job accepted while the pool was active, in order.
    pub accepted: Ghost<Seq<u64>>,
}

/// Every job the workers of `ws` have taken off the channel: completed,
/// in flight, or lost to a failure.
pub open spec fn consumed_of(ws: Seq<Worker>) -> Multiset<u64>
    decreases ws.len(),
{
    if ws.len() == 0 {
        Multiset::empty()
    } else {
        consumed_of(ws.drop_last()).add(ws.last().consumed())
    }
}

/// Every job the workers of `ws` have run to completion.
pub open spec fn executed_of(ws: Seq<Worker>) -> Multiset<u64>
    decreases ws.len(),
{
    if ws.len() == 0 {
        Multiset::empty()
    } else {
        executed_of(ws.drop_last()).add(ws.last().executed@.to_multiset())
    }
}

/// How many workers of `ws` are executing a job right now.
pub open spec fn executing_count(ws: Seq<Worker>) -> nat
    decreases ws.len(),
{
    if ws.len() == 0 {
        0
    } else {
        executing_count(ws.drop_last()) + (if ws.last().state is Executing {
            1nat
        } else {
            0nat
        })
    }
}

proof fn lemma_add_empty(m: Multiset<u64>)
    ensures
        m.add(Multiset::<u64>::empty()) == m,
{
    assert(m.add(Multiset::<u64>::empty()) =~= m);
}

proof fn lemma_empty_seq_to_multiset()
    ensures
        Seq::<u64>::empty().to_multiset() == Multiset::<u64>::empty(),
{
    assert(Seq::<u64>::empty().to_multiset() =~= Multiset::<u64>::empty()) by {
        Seq::<u64>::empty().to_multiset_ensures();
        vstd::multiset::lemma_multiset_empty_len(Seq::<u64>::empty().to_multiset());
    }
}

proof fn lemma_consumed_of_push(ws: Seq<Worker>, w: Worker)
    ensures
        consumed_of(ws.push(w)) == consumed_of(ws).add(w.consumed()),
{
    assert(ws.push(w).drop_last() =~= ws);
    assert(ws.push(w).last() == w);
}

/// Exchanging equal sums stays equal when the same multiset is interposed.
proof fn lemma_add_exchange(
    a: Multiset<u64>,
    a2: Multiset<u64>,
    b: Multiset<u64>,
    b2: Multiset<u64>,
    l: Multiset<u64>,
)
    requires
        a.add(b) == a2.add(b2),
    ensures
        a.add(l).add(b) == a2.add(l).add(b2),
{
    assert forall|t: u64| a.add(l).add(b).count(t) == a2.add(l).add(b2).count(t) by {
        vstd::multiset::axiom_multiset_add::<u64>(a, l, t);
        vstd::multiset::axiom_multiset_add::<u64>(a.add(l), b, t);
        vstd::multiset::axiom_multiset_add::<u64>(a2, l, t);
        vstd::multiset::axiom_multiset_add::<u64>(a2.add(l), b2, t);
        vstd::multiset::axiom_multiset_add::<u64>(a, b, t);
        vstd::multiset::axiom_multiset_add::<u64>(a2, b2, t);
        assert(a.add(b).count(t) == a2.add(b2).count(t));
    }
    assert(a.add(l).add(b) =~= a2.add(l).add(b2));
}

/// Replacing the one worker at position `i` exchanges exactly that worker's
/// contribution, stated additively.
proof fn lemma_consumed_of_update(ws: Seq<Worker>, i: int, w: Worker)
    requires
        0 <= i < ws.len(),
    ensures
        consumed_of(ws.update(i, w)).add(ws[i].consumed()) == consumed_of(ws).add(w.consumed()),
    decreases ws.len(),
{
    if i == ws.len() - 1 {
        assert(ws.update(i, w).drop_last() =~= ws.drop_last());
        assert(ws.update(i, w).last() == w);
        assert(consumed_of(ws.update(i, w)).add(ws[i].consumed()) =~= consumed_of(ws).add(
            w.consumed(),
        ));
    } else {
        let dl = ws.drop_last();
        lemma_consumed_of_update(dl, i, w);
        assert(ws.update(i, w).drop_last() =~= dl.update(i, w));
        assert(ws.update(i, w).last() == ws.last());
        assert(dl[i] == ws[i]);
        assert(consumed_of(ws.update(i, w)) == consumed_of(dl.update(i, w)).add(
            ws.last().consumed(),
        ));
        assert(consumed_of(ws) == consumed_of(dl).add(ws.last().consumed()));
        lemma_add_exchange(
            consumed_of(dl.update(i, w)),
            consumed_of(dl),
            ws[i].consumed(),
            w.consumed(),
            ws.last().consumed(),
        );
    }
}

/// Conservation survives enqueueing: pushing the same tag onto the accepted
/// record and onto the queue keeps the two sides equal.
proof fn lemma_conservation_enqueue(acc: Seq<u64>, pend: Seq<u64>, c: Multiset<u64>, t: u64)
    requires
        acc.to_multiset() == pend.to_multiset().add(c),
    ensures
        acc.push(t).to_multiset() == pend.push(t).to_multiset().add(c),
{
    acc.to_multiset_ensures();
    pend.to_multiset_ensures();
    assert forall|x: u64| acc.push(t).to_multiset().count(x) == pend.push(t).to_multiset().add(
        c,
    ).count(x) by {
        vstd::multiset::axiom_multiset_add::<u64>(acc.to_multiset(), Multiset::singleton(t), x);
        vstd::multiset::axiom_multiset_add::<u64>(pend.to_multiset(), Multiset::singleton(t), x);
        vstd::multiset::axiom_multiset_add::<u64>(pend.to_multiset(), c, x);
        vstd::multiset::axiom_multiset_add::<u64>(pend.push(t).to_multiset(), c, x);
        vstd::multiset::axiom_multiset_add::<u64>(
            pend.to_multiset().add(Multiset::singleton(t)),
            c,
            x,
        );
        assert(acc.push(t).to_multiset() == acc.to_multiset().insert(t));
        assert(pend.push(t).to_multiset() == pend.to_multiset().insert(t));
    }
    assert(acc.push(t).to_multiset() =~= pend.push(t).to_multiset().add(c));
}

/// Cancellation: adding the same multiset on both sides can be undone.
proof fn lemma_add_cancel(a: Multiset<u64>, b: Multiset<u64>, c: Multiset<u64>)
    requires
        a.add(c) == b.add(c),
    ensures
        a == b,
{
    assert forall|t: u64| a.count(t) == b.count(t) by {
        vstd::multiset::axiom_multiset_add::<u64>(a, c, t);
        vstd::multiset::axiom_multiset_add::<u64>(b, c, t);
        assert(a.add(c).count(t) == b.add(c).count(t));
    }
    assert(a =~= b);
}

/// Conservation survives dequeueing: moving the oldest queued tag into a
/// worker's share keeps the two sides equal.
proof fn lemma_conservation_dequeue(acc: Seq<u64>, pend: Seq<u64>, c: Multiset<u64>, c2: Multiset<u64>)
    requires
        pend.len() > 0,
        acc.to_multiset() == pend.to_multiset().add(c),
        c2 == c.insert(pend[0]),
    ensures
        acc.to_multiset() == pend.drop_first().to_multiset().add(c2),
{
    pend.to_multiset_ensures();
    let t = pend[0];
    assert(pend.drop_first() =~= pend.remove(0));
    assert(pend.contains(t));
    assert(pend.remove(0).to_multiset() =~= pend.to_multiset().remove(t));
    assert forall|x: u64| acc.to_multiset().count(x) == pend.drop_first().to_multiset().add(
        c2,
    ).count(x) by {
        vstd::multiset::axiom_multiset_add::<u64>(pend.to_multiset(), c, x);
        vstd::multiset::axiom_multiset_add::<u64>(pend.to_multiset().remove(t), c2, x);
        vstd::multiset::axiom_multiset_add::<u64>(c, Multiset::singleton(t), x);
        vstd::multiset::axiom_multiset_sub::<u64>(pend.to_multiset(), Multiset::singleton(t), x);
        assert(pend.to_multiset().count(t) > 0);
    }
    assert(acc.to_multiset() =~= pend.drop_first().to_multiset().add(c2));
}

/// Replacing the worker at `i` with one whose share is unchanged leaves the
/// workers' total share unchanged.
proof fn lemma_consumed_of_update_eq(ws: Seq<Worker>, i: int, w2: Worker)
    requires
        0 <= i < ws.len(),
        w2.consumed() == ws[i].consumed(),
    ensures
        consumed_of(ws.update(i, w2)) == consumed_of(ws),
{
    lemma_consumed_of_update(ws, i, w2);
    lemma_add_cancel(consumed_of(ws.update(i, w2)), consumed_of(ws), ws[i].consumed());
}

/// Replacing the worker at `i` with one whose share grew by one tag grows
/// the workers' total share by that tag.
proof fn lemma_consumed_of_update_insert(ws: Seq<Worker>, i: int, w2: Worker, t: u64)
    requires
        0 <= i < ws.len(),
        w2.consumed() == ws[i].consumed().insert(t),
    ensures
        consumed_of(ws.update(i, w2)) == consumed_of(ws).insert(t),
{
    lemma_consumed_of_update(ws, i, w2);
    let x = consumed_of(ws.update(i, w2));
    let c = consumed_of(ws);
    let ci = ws[i].consumed();
    assert(c.add(ci.insert(t)) == c.insert(t).add(ci)) by {
        assert forall|v: u64| c.add(ci.insert(t)).count(v) == c.insert(t).add(ci).count(v) by {
            vstd::multiset::axiom_multiset_add::<u64>(c, ci.insert(t), v);
            vstd::multiset::axiom_multiset_add::<u64>(ci, Multiset::singleton(t), v);
            vstd::multiset::axiom_multiset_add::<u64>(c.insert(t), ci, v);
            vstd::multiset::axiom_multiset_add::<u64>(c, Multiset::singleton(t), v);
        }
        assert(c.add(ci.insert(t)) =~= c.insert(t).add(ci));
    }
    lemma_add_cancel(x, c.insert(t), ci);
}

impl ThreadPool {
    /// The number of workers, fixed at construction.
    pub open spec fn size(self) -> nat {
        self.workers@.len()
    }

    /// Conservation: every accepted job is queued, in flight, completed, or
    /// lost to a failure — each exactly once.
    pub open spec fn conservation(self) -> bool {
        self.accepted@.to_multiset() == self.channel.pending_jobs().to_multiset().add(
            consumed_of(self.workers@),
        )
    }

    /// A worker terminates gracefully only by observing closure on an empty
    /// queue, and after that the channel stays closed and stays empty.
    pub open spec fn drained_on_graceful_exit(self) -> bool {
        forall|i: int|
            0 <= i < self.workers@.len() && (#[trigger] self.workers@[i]).terminated_gracefully()
                ==> !self.channel.producer_open && self.channel.pending_jobs().len() == 0
    }

    /// Well-formedness of the whole pool.
    pub open spec fn wf(self) -> bool {
        &&& self.workers@.len() > 0
        &&& forall|i: int| 0 <= i < self.workers@.len() ==> (#[trigger] self.workers@[i]).wf_at(i)
        &&& (self.lifecycle is Active <==> self.channel.producer_open)
        &&& (self.lifecycle is Stopped ==> forall|i: int|
            0 <= i < self.workers@.len() ==> (#[trigger] self.workers@[i]).joined)
        &&& self.conservation()
        &&& self.drained_on_graceful_exit()
    }

    /// A pool as construction leaves it: active, nothing queued, nothing
    /// accepted yet, every worker waiting with nothing done.
    pub open spec fn fresh(self, size: nat) -> bool {
        &&& self.size() == size
        &&& self.lifecycle is Active
        &&& self.channel.pending_jobs().len() == 0
        &&& self.accepted@.len() == 0
        &&& forall|i: int|
            0 <= i < self.workers@.len() ==> {
                &&& (#[trigger] self.workers@[i]).state is Waiting
                &&& self.workers@[i].executed@.len() == 0
                &&& self.workers@[i].failed_job is None
                &&& !self.workers@[i].joined
            }
    }

    /// Creates a pool of `size` workers. The size must be positive; callers
    /// that need a recoverable path for zero use [`ThreadPool::try_new`].
    /// All workers spawn at once and immediately enter their wait state.
    pub fn new(size: usize) -> (p: ThreadPool)
        requires
            size > 0,
        ensures
            p.wf(),
            p.fresh(size as nat),
    {
        let channel = DispatchChannel::new();
        let mut workers: Vec<Worker> = Vec::new();
        let mut id: usize = 0;
        while id < size
            invariant
                workers@.len() == id,
                id <= size,
                forall|i: int|
                    0 <= i < id ==> {
                        &&& (#[trigger] workers@[i]).wf_at(i)
                        &&& workers@[i].state is Waiting
                        &&& workers@[i].executed@.len() == 0
                        &&& workers@[i].failed_job is None
                        &&& !workers@[i].joined
                    },
                consumed_of(workers@) == Multiset::<u64>::empty(),
            decreases size - id,
        {
            let w = Worker::new(id);
            proof {
                lemma_consumed_of_push(workers@, w);
                lemma_add_empty(consumed_of(workers@));
            }
            workers.push(w);
            id = id + 1;
        }
        let p = ThreadPool { workers, channel, lifecycle: Lifecycle::Active, accepted: Ghost(Seq::empty()) };
        proof {
            lemma_empty_seq_to_multiset();
            lemma_add_empty(Multiset::<u64>::empty());
            assert(p.accepted@.to_multiset() =~= p.channel.pending_jobs().to_multiset().add(
                consumed_of(p.workers@),
            ));
        }
        p
    }

    /// Submits the job with the given tag. While the pool is active the job
    /// is enqueued and the call never blocks. Once teardown has begun the
    /// producer handle is gone and the call is a silent no-op: the job is
    /// neither executed nor reported as dropped, and the caller cannot tell.
    ///
    /// Sending needs a consumer side to still exist: in an active pool some
    /// worker must not have terminated yet, else delivery fails fatally —
    /// an input this model leaves out.
    pub fn execute(&mut self, tag: u64)
        requires
            old(self).wf(),
            old(self).lifecycle is Active ==> exists|i: int|
                0 <= i < old(self).workers@.len() && !((#[trigger] old(self).workers@[i]).state
                    is Terminated),
        ensures
            final(self).wf(),
            old(self).lifecycle is Active ==> {
                &&& final(self).channel.pending_jobs() == old(self).channel.pending_jobs().push(
                    tag,
                )
                &&& final(self).accepted@ == old(self).accepted@.push(tag)
            },
            !(old(self).lifecycle is Active) ==> *final(self) == *old(self),
            final(self).workers@ == old(self).workers@,
            final(self).lifecycle == old(self).lifecycle,
            final(self).channel.producer_open == old(self).channel.producer_open,
    {
        match self.lifecycle {
            Lifecycle::Active => {
                self.channel.send(tag);
                proof {
                    self.accepted@ = self.accepted@.push(tag);
                    lemma_conservation_enqueue(
                        old(self).accepted@,
                        old(self).channel.pending_jobs(),
                        consumed_of(self.workers@),
                        tag,
                    );
                }
            },
            _ => {},
        }
    }

    /// Begins teardown: drops the producer handle. No further job is
    /// accepted, and every worker's next dequeue attempt observes closure
    /// once the queue drains. The queued jobs themselves stay.
    pub fn begin_teardown(&mut self)
        requires
            old(self).wf(),
            old(self).lifecycle is Active,
        ensures
            final(self).wf(),
            final(self).lifecycle is ShuttingDown,
            final(self).channel.pending_jobs() == old(self).channel.pending_jobs(),
            !final(self).channel.producer_open,
            final(self).workers@ == old(self).workers@,
            final(self).accepted == old(self).accepted,
    {
        self.channel.close_producer();
        self.lifecycle = Lifecycle::ShuttingDown;
        proof {
            assert forall|i: int|
                0 <= i < self.workers@.len() && (#[trigger] self.workers@[i]).terminated_gracefully()
                implies !self.channel.producer_open && self.channel.pending_jobs().len() == 0 by {
                assert(old(self).workers@[i].terminated_gracefully());
                assert(!old(self).channel.producer_open);
                assert(false);
            }
        }
    }

    /// One serialized dequeue attempt by worker `i`, which must be waiting.
    /// At most one worker is inside this attempt at any instant — the call
    /// takes the pool exclusively — but the guard ends with the call: the
    /// job that comes out is executed outside it, fully in parallel.
    /// If a job is queued, worker `i` takes the oldest and starts executing
    /// it; on an empty closed channel the worker terminates; on an empty
    /// open channel nothing changes and a real worker stays blocked.
    pub fn worker_try_dequeue(&mut self, i: usize) -> (r: ReceiveOutcome)
        requires
            old(self).wf(),
            i < old(self).workers@.len(),
            old(self).workers@[i as int].state is Waiting,
        ensures
            final(self).wf(),
            final(self).size() == old(self).size(),
            final(self).accepted == old(self).accepted,
            final(self).lifecycle == old(self).lifecycle,
            final(self).channel.producer_open == old(self).channel.producer_open,
            forall|j: int|
                0 <= j < old(self).workers@.len() && j != i ==> final(self).workers@[j] == old(
                    self,
                ).workers@[j],
            final(self).workers@[i as int].id == old(self).workers@[i as int].id,
            final(self).workers@[i as int].executed == old(self).workers@[i as int].executed,
            final(self).workers@[i as int].failed_job == old(self).workers@[i as int].failed_job,
            final(self).workers@[i as int].joined == old(self).workers@[i as int].joined,
            old(self).channel.pending_jobs().len() > 0 ==> {
                &&& r == ReceiveOutcome::Job(old(self).channel.pending_jobs()[0])
                &&& final(self).channel.pending_jobs() == old(
                    self,
                ).channel.pending_jobs().drop_first()
                &&& final(self).workers@[i as int].state == WorkerState::Executing(
                    old(self).channel.pending_jobs()[0],
                )
            },
            old(self).channel.pending_jobs().len() == 0 ==> final(self).channel.pending_jobs()
                == old(self).channel.pending_jobs(),
            old(self).channel.pending_jobs().len() == 0 && !old(self).channel.producer_open ==> {
                &&& r == ReceiveOutcome::Closed
                &&& final(self).workers@[i as int].state is Terminated
            },
            old(self).channel.pending_jobs().len() == 0 && old(self).channel.producer_open ==> {
                &&& r == ReceiveOutcome::WouldBlock
                &&& final(self).workers@ == old(self).workers@
            },
    {
        let r = self.channel.try_receive();
        match r {
            ReceiveOutcome::Job(t) => {
                self.workers[i].state = WorkerState::Executing(t);
                proof {
                    let ws = old(self).workers@;
                    let w2 = self.workers@[i as int];
                    assert(self.workers@ =~= ws.update(i as int, w2));
                    assert(w2.consumed() == ws[i as int].consumed().insert(t)) by {
                        assert forall|v: u64|
                            w2.consumed().count(v) == ws[i as int].consumed().insert(t).count(
                                v,
                            ) by {
                            broadcast use vstd::multiset::group_multiset_axioms;

                        }
                        assert(w2.consumed() =~= ws[i as int].consumed().insert(t));
                    }
                    lemma_consumed_of_update_insert(ws, i as int, w2, t);
                    lemma_conservation_dequeue(
                        self.accepted@,
                        old(self).channel.pending_jobs(),
                        consumed_of(ws),
                        consumed_of(ws).insert(t),
                    );
                    assert forall|j: int|
                        0 <= j < self.workers@.len() && (
                        #[trigger] self.workers@[j]).terminated_gracefully()
                        implies !self.channel.producer_open && self.channel.pending_jobs().len()
                        == 0 by {
                        assert(j != i as int);
                        assert(ws[j].terminated_gracefully());
                        assert(old(self).channel.pending_jobs().len() == 0);
                        assert(false);
                    }
                }
            },
            ReceiveOutcome::Closed => {
                self.workers[i].state = WorkerState::Terminated;
                proof {
                    let ws = old(self).workers@;
                    let w2 = self.workers@[i as int];
                    assert(self.workers@ =~= ws.update(i as int, w2));
                    assert(w2.consumed() == ws[i as int].consumed());
                    lemma_consumed_of_update_eq(ws, i as int, w2);
                }
            },
            ReceiveOutcome::WouldBlock => {
            },
        }
        r
    }

    /// Worker `i` finished its job normally: the job's tag moves into the
    /// worker's completed record and the worker goes back to waiting.
    pub fn worker_finish_job(&mut self, i: usize)
        requires
            old(self).wf(),
            i < old(self).workers@.len(),
            old(self).workers@[i as int].state is Executing,
        ensures
            final(self).wf(),
            final(self).size() == old(self).size(),
            final(self).accepted == old(self).accepted,
            final(self).lifecycle == old(self).lifecycle,
            final(self).channel == old(self).channel,
            forall|j: int|
                0 <= j < old(self).workers@.len() && j != i ==> final(self).workers@[j] == old(
                    self,
                ).workers@[j],
            final(self).workers@[i as int].id == old(self).workers@[i as int].id,
            final(self).workers@[i as int].state is Waiting,
            final(self).workers@[i as int].executed@ == old(
                self,
            ).workers@[i as int].executed@.push(old(self).workers@[i as int].executing_tag()),
            final(self).workers@[i as int].failed_job == old(self).workers@[i as int].failed_job,
            final(self).workers@[i as int].joined == old(self).workers@[i as int].joined,
    {
        let st = self.workers[i].state;
        match st {
            WorkerState::Executing(t) => {
                self.workers[i].state = WorkerState::Waiting;
                self.workers[i].executed.push(t);
                proof {
                    let ws = old(self).workers@;
                    let w2 = self.workers@[i as int];
                    assert(self.workers@ =~= ws.update(i as int, w2));
                    assert(w2.consumed() == ws[i as int].consumed()) by {
                        ws[i as int].executed@.to_multiset_ensures();
                        assert forall|v: u64| w2.consumed().count(v) == ws[i as int].consumed().count(
                            v,
                        ) by {
                            broadcast use vstd::multiset::group_multiset_axioms;

                        }
                        assert(w2.consumed() =~= ws[i as int].consumed());
                    }
                    lemma_consumed_of_update_eq(ws, i as int, w2);
                }
            },
            _ => {
                proof {
                    assert(false);
                }
            },
        }
    }

    /// Worker `i`'s job failed catastrophically during execution: the worker
    /// terminates at once, without returning to its wait state, and the
    /// pool's effective concurrency permanently shrinks by one. The failed
    /// job's tag is recorded; no other worker is affected and no retry
    /// occurs.
    pub fn worker_job_panicked(&mut self, i: usize)
        requires
            old(self).wf(),
            i < old(self).workers@.len(),
            old(self).workers@[i as int].state is Executing,
        ensures
            final(self).wf(),
            final(self).size() == old(self).size(),
            final(self).accepted == old(self).accepted,
            final(self).lifecycle == old(self).lifecycle,
            final(self).channel == old(self).channel,
            forall|j: int|
                0 <= j < old(self).workers@.len() && j != i ==> final(self).workers@[j] == old(
                    self,
                ).workers@[j],
            final(self).workers@[i as int].id == old(self).workers@[i as int].id,
            final(self).workers@[i as int].state is Terminated,
            final(self).workers@[i as int].executed == old(self).workers@[i as int].executed,
            final(self).workers@[i as int].failed_job == Some(
                old(self).workers@[i as int].executing_tag(),
            ),
            final(self).workers@[i as int].joined == old(self).workers@[i as int].joined,
    {
        let st = self.workers[i].state;
        match st {
            WorkerState::Executing(t) => {
                self.workers[i].state = WorkerState::Terminated;
                self.workers[i].failed_job = Some(t);
                proof {
                    let ws = old(self).workers@;
                    let w2 = self.workers@[i as int];
                    assert(self.workers@ =~= ws.update(i as int, w2));
                    assert(w2.consumed() == ws[i as int].consumed()) by {
                        assert forall|v: u64| w2.consumed().count(v) == ws[i as int].consumed().count(
                            v,
                        ) by {
                            broadcast use vstd::multiset::group_multiset_axioms;

                        }
                        assert(w2.consumed() =~= ws[i as int].consumed());
                    }
                    lemma_consumed_of_update_eq(ws, i as int, w2);
                }
            },
            _ => {
                proof {
                    assert(false);
                }
            },
        }
    }

    /// Consumes worker `i`'s thread handle during teardown. The real join
    /// blocks until the thread exits, so the handle is consumed only once
    /// the worker has terminated; a worker whose job failed catastrophically
    /// cannot be joined cleanly — that is a fatal error surfaced to the
    /// party tearing down, not a state this model can enter.
    pub fn join_worker(&mut self, i: usize)
        requires
            old(self).wf(),
            old(self).lifecycle is ShuttingDown,
            i < old(self).workers@.len(),
            old(self).workers@[i as int].state is Terminated,
            old(self).workers@[i as int].failed_job is None,
            !old(self).workers@[i as int].joined,
        ensures
            final(self).wf(),
            final(self).size() == old(self).size(),
            final(self).accepted == old(self).accepted,
            final(self).lifecycle == old(self).lifecycle,
            final(self).channel == old(self).channel,
            forall|j: int|
                0 <= j < old(self).workers@.len() && j != i ==> final(self).workers@[j] == old(
                    self,
                ).workers@[j],
            final(self).workers@[i as int].id == old(self).workers@[i as int].id,
            final(self).workers@[i as int].state == old(self).workers@[i as int].state,
            final(self).workers@[i as int].executed == old(self).workers@[i as int].executed,
            final(self).workers@[i as int].failed_job == old(self).workers@[i as int].failed_job,
            final(self).workers@[i as int].joined,
    {
        self.workers[i].joined = true;
        proof {
            let ws = old(self).workers@;
            let w2 = self.workers@[i as int];
            assert(self.workers@ =~= ws.update(i as int, w2));
            assert(w2.consumed() == ws[i as int].consumed());
            lemma_consumed_of_update_eq(ws, i as int, w2);
        }
    }

    /// Completes teardown once every worker has terminated and every thread
    /// handle was consumed. Teardown is synchronous and total: it does not
    /// complete before every worker finished its last job and exited.
    pub fn complete_teardown(&mut self)
        requires
            old(self).wf(),
            old(self).lifecycle is ShuttingDown,
            forall|i: int| 0 <= i < old(self).workers@.len() ==> (#[trigger] old(self).workers@[i]).joined,
        ensures
            final(self).wf(),
            final(self).lifecycle is Stopped,
            final(self).size() == old(self).size(),
            final(self).accepted == old(self).accepted,
            final(self).channel == old(self).channel,
            final(self).workers == old(self).workers,
    {
        self.lifecycle = Lifecycle::Stopped;
    }

    /// The fallible constructor: succeeds exactly on positive sizes and
    /// reports a zero size as `InvalidPoolSize` instead of failing fatally.
    pub fn try_new(size: usize) -> (r: Result<ThreadPool, PoolError>)
        ensures
            size > 0 <==> r is Ok,
            r matches Ok(p) ==> p.wf() && p.fresh(size as nat),
            r matches Err(e) ==> e == PoolError::InvalidPoolSize,
    {
        if size == 0 {
            Err(PoolError::InvalidPoolSize)
        } else {
            Ok(ThreadPool::new(size))
        }
    }
}

proof fn lemma_executing_count_le_len(ws: Seq<Worker>)
    ensures
        executing_count(ws) <= ws.len(),
    decreases ws.len(),
{
    if ws.len() > 0 {
        lemma_executing_count_le_len(ws.drop_last());
    }
}

proof fn lemma_executed_le_consumed(ws: Seq<Worker>, t: u64)
    ensures
        executed_of(ws).count(t) <= consumed_of(ws).count(t),
    decreases ws.len(),
{
    if ws.len() > 0 {
        let dl = ws.drop_last();
        let w = ws.last();
        lemma_executed_le_consumed(dl, t);
        vstd::multiset::axiom_multiset_add::<u64>(executed_of(dl), w.executed@.to_multiset(), t);
        vstd::multiset::axiom_multiset_add::<u64>(consumed_of(dl), w.consumed(), t);
        vstd::multiset::axiom_multiset_add::<u64>(w.executed@.to_multiset(), w.in_flight(), t);
        vstd::multiset::axiom_multiset_add::<u64>(
            w.executed@.to_multiset().add(w.in_flight()),
            w.lost(),
            t,
        );
    }
}

proof fn lemma_consumed_is_executed(ws: Seq<Worker>)
    requires
        forall|i: int|
            0 <= i < ws.len() ==> (#[trigger] ws[i]).state is Terminated && ws[i].failed_job
                is None,
    ensures
        consumed_of(ws) == executed_of(ws),
    decreases ws.len(),
{
    if ws.len() > 0 {
        let dl = ws.drop_last();
        let w = ws.last();
        assert(forall|i: int|
            0 <= i < dl.len() ==> (#[trigger] dl[i]).state is Terminated && dl[i].failed_job
                is None);
        lemma_consumed_is_executed(dl);
        assert(w.consumed() == w.executed@.to_multiset()) by {
            lemma_add_empty(w.executed@.to_multiset());
            lemma_add_empty(w.executed@.to_multiset().add(Multiset::<u64>::empty()));
        }
    }
}

/// Concurrency is bounded by the pool's size: each worker runs at most one
/// job at a time, so no more jobs than workers are ever executing at once.
pub proof fn lemma_concurrency_bounded(p: ThreadPool)
    requires
        p.wf(),
    ensures
        executing_count(p.workers@) <= p.size(),
{
    lemma_executing_count_le_len(p.workers@);
}

proof fn lemma_executing_count_all(ws: Seq<Worker>)
    requires
        forall|i: int| 0 <= i < ws.len() ==> (#[trigger] ws[i]).state is Executing,
    ensures
        executing_count(ws) == ws.len(),
    decreases ws.len(),
{
    if ws.len() > 0 {
        let dl = ws.drop_last();
        assert(forall|i: int| 0 <= i < dl.len() ==> (#[trigger] dl[i]).state is Executing);
        lemma_executing_count_all(dl);
    }
}

/// The bound of `lemma_concurrency_bounded` is attained: a pool of `size`
/// workers supports `size` jobs executing at once, for when every worker
/// holds a job, exactly `size` jobs are in progress.
pub proof fn lemma_concurrency_reaches_size(p: ThreadPool)
    requires
        forall|i: int| 0 <= i < p.workers@.len() ==> (#[trigger] p.workers@[i]).state is Executing,
    ensures
        executing_count(p.workers@) == p.size(),
{
    lemma_executing_count_all(p.workers@);
}

/// Every job submitted before teardown began runs exactly once, and
/// teardown does not complete until all of them have: once the pool is
/// stopped and no job failed catastrophically, the queue has drained and
/// the accepted jobs are, as a multiset, exactly the executed jobs.
pub proof fn lemma_teardown_drains(p: ThreadPool)
    requires
        p.wf(),
        p.lifecycle is Stopped,
        forall|i: int| 0 <= i < p.workers@.len() ==> (#[trigger] p.workers@[i]).failed_job is None,
    ensures
        p.channel.pending_jobs().len() == 0,
        p.accepted@.to_multiset() == executed_of(p.workers@),
{
    assert(forall|i: int|
        0 <= i < p.workers@.len() ==> (#[trigger] p.workers@[i]).state is Terminated);
    assert(p.workers@[0].terminated_gracefully());
    assert(p.channel.pending_jobs().len() == 0);
    assert(p.channel.pending_jobs().to_multiset() == Multiset::<u64>::empty()) by {
        p.channel.pending_jobs().to_multiset_ensures();
        vstd::multiset::lemma_multiset_empty_len(p.channel.pending_jobs().to_multiset());
    }
    assert(Multiset::<u64>::empty().add(consumed_of(p.workers@)) =~= consumed_of(p.workers@));
    lemma_consumed_is_executed(p.workers@);
}

/// No job is ever executed twice: when the accepted tags are pairwise
/// distinct, no tag occurs more than once among the jobs the workers have
/// run to completion — however many submitters raced, and at any point of
/// the pool's life.
pub proof fn lemma_no_double_execution(p: ThreadPool, t: u64)
    requires
        p.wf(),
        p.accepted@.no_duplicates(),
    ensures
        executed_of(p.workers@).count(t) <= 1,
{
    p.accepted@.lemma_multiset_has_no_duplicates();
    p.accepted@.to_multiset_ensures();
    assert(p.accepted@.to_multiset().count(t) <= 1);
    lemma_executed_le_consumed(p.workers@, t);
    vstd::multiset::axiom_multiset_add::<u64>(
        p.channel.pending_jobs().to_multiset(),
        consumed_of(p.workers@),
        t,
    );
}

} // verus!
