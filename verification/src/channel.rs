//! The dispatch channel: an unbounded first-in-first-out queue of job tags
//! connecting submitters to workers.
//!
//! The producer side exists while at least one producer handle does; once the
//! last handle is dropped the channel is closed, and a consumer that finds
//! the queue empty observes closure instead of blocking. The consumer side is
//! shared by all workers, and the act of attempting to dequeue is serialized:
//! each call to `try_receive` is one exclusive access to the endpoint.

use vstd::prelude::*;

verus! {

/// Outcome of one attempt to dequeue from the channel.
#[derive(Clone, Copy, Debug, PartialEq, Eq, Structural)]
pub enum ReceiveOutcome {
    /// A job was available; its tag is carried here, removed from the queue.
    Job(u64),
    /// The queue is empty and no producer handle remains: the channel is
    /// permanently closed and the consumer must not try again.
    Closed,
    /// The queue is empty but a producer handle still exists: a consumer
    /// stays blocked and retries.
    WouldBlock,
}

/// The channel: the queued job tags, oldest first, and whether the producer
/// side is still open.
pub struct DispatchChannel {
    /// Queued job tags, oldest first.
    pub pending: Vec<u64>,
    /// Whether a producer handle still exists.
    pub producer_open: bool,
}

impl DispatchChannel {
    /// The queued job tags, oldest first.
    pub open spec fn pending_jobs(self) -> Seq<u64> {
        self.pending@
    }

    /// A freshly created channel: empty and open.
    pub fn new() -> (c: DispatchChannel)
        ensures
            c.pending_jobs() == Seq::<u64>::empty(),
            c.producer_open,
    {
        DispatchChannel { pending: Vec::new(), producer_open: true }
    }

    /// Enqueues a job. Sending requires a producer handle, so the channel
    /// must still be open; the call never blocks, and the queue is unbounded.
    pub fn send(&mut self, tag: u64)
        requires
            old(self).producer_open,
        ensures
            final(self).pending_jobs() == old(self).pending_jobs().push(tag),
            final(self).producer_open,
    {
        self.pending.push(tag);
    }

    /// Drops the last producer handle. The queued jobs stay; consumers
    /// observe closure once the queue drains.
    pub fn close_producer(&mut self)
        ensures
            final(self).pending_jobs() == old(self).pending_jobs(),
            !final(self).producer_open,
    {
        self.producer_open = false;
    }

    /// One serialized dequeue attempt. If a job is queued, the oldest one is
    /// removed and returned; on an empty queue the outcome says whether the
    /// channel is closed for good or the consumer should stay blocked.
    pub fn try_receive(&mut self) -> (r: ReceiveOutcome)
        ensures
            old(self).pending_jobs().len() > 0 ==> {
                &&& r == ReceiveOutcome::Job(old(self).pending_jobs()[0])
                &&& final(self).pending_jobs() == old(self).pending_jobs().drop_first()
            },
            old(self).pending_jobs().len() == 0 ==> {
                &&& final(self).pending_jobs() == old(self).pending_jobs()
                &&& r == (if old(self).producer_open {
                    ReceiveOutcome::WouldBlock
                } else {
                    ReceiveOutcome::Closed
                })
            },
            final(self).producer_open == old(self).producer_open,
    {
        if self.pending.len() > 0 {
            let tag = self.pending.remove(0);
            proof {
                assert(self.pending@ =~= old(self).pending@.drop_first());
            }
            ReceiveOutcome::Job(tag)
        } else if self.producer_open {
            ReceiveOutcome::WouldBlock
        } else {
            ReceiveOutcome::Closed
        }
    }

    /// How many jobs are queued.
    pub fn pending_len(&self) -> (n: usize)
        ensures
            n == self.pending_jobs().len(),
    {
        self.pending.len()
    }

    /// Whether a producer handle still exists.
    pub fn is_open(&self) -> (b: bool)
        ensures
            b == self.producer_open,
    {
        self.producer_open
    }
}

} // verus!
