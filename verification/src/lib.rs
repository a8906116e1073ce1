//! A verified model of a fixed-size worker pool.
//!
//! The pool owns a fixed, ordered set of workers that consume jobs from a
//! single shared first-in-first-out dispatch channel. Submission is decoupled
//! from execution: `execute` enqueues a job and never blocks, while each
//! worker repeatedly dequeues one job and runs it to completion. A job is
//! identified by a tag; running the tagged callable itself is the harness's
//! business, while every decision of the pool — what a dequeue attempt
//! yields, how a worker's state moves, what teardown requires — is made here
//! and verified.

mod channel;
mod pool;
mod worker;

pub use channel::DispatchChannel;
pub use channel::ReceiveOutcome;
pub use pool::Lifecycle;
pub use pool::PoolError;
pub use pool::ThreadPool;
pub use pool::consumed_of;
pub use pool::executed_of;
pub use pool::executing_count;
pub use pool::lemma_concurrency_bounded;
pub use pool::lemma_concurrency_reaches_size;
pub use pool::lemma_no_double_execution;
pub use pool::lemma_teardown_drains;
pub use worker::Worker;
pub use worker::WorkerState;
