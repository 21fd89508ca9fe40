//! A fixed-size worker pool: a FIFO job queue shared by a set of workers,
//! with exactly-once job delivery and an orderly shutdown protocol.
//!
//! The pool is specified and verified as a state machine over plain values:
//! a job is named by a caller-chosen id, and each step of a worker
//! (dequeue one message, run the job or exit) is an explicit transition with
//! a contract. A runtime shell drives these transitions from real threads.

pub mod queue;
pub mod thread_pool;

pub use queue::JobQueue;
pub use queue::Message;
pub use queue::Received;
pub use queue::SendError;
pub use thread_pool::ThreadPool;
pub use thread_pool::WorkerAction;
