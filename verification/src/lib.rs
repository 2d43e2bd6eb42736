//! A bounded worker pool, stated as a verified state machine.
//!
//! The pool owns a fixed set of workers, a first-in first-out queue of jobs
//! and the flag that says whether new jobs are still accepted. Every decision
//! the pool takes (accept or refuse a job, hand the next job to a worker,
//! tell a worker to wait or to leave, mark a worker as joined) is a method of
//! [`ThreadPool`] with a contract over the mathematical model in [`model`].
//! The threads themselves, and the blocking that goes with them, belong to
//! the caller: a worker thread asks the pool what to do next, does it, and
//! reports back.
//!
//! [`http`] holds the rules of the small site that the pool serves as a
//! demonstration.
pub mod error;
pub mod http;
pub mod laws;
pub mod model;
pub mod pool;

pub use error::PoolError;
pub use model::{Dispatch, WorkerState};
pub use pool::ThreadPool;
