//! The errors the pool reports.
use vstd::prelude::*;

verus! {

/// Why the pool refused a request, or what went wrong inside a job.
#[derive(Clone, Copy, Debug, PartialEq, Eq, Structural)]
pub enum PoolError {
    /// A pool was asked for with no workers at all.
    InvalidConfiguration,
    /// A job was submitted after shutdown had begun.
    PoolClosed,
    /// A job faulted while a worker was executing it.
    JobFault,
}

} // verus!
