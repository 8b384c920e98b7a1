//! Error taxonomy of the pool.
//!
//! Construction refuses a pool with no workers; a submission can find a
//! worker's inbox closed; shutdown aggregates, per worker, a failed stop send
//! and an abnormal thread termination.

use vstd::prelude::*;

verus! {

/// An error of construction or of a single submission.
#[derive(Debug, Clone, Copy, PartialEq, Eq, Structural)]
pub enum PoolError {
    /// The requested worker count was zero: such a pool could never make
    /// progress, so it is never created.
    InvalidConfiguration,
    /// Sending to the named worker's inbox failed because the other endpoint
    /// no longer exists (the worker thread has terminated unexpectedly).
    Disconnected { worker: usize },
}

/// Which shutdown phase a worker failed.
#[derive(Debug, Clone, Copy, PartialEq, Eq, Structural)]
pub enum FaultKind {
    /// The stop directive could not be delivered: the worker's inbox was
    /// already closed.
    Disconnected,
    /// The worker thread ended without an orderly stop (it panicked or
    /// aborted mid-job), discovered when joining it.
    AbnormalTermination,
}

/// One recorded shutdown failure: which worker, and in which phase.
#[derive(Debug, Clone, Copy, PartialEq, Eq, Structural)]
pub struct WorkerFault {
    pub worker: usize,
    pub kind: FaultKind,
}

/// The aggregate shutdown error: every worker that failed to stop cleanly or
/// to join cleanly, in the pool's fixed worker order, stop phase before join
/// phase. Never empty.
#[derive(Debug)]
pub struct ShutdownError {
    pub faults: Vec<WorkerFault>,
}

} // verus!
