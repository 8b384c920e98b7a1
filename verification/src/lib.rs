//! A fixed-size worker-thread pool core: load-aware job assignment across a
//! fixed set of workers, lazy reconciliation of per-worker load estimates from
//! completion signals, and an orderly stop-and-join shutdown protocol.
//!
//! The pool-side bookkeeping and every scheduling decision live here and are
//! verified. The host program owns the operating-system threads and channels;
//! it reports events (drained completion signals, stop/join outcomes) to this
//! core and carries out the decisions the core returns.

pub mod balance;
pub mod errors;
pub mod pool;
pub mod shutdown;
pub mod worker;

pub use errors::{FaultKind, PoolError, ShutdownError, WorkerFault};
pub use pool::ThreadPool;
pub use shutdown::{JoinOutcome, StopOutcome, WorkerOutcome};
pub use worker::{on_message, Directive, WorkerAction};
