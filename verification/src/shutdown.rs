//! The shutdown protocol's pool-side accounting.
//!
//! Shutdown is terminal: the host, for each worker in the pool's fixed
//! order, sends the stop directive to that worker's inbox and then blocks
//! until the worker's thread has terminated. The inbox is FIFO, so every
//! job queued before the stop is still run. The host reports both results
//! per worker; the accounting here turns them into `Ok` or into the
//! aggregate error, dropping no worker's failure.

use vstd::prelude::*;

use crate::errors::{FaultKind, ShutdownError, WorkerFault};
use crate::pool::ThreadPool;

verus! {

/// Whether the stop directive reached a worker's inbox.
#[derive(Debug, Clone, Copy, PartialEq, Eq, Structural)]
pub enum StopOutcome {
    /// The stop directive was enqueued in the worker's inbox.
    StopSent,
    /// The send failed: the worker's inbox was already closed.
    SendFailed,
}

/// How a worker's thread had ended when it was joined.
#[derive(Debug, Clone, Copy, PartialEq, Eq, Structural)]
pub enum JoinOutcome {
    /// The thread terminated in an orderly way.
    JoinedCleanly,
    /// The thread ended abnormally (it panicked or aborted mid-job).
    Abnormal,
}

/// What shutdown observed of one worker: whether its stop directive could
/// be sent, and how its thread ended.
#[derive(Debug, Clone, Copy, PartialEq, Eq, Structural)]
pub struct WorkerOutcome {
    pub stop: StopOutcome,
    pub join: JoinOutcome,
}

/// A worker shut down cleanly: its stop was delivered and its thread
/// joined in an orderly way.
pub open spec fn clean(o: WorkerOutcome) -> bool {
    o.stop == StopOutcome::StopSent && o.join == JoinOutcome::JoinedCleanly
}

/// The faults worker `w` contributes to the aggregate error: a failed stop
/// send first, then an abnormal termination.
pub open spec fn faults_for(w: int, o: WorkerOutcome) -> Seq<WorkerFault> {
    (if o.stop == StopOutcome::SendFailed {
        seq![(WorkerFault { worker: w as usize, kind: FaultKind::Disconnected })]
    } else {
        Seq::empty()
    }) + (if o.join == JoinOutcome::Abnormal {
        seq![(WorkerFault { worker: w as usize, kind: FaultKind::AbnormalTermination })]
    } else {
        Seq::empty()
    })
}

/// Every fault of a shutdown, in the pool's fixed worker order, the stop
/// phase before the join phase for each worker.
pub open spec fn faults_of(outcomes: Seq<WorkerOutcome>) -> Seq<WorkerFault>
    decreases outcomes.len(),
{
    if outcomes.len() == 0 {
        Seq::empty()
    } else {
        faults_of(outcomes.drop_last()) + faults_for(outcomes.len() - 1, outcomes.last())
    }
}

impl ThreadPool {
    /// Terminal shutdown accounting; consumes the pool, which cannot be
    /// used afterward. `outcomes[i]` reports, for worker `i`, whether its
    /// stop directive could be sent and how its thread ended. The result is
    /// `Ok` exactly when every stop was delivered and every thread joined
    /// cleanly; otherwise the error lists every recorded fault, in worker
    /// order — no worker's failure is silently dropped.
    pub fn join_all(self, outcomes: &Vec<WorkerOutcome>) -> (r: Result<(), ShutdownError>)
        requires
            self.wf(),
            outcomes@.len() == self@.len(),
        ensures
            (r matches Ok(p) && p == ()) <==> faults_of(outcomes@).len() == 0,
            r matches Err(e) ==> e.faults@ == faults_of(outcomes@),
    {
        let mut faults: Vec<WorkerFault> = Vec::new();
        let n = outcomes.len();
        let mut i: usize = 0;
        while i < n
            invariant
                n == outcomes@.len(),
                i <= n,
                faults@ == faults_of(outcomes@.take(i as int)),
            decreases n - i,
        {
            let ghost before = faults@;
            let o = outcomes[i];
            if o.stop == StopOutcome::SendFailed {
                faults.push(WorkerFault { worker: i, kind: FaultKind::Disconnected });
            }
            if o.join == JoinOutcome::Abnormal {
                faults.push(WorkerFault { worker: i, kind: FaultKind::AbnormalTermination });
            }
            proof {
                assert(faults@ =~= before + faults_for(i as int, o));
                assert(outcomes@.take(i + 1).drop_last() =~= outcomes@.take(i as int));
                assert(outcomes@.take(i + 1).last() == o);
                assert(faults@ =~= faults_of(outcomes@.take(i + 1)));
            }
            i = i + 1;
        }
        proof {
            assert(outcomes@.take(n as int) =~= outcomes@);
        }
        if faults.len() == 0 {
            Ok(())
        } else {
            Err(ShutdownError { faults })
        }
    }
}

/// Idempotent shutdown safety: when every worker stops and joins cleanly —
/// in particular when shutdown is called with no jobs pending — no fault is
/// recorded and the shutdown result is success.
pub proof fn lemma_all_clean_shutdown_ok(outcomes: Seq<WorkerOutcome>)
    requires
        forall|i: int| 0 <= i < outcomes.len() ==> clean(#[trigger] outcomes[i]),
    ensures
        faults_of(outcomes).len() == 0,
    decreases outcomes.len(),
{
    if outcomes.len() > 0 {
        lemma_all_clean_shutdown_ok(outcomes.drop_last());
    }
}

/// Fault isolation in the aggregate: when every worker but `w` stops and
/// joins cleanly, the aggregate reports exactly `w`'s own faults — for a
/// worker whose job aborted its thread, one abnormal termination, and
/// nothing for any other worker.
pub proof fn lemma_single_fault_isolated(outcomes: Seq<WorkerOutcome>, w: int)
    requires
        0 <= w < outcomes.len(),
        forall|i: int| 0 <= i < outcomes.len() && i != w ==> clean(#[trigger] outcomes[i]),
    ensures
        faults_of(outcomes) == faults_for(w, outcomes[w]),
    decreases outcomes.len(),
{
    if w == outcomes.len() - 1 {
        lemma_all_clean_shutdown_ok(outcomes.drop_last());
        assert(faults_of(outcomes.drop_last()) =~= Seq::<WorkerFault>::empty());
        assert(faults_of(outcomes) =~= faults_for(w, outcomes[w]));
    } else {
        lemma_single_fault_isolated(outcomes.drop_last(), w);
        assert(faults_for(outcomes.len() - 1, outcomes.last()) =~= Seq::<WorkerFault>::empty());
        assert(faults_of(outcomes) =~= faults_for(w, outcomes[w]));
    }
}

} // verus!
