use thread_pool::{
    FaultKind, JoinOutcome, StopOutcome, ThreadPool, WorkerFault, WorkerOutcome,
};

fn clean() -> WorkerOutcome {
    WorkerOutcome { stop: StopOutcome::StopSent, join: JoinOutcome::JoinedCleanly }
}

#[test]
fn clean_shutdown_is_ok() {
    let pool = ThreadPool::with(3).unwrap();
    let outcomes = vec![clean(), clean(), clean()];
    assert!(pool.join_all(&outcomes).is_ok());
}

#[test]
fn single_worker_clean_shutdown_is_ok() {
    let pool = ThreadPool::with(1).unwrap();
    assert!(pool.join_all(&vec![clean()]).is_ok());
}

#[test]
fn abnormal_termination_reported_for_that_worker_only() {
    let pool = ThreadPool::with(3).unwrap();
    let outcomes = vec![
        clean(),
        WorkerOutcome { stop: StopOutcome::StopSent, join: JoinOutcome::Abnormal },
        clean(),
    ];
    let err = pool.join_all(&outcomes).unwrap_err();
    assert_eq!(
        err.faults,
        vec![WorkerFault { worker: 1, kind: FaultKind::AbnormalTermination }]
    );
}

#[test]
fn dead_worker_reported_in_both_phases() {
    let pool = ThreadPool::with(2).unwrap();
    let outcomes = vec![
        WorkerOutcome { stop: StopOutcome::SendFailed, join: JoinOutcome::Abnormal },
        clean(),
    ];
    let err = pool.join_all(&outcomes).unwrap_err();
    assert_eq!(
        err.faults,
        vec![
            WorkerFault { worker: 0, kind: FaultKind::Disconnected },
            WorkerFault { worker: 0, kind: FaultKind::AbnormalTermination },
        ]
    );
}

#[test]
fn faults_listed_in_worker_order() {
    let pool = ThreadPool::with(3).unwrap();
    let outcomes = vec![
        clean(),
        WorkerOutcome { stop: StopOutcome::SendFailed, join: JoinOutcome::JoinedCleanly },
        WorkerOutcome { stop: StopOutcome::StopSent, join: JoinOutcome::Abnormal },
    ];
    let err = pool.join_all(&outcomes).unwrap_err();
    assert_eq!(
        err.faults,
        vec![
            WorkerFault { worker: 1, kind: FaultKind::Disconnected },
            WorkerFault { worker: 2, kind: FaultKind::AbnormalTermination },
        ]
    );
}
