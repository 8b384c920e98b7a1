use thread_pool::{PoolError, ThreadPool};

#[test]
fn zero_workers_rejected() {
    let r = ThreadPool::with(0);
    assert!(matches!(r, Err(PoolError::InvalidConfiguration)));
}

#[test]
fn positive_workers_accepted() {
    let pool = ThreadPool::with(3).unwrap();
    assert_eq!(pool.worker_count(), 3);
    for w in 0..3 {
        assert_eq!(pool.load_of(w), 0);
    }
}

#[test]
fn recommended_default_is_positive() {
    let pool = ThreadPool::new();
    assert!(pool.worker_count() >= 1);
}

#[test]
fn fresh_pool_each_worker_once() {
    let mut pool = ThreadPool::with(4).unwrap();
    let none_done = vec![0usize; 4];
    for expected in 0..4 {
        let picked = pool.assign(&none_done);
        assert_eq!(picked, expected);
    }
    for w in 0..4 {
        assert_eq!(pool.load_of(w), 1);
    }
}

#[test]
fn tie_broken_by_first_worker() {
    let mut pool = ThreadPool::with(2).unwrap();
    let picked = pool.assign(&vec![0, 0]);
    assert_eq!(picked, 0);
}

#[test]
fn drained_completions_lower_the_estimate() {
    let mut pool = ThreadPool::with(3).unwrap();
    let none_done = vec![0usize; 3];
    for _ in 0..4 {
        pool.assign(&none_done);
    }
    // Loads are now [2, 1, 1]. One completion drained from worker 1 makes it
    // the least loaded, so it receives the next job.
    let picked = pool.assign(&vec![0, 1, 0]);
    assert_eq!(picked, 1);
    assert_eq!(pool.load_of(0), 2);
    assert_eq!(pool.load_of(1), 1);
    assert_eq!(pool.load_of(2), 1);
}

#[test]
fn outstanding_total_tracks_submissions_and_completions() {
    let mut pool = ThreadPool::with(2).unwrap();
    pool.assign(&vec![0, 0]);
    pool.assign(&vec![0, 0]);
    pool.assign(&vec![0, 0]);
    // Three jobs submitted, none confirmed complete.
    assert_eq!(pool.load_of(0) + pool.load_of(1), 3);
    // Two completions drained, one more job submitted.
    pool.assign(&vec![1, 1]);
    assert_eq!(pool.load_of(0) + pool.load_of(1), 2);
}

#[test]
fn estimate_is_clamped_at_zero() {
    let mut pool = ThreadPool::with(2).unwrap();
    let picked = pool.assign(&vec![0, 0]);
    assert_eq!(picked, 0);
    // More signals drained than jobs assigned: both estimates clamp to zero,
    // and the tie again goes to worker 0.
    let picked = pool.assign(&vec![5, 7]);
    assert_eq!(picked, 0);
    assert_eq!(pool.load_of(0), 1);
    assert_eq!(pool.load_of(1), 0);
}
