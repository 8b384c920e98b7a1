//! The pool-side scheduling core.
//!
//! The pool keeps one load estimate per worker: the number of jobs assigned
//! to that worker and not yet confirmed complete. Estimates are reconciled
//! lazily: on each assignment the host first drains, without blocking, all
//! currently-available completion signals and reports the drained counts
//! here. Each new job then goes to the least-loaded worker, ties broken
//! towards the first worker in the pool's fixed order.

use vstd::prelude::*;

use crate::errors::PoolError;

verus! {

/// The load estimates after draining `done[i]` completion signals from
/// worker `i`: each estimate drops by the number of signals drained, clamped
/// at zero (an estimate is best-effort and never goes negative).
pub open spec fn reconciled(loads: Seq<usize>, done: Seq<usize>) -> Seq<usize> {
    Seq::new(
        loads.len(),
        |i: int| if done[i] <= loads[i] { (loads[i] - done[i]) as usize } else { 0usize },
    )
}

/// The load estimates after assigning one more job to worker `i`: its
/// estimate is raised by one, saturating at the machine limit (which no
/// real workload reaches).
pub open spec fn bumped(s: Seq<usize>, i: int) -> Seq<usize> {
    s.update(i, if s[i] < usize::MAX { (s[i] + 1) as usize } else { usize::MAX })
}

/// `i` is the index of the least-loaded worker in `s`, with ties broken
/// towards the first worker in the pool's fixed order.
pub open spec fn is_first_min(s: Seq<usize>, i: int) -> bool {
    &&& 0 <= i < s.len()
    &&& (forall|j: int| 0 <= j < s.len() ==> s[i] <= s[j])
    &&& (forall|j: int| 0 <= j < i ==> s[i] < s[j])
}

/// The index of the least-loaded worker, ties broken towards the first.
pub open spec fn first_min_index(s: Seq<usize>) -> int
    decreases s.len(),
{
    if s.len() <= 1 {
        0
    } else {
        let t = first_min_index(s.drop_last());
        if s[s.len() - 1] < s[t] {
            s.len() - 1
        } else {
            t
        }
    }
}

/// `first_min_index` does pick a least-loaded worker, the first such one.
pub proof fn lemma_first_min_index_valid(s: Seq<usize>)
    requires
        s.len() > 0,
    ensures
        is_first_min(s, first_min_index(s)),
    decreases s.len(),
{
    if s.len() > 1 {
        lemma_first_min_index_valid(s.drop_last());
        let t = first_min_index(s.drop_last());
        assert(forall|j: int| 0 <= j < s.len() - 1 ==> s.drop_last()[j] == s[j]);
        assert(is_first_min(s.drop_last(), t));
        if s[s.len() - 1] < s[t] {
            assert(forall|j: int| 0 <= j < s.len() - 1 ==> s[t] <= s[j]);
        }
    }
}

/// Only one index is the first least-loaded one.
pub proof fn lemma_first_min_unique(s: Seq<usize>, i: int, j: int)
    requires
        is_first_min(s, i),
        is_first_min(s, j),
    ensures
        i == j,
{
    if i < j {
        assert(s[i] <= s[j]);
        assert(s[j] < s[i]);
    }
    if j < i {
        assert(s[j] <= s[i]);
        assert(s[i] < s[j]);
    }
}

/// The pool's scheduling state: one load estimate per worker, in the pool's
/// fixed worker order. The view of a pool is that sequence of estimates.
pub struct ThreadPool {
    loads: Vec<usize>,
}

impl View for ThreadPool {
    type V = Seq<usize>;

    closed spec fn view(&self) -> Seq<usize> {
        self.loads@
    }
}

/// Relies on num_cpus::get for the recommended default worker count: it is
/// documented to always return at least 1 (the number of logical CPUs
/// available to this process).
#[verifier::external_body]
fn recommended_worker_count() -> (n: usize)
    ensures
        1 <= n,
{
    num_cpus::get()
}

impl ThreadPool {
    /// A pool is well formed when it has at least one worker: construction
    /// refuses a zero-worker pool, so every pool can make progress.
    pub open spec fn wf(&self) -> bool {
        1 <= self@.len()
    }

    fn build(worker_count: usize) -> (pool: ThreadPool)
        requires
            1 <= worker_count,
        ensures
            pool.wf(),
            pool@.len() == worker_count,
            forall|i: int| 0 <= i < worker_count ==> pool@[i] == 0,
    {
        let mut loads: Vec<usize> = Vec::new();
        let mut i: usize = 0;
        while i < worker_count
            invariant
                i <= worker_count,
                loads@.len() == i,
                forall|j: int| 0 <= j < i ==> loads@[j] == 0,
            decreases worker_count - i,
        {
            loads.push(0);
            i = i + 1;
        }
        ThreadPool { loads }
    }

    /// Creates the scheduling state for a pool of `worker_count` workers,
    /// each starting with no assigned work. A zero worker count is invalid:
    /// no pool is created and `InvalidConfiguration` is returned.
    pub fn with(worker_count: usize) -> (r: Result<ThreadPool, PoolError>)
        ensures
            worker_count == 0 ==> (r matches Err(e) && e == PoolError::InvalidConfiguration),
            1 <= worker_count ==> (r matches Ok(pool) && pool.wf() && pool@.len() == worker_count
                && (forall|i: int| 0 <= i < worker_count ==> pool@[i] == 0)),
    {
        if worker_count == 0 {
            Err(PoolError::InvalidConfiguration)
        } else {
            Ok(ThreadPool::build(worker_count))
        }
    }

    /// Creates the scheduling state for a pool with the recommended default
    /// worker count, one worker per available CPU. The recommendation is
    /// always positive, so this construction cannot fail.
    pub fn new() -> (pool: ThreadPool)
        ensures
            pool.wf(),
            forall|i: int| 0 <= i < pool@.len() ==> pool@[i] == 0,
    {
        ThreadPool::build(recommended_worker_count())
    }

    /// How many workers the pool schedules over.
    pub fn worker_count(&self) -> (n: usize)
        ensures
            n == self@.len(),
    {
        self.loads.len()
    }

    /// The current load estimate for one worker.
    pub fn load_of(&self, worker: usize) -> (load: usize)
        requires
            worker < self@.len(),
        ensures
            load == self@[worker as int],
    {
        self.loads[worker]
    }

    /// The index of a least-loaded worker, the first such one in the pool's
    /// fixed order.
    fn select(&self) -> (worker: usize)
        requires
            self.wf(),
        ensures
            worker as int == first_min_index(self@),
    {
        let n = self.loads.len();
        let mut best: usize = 0;
        let mut i: usize = 1;
        while i < n
            invariant
                n == self@.len(),
                best < i,
                i <= n,
                forall|j: int| 0 <= j < i ==> self@[best as int] <= self@[j],
                forall|j: int| 0 <= j < best ==> self@[best as int] < self@[j],
            decreases n - i,
        {
            if self.loads[i] < self.loads[best] {
                best = i;
            }
            i = i + 1;
        }
        proof {
            assert(is_first_min(self@, best as int));
            lemma_first_min_index_valid(self@);
            lemma_first_min_unique(self@, best as int, first_min_index(self@));
        }
        best
    }

    /// One submission's scheduling step. `completions[i]` is the number of
    /// completion signals the host drained — without blocking — from worker
    /// `i`'s completion channel for this submission. The estimates are first
    /// reconciled with those counts, then the least-loaded worker (the first
    /// in fixed order on a tie) is chosen and its estimate raised by one.
    /// The host then sends the job to the returned worker's inbox; exactly
    /// one worker's estimate changes per submission.
    pub fn assign(&mut self, completions: &Vec<usize>) -> (worker: usize)
        requires
            old(self).wf(),
            completions@.len() == old(self)@.len(),
        ensures
            final(self).wf(),
            worker < old(self)@.len(),
            worker as int == first_min_index(reconciled(old(self)@, completions@)),
            final(self)@ == bumped(reconciled(old(self)@, completions@), worker as int),
    {
        let ghost orig: Seq<usize> = self@;
        let n = self.loads.len();
        let mut i: usize = 0;
        while i < n
            invariant
                n == self@.len(),
                orig.len() == n,
                completions@.len() == n,
                i <= n,
                forall|j: int| 0 <= j < i ==> self@[j] == reconciled(orig, completions@)[j],
                forall|j: int| i <= j < n ==> self@[j] == orig[j],
            decreases n - i,
        {
            let done = completions[i];
            let load = self.loads[i];
            if done <= load {
                self.loads.set(i, load - done);
            } else {
                self.loads.set(i, 0);
            }
            i = i + 1;
        }
        proof {
            assert(self@ =~= reconciled(orig, completions@));
        }
        let worker = self.select();
        proof {
            lemma_first_min_index_valid(self@);
        }
        let load = self.loads[worker];
        if load < usize::MAX {
            self.loads.set(worker, load + 1);
        }
        proof {
            assert(self@ =~= bumped(reconciled(orig, completions@), worker as int));
        }
        worker
    }
}

} // verus!
