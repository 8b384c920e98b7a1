//! Laws of the assignment policy: load balancing over a fresh pool, and
//! conservation of the outstanding-work bookkeeping.

use vstd::prelude::*;

use crate::pool::{
    bumped, first_min_index, is_first_min, lemma_first_min_index_valid, lemma_first_min_unique,
    reconciled,
};

verus! {

/// The loads of an `n`-worker pool whose first `k` workers hold one job
/// each and whose remaining workers are idle.
pub open spec fn filled(n: int, k: int) -> Seq<usize> {
    Seq::new(n as nat, |i: int| if i < k { 1usize } else { 0usize })
}

/// Draining no completion signals leaves every estimate unchanged.
pub proof fn lemma_reconcile_nothing(loads: Seq<usize>, done: Seq<usize>)
    requires
        done.len() == loads.len(),
        forall|i: int| 0 <= i < done.len() ==> (#[trigger] done[i]) == 0,
    ensures
        reconciled(loads, done) == loads,
{
    assert(reconciled(loads, done) =~= loads);
}

/// Load balancing on a fresh pool: while some worker is still idle, the
/// next assignment (with no completions drained in between) goes to the
/// first idle worker, and raising that worker's estimate turns
/// `filled(n, k)` into `filled(n, k + 1)`. Hence `n` consecutive
/// submissions to a fresh `n`-worker pool — whose loads are `filled(n, 0)`
/// — are assigned to workers `0, 1, …, n − 1` in turn: every worker
/// receives exactly one job, idle workers being preferred over busy ones.
pub proof fn lemma_fresh_pool_each_worker_once(n: int, k: int)
    requires
        0 <= k < n,
    ensures
        first_min_index(filled(n, k)) == k,
        bumped(filled(n, k), k) == filled(n, k + 1),
{
    assert(is_first_min(filled(n, k), k));
    lemma_first_min_index_valid(filled(n, k));
    lemma_first_min_unique(filled(n, k), k, first_min_index(filled(n, k)));
    assert(bumped(filled(n, k), k) =~= filled(n, k + 1));
}

/// The total outstanding-work estimate over all workers.
pub open spec fn total(s: Seq<usize>) -> int
    decreases s.len(),
{
    if s.len() == 0 {
        0
    } else {
        total(s.drop_last()) + s.last()
    }
}

/// Changing one estimate changes the total by exactly the difference.
pub proof fn lemma_total_update(s: Seq<usize>, i: int, v: usize)
    requires
        0 <= i < s.len(),
    ensures
        total(s.update(i, v)) == total(s) - s[i] + v,
    decreases s.len(),
{
    if i == s.len() - 1 {
        assert(s.update(i, v).drop_last() =~= s.drop_last());
        assert(s.update(i, v).last() == v);
    } else {
        lemma_total_update(s.drop_last(), i, v);
        assert(s.update(i, v).drop_last() =~= s.drop_last().update(i, v));
        assert(s.update(i, v).last() == s.last());
    }
}

/// Assignment bookkeeping: raising the chosen worker's estimate counts the
/// newly submitted job exactly once (as long as the estimate is below the
/// machine limit, as every reachable estimate is).
pub proof fn lemma_bump_counts_once(s: Seq<usize>, i: int)
    requires
        0 <= i < s.len(),
        s[i] < usize::MAX,
    ensures
        total(bumped(s, i)) == total(s) + 1,
{
    lemma_total_update(s, i, (s[i] + 1) as usize);
}

/// Reconciliation bookkeeping: when no drain count overshoots its estimate
/// — estimates are only ever stale-high, never stale-low, because signals
/// are drained before an estimate is read — reconciliation subtracts
/// exactly the number of completions drained. Together with
/// `lemma_bump_counts_once` this keeps the invariant that the total
/// estimate equals jobs submitted minus completions confirmed: no job is
/// counted twice and none is lost.
pub proof fn lemma_reconcile_subtracts_completions(loads: Seq<usize>, done: Seq<usize>)
    requires
        done.len() == loads.len(),
        forall|i: int| 0 <= i < loads.len() ==> (#[trigger] done[i]) <= loads[i],
    ensures
        total(reconciled(loads, done)) == total(loads) - total(done),
    decreases loads.len(),
{
    if loads.len() > 0 {
        assert forall|i: int| 0 <= i < loads.len() - 1 implies (#[trigger] done.drop_last()[i])
            <= loads.drop_last()[i] by {
            assert(done.drop_last()[i] == done[i]);
            assert(loads.drop_last()[i] == loads[i]);
        }
        lemma_reconcile_subtracts_completions(loads.drop_last(), done.drop_last());
        assert(reconciled(loads, done).drop_last() =~= reconciled(
            loads.drop_last(),
            done.drop_last(),
        ));
        assert(done[loads.len() - 1] <= loads[loads.len() - 1]);
        assert(reconciled(loads, done).last() == (loads.last() - done.last()) as usize);
    }
}

/// The bookkeeping of one whole submission, exactly as `assign` performs it
/// — reconcile the estimates, then raise the chosen worker's estimate: the
/// total estimate grows by one for the newly submitted job and shrinks by
/// one for each completion drained. So whenever the total equalled jobs
/// submitted minus completions confirmed, it still does afterward: every
/// submitted job is counted exactly once until its completion is drained,
/// none twice and none lost.
pub proof fn lemma_submission_conserves_total(loads: Seq<usize>, done: Seq<usize>)
    requires
        loads.len() > 0,
        done.len() == loads.len(),
        forall|i: int| 0 <= i < loads.len() ==> (#[trigger] done[i]) <= loads[i],
        reconciled(loads, done)[first_min_index(reconciled(loads, done))] < usize::MAX,
    ensures
        total(bumped(reconciled(loads, done), first_min_index(reconciled(loads, done))))
            == total(loads) - total(done) + 1,
{
    let rec = reconciled(loads, done);
    lemma_reconcile_subtracts_completions(loads, done);
    lemma_first_min_index_valid(rec);
    lemma_bump_counts_once(rec, first_min_index(rec));
}

} // verus!
