//! The phases of a run, each a repetition of one pool operation, and the
//! plan of a whole run.
use vstd::prelude::*;
use crate::names::is_branch_name;
use crate::pool::{
    is_branch_off, is_commit, is_permanent_join, merge_steps, final_message, join_nonpermanent, join_permanent,
    merge_into, split, KickflipError, Step,
};

verus! {

/// Batch `k` of `batches` creates `pool[base + k]` from a branch that was
/// in the pool before it.
pub open spec fn split_batch(batches: Seq<Vec<Step>>, pool: Seq<String>, base: int, k: int) -> bool {
    exists|j: int| 0 <= j < base + k && is_branch_off(batches[k]@, #[trigger] pool[j], pool[base + k])
}

/// `steps` merge a member of `pool` into a member of `pool`.
pub open spec fn merges_within(steps: Seq<Step>, pool: Seq<String>) -> bool {
    exists|g: int, v: int|
        0 <= g < pool.len() && 0 <= v < pool.len() && steps == merge_steps(
            #[trigger] pool[g],
            #[trigger] pool[v],
        )
}

/// `steps` merge `last` into `start`, then remove the marker file and
/// commit its removal.
pub open spec fn is_finalize(steps: Seq<Step>, last: String, start: String) -> bool {
    &&& steps.len() == 5
    &&& steps.subrange(0, 2) == merge_steps(last, start)
    &&& steps[2] == Step::RemoveMarker
    &&& steps[3] == Step::StageMarker
    &&& is_commit(steps[4], final_message())
}

/// Runs `split` `n` times.
pub fn split_phase(branches: &mut Vec<String>, n: u8, rng: &mut rand::rngs::StdRng) -> (r: Result<
    Vec<Vec<Step>>,
    KickflipError,
>)
    ensures
        (old(branches)@.len() > 0 || n == 0) <==> r is Ok,
        r is Err ==> r == Err::<Vec<Vec<Step>>, KickflipError>(KickflipError::EmptyBranchPool)
            && final(branches)@ == old(branches)@,
        r is Ok ==> {
            &&& final(branches)@.len() == old(branches)@.len() + n
            &&& final(branches)@.subrange(0, old(branches)@.len() as int) == old(branches)@
            &&& forall|k: int|
                old(branches)@.len() <= k < final(branches)@.len() ==> is_branch_name(
                    (#[trigger] final(branches)@[k])@,
                )
            &&& r->Ok_0@.len() == n
            &&& forall|k: int|
                0 <= k < n ==> #[trigger] split_batch(
                    r->Ok_0@,
                    final(branches)@,
                    old(branches)@.len() as int,
                    k,
                )
        },
{
    let ghost start = branches@;
    let mut batches: Vec<Vec<Step>> = Vec::new();
    let mut i: u8 = 0;
    while i < n
        invariant
            start == old(branches)@,
            i <= n,
            i > 0 ==> start.len() > 0,
            branches@.len() == start.len() + i,
            branches@.subrange(0, start.len() as int) == start,
            forall|k: int|
                start.len() <= k < branches@.len() ==> is_branch_name(
                    (#[trigger] branches@[k])@,
                ),
            batches@.len() == i,
            forall|k: int| 0 <= k < i ==> #[trigger] split_batch(batches@, branches@, start.len() as int, k),
        decreases n - i,
    {
        let ghost prev = branches@;
        let ghost prev_batches = batches@;
        let steps = match split(branches, rng) {
            Ok(s) => s,
            Err(e) => {
                assert(prev.len() == 0);
                assert(start.len() == 0);
                assert(branches@ =~= start);
                return Err(e);
            },
        };
        batches.push(steps);
        assert(branches@.subrange(0, start.len() as int) =~= start) by {
            assert forall|k: int| 0 <= k < start.len() implies branches@[k] == start[k] by {
                assert(branches@.drop_last()[k] == branches@[k]);
                assert(prev[k] == prev.subrange(0, start.len() as int)[k]);
            }
        }
        assert forall|k: int|
            start.len() <= k < branches@.len() implies is_branch_name(
            (#[trigger] branches@[k])@,
        ) by {
            if k < prev.len() {
                assert(branches@[k] == branches@.drop_last()[k]);
            }
        }
        assert forall|k: int| 0 <= k < i + 1 implies #[trigger] split_batch(
            batches@,
            branches@,
            start.len() as int,
            k,
        ) by {
            if k < i {
                assert(split_batch(prev_batches, prev, start.len() as int, k));
                let j = choose|j: int|
                    0 <= j < start.len() + k && is_branch_off(
                        prev_batches[k]@,
                        #[trigger] prev[j],
                        prev[start.len() + k],
                    );
                assert(branches@.drop_last()[j] == branches@[j]);
                assert(branches@.drop_last()[start.len() + k] == branches@[start.len() + k]);
                assert(batches@[k] == prev_batches[k]);
            } else {
                let j = choose|j: int|
                    0 <= j < prev.len() && is_branch_off(
                        steps@,
                        #[trigger] prev[j],
                        branches@.last(),
                    );
                assert(branches@.drop_last()[j] == branches@[j]);
                assert(batches@[k] == steps);
                assert(is_branch_off(batches@[k]@, branches@[j], branches@[start.len() + k]));
            }
        }
        i = i + 1;
    }
    Ok(batches)
}

/// `pools[k + 1]` is `pools[k]` after the permanent join made by batch `k`.
pub open spec fn is_collapse_trace(batches: Seq<Vec<Step>>, pools: Seq<Seq<String>>) -> bool {
    &&& pools.len() == batches.len() + 1
    &&& forall|k: int|
        0 <= k < batches.len() ==> #[trigger] is_permanent_join(batches[k]@, pools[k], pools[k + 1])
}

/// Runs `join_nonpermanent` `n` times; the pool stays as it is.
pub fn join_phase(branches: &mut Vec<String>, n: u8, rng: &mut rand::rngs::StdRng) -> (r: Result<
    Vec<Vec<Step>>,
    KickflipError,
>)
    ensures
        final(branches)@ == old(branches)@,
        (old(branches)@.len() > 0 || n == 0) <==> r is Ok,
        r is Err ==> r == Err::<Vec<Vec<Step>>, KickflipError>(KickflipError::EmptyBranchPool),
        r is Ok ==> r->Ok_0@.len() == n && forall|k: int|
            0 <= k < n ==> merges_within(#[trigger] r->Ok_0@[k]@, old(branches)@),
{
    let mut batches: Vec<Vec<Step>> = Vec::new();
    let mut i: u8 = 0;
    while i < n
        invariant
            branches@ == old(branches)@,
            i <= n,
            i > 0 ==> branches@.len() > 0,
            batches@.len() == i,
            forall|k: int| 0 <= k < i ==> merges_within(#[trigger] batches@[k]@, branches@),
        decreases n - i,
    {
        let steps = match join_nonpermanent(branches, rng) {
            Ok(s) => s,
            Err(e) => {
                return Err(e);
            },
        };
        batches.push(steps);
        assert forall|k: int| 0 <= k < i + 1 implies merges_within(
            #[trigger] batches@[k]@,
            branches@,
        ) by {
            if k == i {
                assert(batches@[k] == steps);
            }
        }
        i = i + 1;
    }
    Ok(batches)
}

/// Runs `join_permanent` while the pool holds more than one branch. A pool
/// of one or more branches ends with exactly one, a member of the old pool,
/// after one merge for each branch that left; each merge takes its guest out
/// of the pool as it was at that point.
pub fn collapse(branches: &mut Vec<String>, rng: &mut rand::rngs::StdRng) -> (r: Vec<Vec<Step>>)
    ensures
        old(branches)@.len() == 0 ==> final(branches)@ == old(branches)@ && r@.len() == 0,
        old(branches)@.len() > 0 ==> {
            &&& final(branches)@.len() == 1
            &&& old(branches)@.contains(final(branches)@[0])
            &&& r@.len() == old(branches)@.len() - 1
        },
        exists|pools: Seq<Seq<String>>|
            #[trigger] is_collapse_trace(r@, pools) && pools[0] == old(branches)@ && pools.last()
                == final(branches)@,
{
    let ghost start = branches@;
    let ghost mut pools: Seq<Seq<String>> = seq![start];
    let mut batches: Vec<Vec<Step>> = Vec::new();
    while branches.len() > 1
        invariant
            start == old(branches)@,
            start.len() == 0 ==> branches@ == start && batches@.len() == 0,
            start.len() > 0 ==> branches@.len() >= 1 && batches@.len() + branches@.len()
                == start.len(),
            forall|x: int| 0 <= x < branches@.len() ==> start.contains(#[trigger] branches@[x]),
            is_collapse_trace(batches@, pools),
            pools[0] == start,
            pools.last() == branches@,
        decreases branches@.len(),
    {
        let ghost prev = branches@;
        let ghost prev_pools = pools;
        let steps = match join_permanent(branches, rng) {
            Ok(s) => s,
            Err(_) => {
                proof {
                    assert(false);
                }
                Vec::new()
            },
        };
        let ghost (g, v) = choose|g: int, v: int|
            0 <= g < prev.len() && 0 <= v < prev.len() && steps@ == merge_steps(
                #[trigger] prev[g],
                #[trigger] prev[v],
            ) && branches@ == prev.remove(g);
        assert forall|x: int| 0 <= x < branches@.len() implies start.contains(
            #[trigger] branches@[x],
        ) by {
            if x < g {
                assert(branches@[x] == prev[x]);
            } else {
                assert(branches@[x] == prev[x + 1]);
            }
        }
        let ghost prev_batches = batches@;
        batches.push(steps);
        proof {
            pools = pools.push(branches@);
        }
        assert forall|k: int| 0 <= k < batches@.len() implies #[trigger] is_permanent_join(
            batches@[k]@,
            pools[k],
            pools[k + 1],
        ) by {
            if k < prev_batches.len() {
                assert(batches@[k] == prev_batches[k]);
                assert(pools[k] == prev_pools[k]);
                assert(pools[k + 1] == prev_pools[k + 1]);
                assert(is_permanent_join(prev_batches[k]@, prev_pools[k], prev_pools[k + 1]));
            } else {
                assert(batches@[k] == steps);
                assert(pools[k] == prev);
            }
        }
    }
    proof {
        if start.len() > 0 {
            assert(start.contains(branches@[0]));
        }
    }
    assert(is_collapse_trace(batches@, pools));
    batches
}

/// Takes the last branch out of the pool and merges it into `start`, then
/// removes the marker file and commits its removal.
pub fn finalize(branches: &mut Vec<String>, start: &String) -> (r: Result<Vec<Step>, KickflipError>)
    ensures
        old(branches)@.len() == 0 <==> r == Err::<Vec<Step>, KickflipError>(
            KickflipError::EmptyBranchPool,
        ),
        old(branches)@.len() > 0 <==> r is Ok,
        r is Err ==> final(branches)@ == old(branches)@,
        r is Ok ==> final(branches)@ == old(branches)@.drop_last() && is_finalize(
            r->Ok_0@,
            old(branches)@.last(),
            *start,
        ),
{
    let last = match branches.pop() {
        Some(b) => b,
        None => {
            return Err(KickflipError::EmptyBranchPool);
        },
    };
    let mut steps = merge_into(&last, start);
    steps.push(Step::RemoveMarker);
    steps.push(Step::StageMarker);
    steps.push(Step::Commit(String::from_str("End of Kickflip")));
    assert(steps@.subrange(0, 2) =~= merge_steps(last, *start));
    Ok(steps)
}

} // verus!
