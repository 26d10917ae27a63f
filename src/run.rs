//! The plan of a whole run: every step, in the order it is to be carried out.
use vstd::prelude::*;
use crate::branch::{starting_branch, trimmed};
use crate::names::is_branch_name;
use crate::phases::{
    collapse, finalize, is_collapse_trace, is_finalize, join_phase, merges_within, split_batch,
    split_phase,
};
use crate::pool::{KickflipError, Step};

verus! {

/// `batches` are a run from `start` with `splits` splits and `joins`
/// non-permanent joins, where `pool` is the pool once the splits are done
/// and `pools` the pools through the collapse: first the splits, then the
/// non-permanent joins, then one permanent join for each split, then the
/// merge of the branch that is left into `start`.
pub open spec fn is_run(
    batches: Seq<Vec<Step>>,
    pool: Seq<String>,
    pools: Seq<Seq<String>>,
    start: String,
    splits: nat,
    joins: nat,
) -> bool {
    &&& pool.len() == splits + 1
    &&& pool[0] == start
    &&& forall|k: int| 1 <= k < pool.len() ==> is_branch_name((#[trigger] pool[k])@)
    &&& batches.len() == 2 * splits + joins + 1
    &&& forall|k: int| 0 <= k < splits ==> #[trigger] split_batch(batches, pool, 1, k)
    &&& forall|k: int|
        splits <= k < splits + joins ==> merges_within(#[trigger] batches[k]@, pool)
    &&& is_collapse_trace(batches.subrange(splits + joins as int, 2 * splits + joins as int), pools)
    &&& pools[0] == pool
    &&& pools.last().len() == 1
    &&& is_finalize(batches[2 * splits + joins as int]@, pools.last()[0], start)
}

/// Plans a run from `start`: `levels_start` splits, `levels_middle`
/// non-permanent joins, the collapse of the pool, and the final merge.
pub fn plan(start: &String, levels_start: u8, levels_middle: u8, rng: &mut rand::rngs::StdRng) -> (r:
    Vec<Vec<Step>>)
    ensures
        exists|pool: Seq<String>, pools: Seq<Seq<String>>|
            #[trigger] is_run(r@, pool, pools, *start, levels_start as nat, levels_middle as nat),
{
    let mut branches: Vec<String> = Vec::new();
    branches.push(start.clone());
    let mut batches = match split_phase(&mut branches, levels_start, rng) {
        Ok(b) => b,
        Err(_) => {
            proof {
                assert(false);
            }
            Vec::new()
        },
    };
    let ghost pool = branches@;
    let ghost splits = batches@;
    let mut joins = match join_phase(&mut branches, levels_middle, rng) {
        Ok(b) => b,
        Err(_) => {
            proof {
                assert(false);
            }
            Vec::new()
        },
    };
    let ghost join_batches = joins@;
    let mut merges = collapse(&mut branches, rng);
    let ghost merge_batches = merges@;
    let ghost pools = choose|pools: Seq<Seq<String>>|
        #[trigger] is_collapse_trace(merge_batches, pools) && pools[0] == pool && pools.last()
            == branches@;
    let ghost last = branches@[0];
    let closing = match finalize(&mut branches, start) {
        Ok(s) => s,
        Err(_) => {
            proof {
                assert(false);
            }
            Vec::new()
        },
    };
    batches.append(&mut joins);
    batches.append(&mut merges);
    batches.push(closing);
    let ghost n = levels_start as int;
    let ghost m = levels_middle as int;
    assert(pool[0] == start) by {
        assert(pool.subrange(0, 1)[0] == pool[0]);
    }
    assert forall|k: int| 0 <= k < n implies #[trigger] split_batch(batches@, pool, 1, k) by {
        assert(batches@[k] == splits[k]);
        assert(split_batch(splits, pool, 1, k));
    }
    assert forall|k: int| n <= k < n + m implies merges_within(#[trigger] batches@[k]@, pool) by {
        assert(batches@[k] == join_batches[k - n]);
    }
    assert(batches@.subrange(n + m, 2 * n + m) =~= merge_batches);
    assert(batches@[2 * n + m] == closing);
    assert(is_run(batches@, pool, pools, *start, n as nat, m as nat));
    batches
}

/// Plans a whole run, given the branch asked for, if any, and the tool's
/// report of the current branch. A working copy on no branch gets no plan.
pub fn kickflip(
    requested: Option<String>,
    report: &str,
    levels_start: u8,
    levels_middle: u8,
    rng: &mut rand::rngs::StdRng,
) -> (r: Result<Vec<Vec<Step>>, KickflipError>)
    ensures
        trimmed(report@).len() == 0 <==> r == Err::<Vec<Vec<Step>>, KickflipError>(
            KickflipError::NotInBranch,
        ),
        trimmed(report@).len() > 0 <==> r is Ok,
        r is Ok ==> exists|start: String, pool: Seq<String>, pools: Seq<Seq<String>>|
            #[trigger] is_run(
                r->Ok_0@,
                pool,
                pools,
                start,
                levels_start as nat,
                levels_middle as nat,
            ) && (requested is Some ==> start == requested->Some_0) && (requested is None
                ==> start@ == trimmed(report@)),
{
    let start = match starting_branch(requested, report) {
        Ok(b) => b,
        Err(e) => {
            return Err(e);
        },
    };
    let batches = plan(&start, levels_start, levels_middle, rng);
    let ghost (pool, pools) = choose|pool: Seq<String>, pools: Seq<Seq<String>>|
        #[trigger] is_run(batches@, pool, pools, start, levels_start as nat, levels_middle as nat);
    let r: Result<Vec<Vec<Step>>, KickflipError> = Ok(batches);
    assert(is_run(r->Ok_0@, pool, pools, start, levels_start as nat, levels_middle as nat));
    r
}

} // verus!
