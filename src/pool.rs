//! The branch pool and the single operations that draw from it.
use vstd::prelude::*;
use crate::names::{gen_branch_name, gen_kickflip_content, is_branch_name, is_marker_content};
use crate::random::choose_branch;

verus! {

/// What can go wrong in the library's own decisions.
#[derive(Debug, Clone, Copy, PartialEq, Eq, Structural)]
pub enum KickflipError {
    /// A draw was attempted on an empty branch pool.
    EmptyBranchPool,
    /// The working copy is not on any named branch.
    NotInBranch,
}

/// One action against the version-control tool or the marker file.
#[derive(Debug, PartialEq, Eq)]
pub enum Step {
    /// Switch to an existing branch.
    Checkout(String),
    /// Create a branch at the current position and switch to it.
    CreateBranch(String),
    /// Write the marker file with the given content.
    WriteMarker(String),
    /// Stage the marker file (its new content, or its removal).
    StageMarker,
    /// Commit what is staged, with the given message.
    Commit(String),
    /// Merge the named branch into the current one: never fast-forward,
    /// conflicting hunks taken from the named branch.
    Merge(String),
    /// Remove the marker file from the working tree.
    RemoveMarker,
}

pub open spec fn split_message() -> Seq<char> {
    "Kickflip!"@
}

pub open spec fn final_message() -> Seq<char> {
    "End of Kickflip"@
}

pub open spec fn is_commit(s: Step, message: Seq<char>) -> bool {
    s matches Step::Commit(m) && m@ == message
}

/// The steps that merge `guest` into `receiver`.
pub open spec fn merge_steps(guest: String, receiver: String) -> Seq<Step> {
    seq![Step::Checkout(receiver), Step::Merge(guest)]
}

/// `steps` create branch `to` from branch `from`, with one marker commit on it.
pub open spec fn is_branch_off(steps: Seq<Step>, from: String, to: String) -> bool {
    &&& steps.len() == 5
    &&& steps[0] == Step::Checkout(from)
    &&& steps[1] == Step::CreateBranch(to)
    &&& steps[2] matches Step::WriteMarker(c) && is_marker_content(c@)
    &&& steps[3] == Step::StageMarker
    &&& is_commit(steps[4], split_message())
}

/// `steps` merge a branch of `before` (the guest) into a branch of `before`
/// (the receiver), and `after` is `before` without the guest's entry.
pub open spec fn is_permanent_join(steps: Seq<Step>, before: Seq<String>, after: Seq<String>) -> bool {
    exists|g: int, v: int|
        0 <= g < before.len() && 0 <= v < before.len() && steps == merge_steps(
            #[trigger] before[g],
            #[trigger] before[v],
        ) && after == before.remove(g)
}

/// Steps that merge `guest` into `receiver`, favouring the guest's content.
pub fn merge_into(guest: &String, receiver: &String) -> (r: Vec<Step>)
    ensures
        r@ == merge_steps(*guest, *receiver),
{
    let mut r: Vec<Step> = Vec::new();
    r.push(Step::Checkout(receiver.clone()));
    r.push(Step::Merge(guest.clone()));
    assert(r@ =~= merge_steps(*guest, *receiver));
    r
}

/// Steps that create branch `to` from branch `from` and give it one commit
/// that rewrites the marker file with random content.
pub fn branch_off(from: &String, to: &String, rng: &mut rand::rngs::StdRng) -> (r: Vec<Step>)
    ensures
        is_branch_off(r@, *from, *to),
{
    let content = gen_kickflip_content(rng);
    let mut r: Vec<Step> = Vec::new();
    r.push(Step::Checkout(from.clone()));
    r.push(Step::CreateBranch(to.clone()));
    r.push(Step::WriteMarker(content));
    r.push(Step::StageMarker);
    r.push(Step::Commit(String::from_str("Kickflip!")));
    r
}

/// Draws one branch of the pool, uniformly, and gives its position (the
/// first one that holds that name). An empty pool leaves the random source
/// as it was.
pub fn pick(branches: &Vec<String>, rng: &mut rand::rngs::StdRng) -> (r: Result<usize, KickflipError>)
    ensures
        branches@.len() == 0 <==> r == Err::<usize, KickflipError>(KickflipError::EmptyBranchPool),
        branches@.len() > 0 <==> r is Ok,
        r is Ok ==> r->Ok_0 < branches@.len(),
        branches@.len() == 0 ==> *final(rng) == *old(rng),
{
    if branches.len() == 0 {
        return Err(KickflipError::EmptyBranchPool);
    }
    let chosen = match choose_branch(branches, rng) {
        Some(b) => b,
        None => {
            proof {
                assert(false);
            }
            return Err(KickflipError::EmptyBranchPool);
        },
    };
    let ghost at = choose|i: int| 0 <= i < branches@.len() && #[trigger] branches@[i] == chosen;
    let mut j: usize = 0;
    while j < branches.len()
        invariant
            0 <= at < branches@.len(),
            branches@[at] == chosen,
            j <= at,
        decreases branches@.len() - j,
    {
        if branches[j] == chosen {
            return Ok(j);
        }
        assert(j != at);
        j = j + 1;
    }
    proof {
        assert(false);
    }
    Err(KickflipError::EmptyBranchPool)
}

/// Creates a branch with a fresh name from a branch drawn from the pool, and
/// adds it to the pool.
pub fn split(branches: &mut Vec<String>, rng: &mut rand::rngs::StdRng) -> (r: Result<
    Vec<Step>,
    KickflipError,
>)
    ensures
        old(branches)@.len() == 0 ==> r == Err::<Vec<Step>, KickflipError>(
            KickflipError::EmptyBranchPool,
        ) && final(branches)@ == old(branches)@,
        old(branches)@.len() > 0 ==> r is Ok,
        old(branches)@.len() == 0 ==> *final(rng) == *old(rng),
        r is Ok ==> {
            &&& final(branches)@.len() == old(branches)@.len() + 1
            &&& final(branches)@.drop_last() == old(branches)@
            &&& is_branch_name(final(branches)@.last()@)
            &&& exists|i: int|
                0 <= i < old(branches)@.len() && is_branch_off(
                    r->Ok_0@,
                    #[trigger] old(branches)@[i],
                    final(branches)@.last(),
                )
        },
{
    let from = match pick(branches, rng) {
        Ok(i) => i,
        Err(e) => {
            return Err(e);
        },
    };
    let name = gen_branch_name(rng);
    let steps = branch_off(&branches[from], &name, rng);
    branches.push(name);
    assert(final(branches)@.drop_last() =~= old(branches)@);
    assert(old(branches)@[from as int] == branches@[from as int]);
    Ok(steps)
}

/// Merges a branch drawn from the pool into another one drawn from it; the
/// pool is left as it is. Both may be the same branch.
pub fn join_nonpermanent(branches: &mut Vec<String>, rng: &mut rand::rngs::StdRng) -> (r: Result<
    Vec<Step>,
    KickflipError,
>)
    ensures
        final(branches)@ == old(branches)@,
        old(branches)@.len() == 0 <==> r == Err::<Vec<Step>, KickflipError>(
            KickflipError::EmptyBranchPool,
        ),
        old(branches)@.len() > 0 <==> r is Ok,
        old(branches)@.len() == 0 ==> *final(rng) == *old(rng),
        r is Ok ==> exists|g: int, v: int|
            0 <= g < old(branches)@.len() && 0 <= v < old(branches)@.len() && r->Ok_0@
                == merge_steps(#[trigger] old(branches)@[g], #[trigger] old(branches)@[v]),
{
    let receiver = match pick(branches, rng) {
        Ok(i) => i,
        Err(e) => {
            return Err(e);
        },
    };
    let guest = match pick(branches, rng) {
        Ok(i) => i,
        Err(e) => {
            return Err(e);
        },
    };
    Ok(merge_into(&branches[guest], &branches[receiver]))
}

/// Merges a branch drawn from the pool (the guest) into another one drawn
/// from it (the receiver), then takes the guest out of the pool. Where both
/// draws give the same branch, that entry still leaves the pool.
pub fn join_permanent(branches: &mut Vec<String>, rng: &mut rand::rngs::StdRng) -> (r: Result<
    Vec<Step>,
    KickflipError,
>)
    ensures
        old(branches)@.len() == 0 <==> r == Err::<Vec<Step>, KickflipError>(
            KickflipError::EmptyBranchPool,
        ),
        old(branches)@.len() > 0 <==> r is Ok,
        old(branches)@.len() == 0 ==> *final(rng) == *old(rng),
        r is Err ==> final(branches)@ == old(branches)@,
        r is Ok ==> final(branches)@.len() == old(branches)@.len() - 1,
        r is Ok ==> is_permanent_join(r->Ok_0@, old(branches)@, final(branches)@),
{
    let receiver = match pick(branches, rng) {
        Ok(i) => i,
        Err(e) => {
            return Err(e);
        },
    };
    let guest = match pick(branches, rng) {
        Ok(i) => i,
        Err(e) => {
            return Err(e);
        },
    };
    let steps = merge_into(&branches[guest], &branches[receiver]);
    branches.remove(guest);
    Ok(steps)
}

} // verus!
