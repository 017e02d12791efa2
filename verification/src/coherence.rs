//! Fleet coherence: the share of agent pairs whose frequencies are aligned.
use vstd::prelude::*;
use crate::pairs::pair_count;
use crate::selection::{count_true, count_true_prefix};

verus! {

/// Bounds of a count of holding verdicts, and when it reaches them.
proof fn lemma_count_true_prefix(keep: Seq<bool>, m: int)
    requires
        0 <= m <= keep.len(),
    ensures
        count_true_prefix(keep, m) <= m,
        count_true_prefix(keep, m) == m <==> forall|k: int| 0 <= k < m ==> #[trigger] keep[k],
        count_true_prefix(keep, m) == 0 <==> forall|k: int| 0 <= k < m ==> !#[trigger] keep[k],
    decreases m,
{
    if m > 0 {
        lemma_count_true_prefix(keep, m - 1);
    }
}

/// The count of holding verdicts is at most their number; it equals their
/// number exactly when all hold, and is zero exactly when none holds.
pub proof fn lemma_count_true(keep: Seq<bool>)
    ensures
        count_true(keep) <= keep.len(),
        count_true(keep) == keep.len() <==> forall|k: int| 0 <= k < keep.len() ==> #[trigger] keep[k],
        count_true(keep) == 0 <==> forall|k: int| 0 <= k < keep.len() ==> !#[trigger] keep[k],
{
    lemma_count_true_prefix(keep, keep.len() as int);
}

/// A fleet of at least two agents has at least one pair.
pub proof fn lemma_pair_count_positive(n: int)
    requires
        n >= 2,
    ensures
        pair_count(n) >= 1,
{
    assert(n * (n - 1) >= 2) by (nonlinear_arith)
        requires
            n >= 2,
    ;
}

/// The aligned share of a fleet as `(aligned pairs, all pairs)`, where
/// `aligned[k]` says whether the `k`-th pair (in the order of
/// `pair_indices`) has aligned frequencies; `None` for a fleet of fewer than
/// two agents, whose coherence is perfect by convention.
pub fn aligned_share(agent_count: usize, aligned: &Vec<bool>) -> (share: Option<(usize, usize)>)
    requires
        aligned.len() == pair_count(agent_count as int),
    ensures
        share is None <==> agent_count < 2,
        share matches Some((a, t)) ==> {
            &&& t == pair_count(agent_count as int)
            &&& a == count_true(aligned@)
            &&& 0 < t
            &&& a <= t
        },
{
    if agent_count < 2 {
        return None;
    }
    let mut count: usize = 0;
    let mut k: usize = 0;
    while k < aligned.len()
        invariant
            k <= aligned.len(),
            count == count_true_prefix(aligned@, k as int),
            count <= k,
        decreases aligned.len() - k,
    {
        if aligned[k] {
            count = count + 1;
        }
        k = k + 1;
    }
    proof {
        lemma_pair_count_positive(agent_count as int);
        lemma_count_true(aligned@);
    }
    Some((count, aligned.len()))
}

/// Coherence lies between none and all: a fleet of two or more agents has at
/// least one pair and at most that many aligned pairs; its coherence is
/// perfect (all pairs aligned) exactly when every pair is aligned, and zero
/// exactly when none is.
pub proof fn lemma_coherence_bounds(agent_count: usize, aligned: Seq<bool>)
    requires
        agent_count >= 2,
        aligned.len() == pair_count(agent_count as int),
    ensures
        0 < pair_count(agent_count as int),
        count_true(aligned) <= pair_count(agent_count as int),
        count_true(aligned) == pair_count(agent_count as int) <==> forall|k: int|
            0 <= k < aligned.len() ==> #[trigger] aligned[k],
        count_true(aligned) == 0 <==> forall|k: int| 0 <= k < aligned.len() ==> !#[trigger] aligned[k],
{
    lemma_pair_count_positive(agent_count as int);
    lemma_count_true(aligned);
}

} // verus!
