//! Keeping the pairs on which a per-pair verdict holds.
use vstd::prelude::*;
use crate::pairs::{lex_less, strictly_increasing};

verus! {

/// The pairs among the first `m` whose verdict holds, in their original order.
pub open spec fn kept_prefix(items: Seq<(usize, usize)>, keep: Seq<bool>, m: int) -> Seq<(usize, usize)>
    decreases m,
{
    if m <= 0 {
        Seq::empty()
    } else {
        let rest = kept_prefix(items, keep, m - 1);
        if keep[m - 1] {
            rest.push(items[m - 1])
        } else {
            rest
        }
    }
}

/// The pairs whose verdict holds, in their original order.
pub open spec fn kept(items: Seq<(usize, usize)>, keep: Seq<bool>) -> Seq<(usize, usize)> {
    kept_prefix(items, keep, items.len() as int)
}

/// The number of verdicts among the first `m` that hold.
pub open spec fn count_true_prefix(keep: Seq<bool>, m: int) -> nat
    decreases m,
{
    if m <= 0 {
        0
    } else {
        count_true_prefix(keep, m - 1) + if keep[m - 1] { 1nat } else { 0nat }
    }
}

/// The number of verdicts that hold.
pub open spec fn count_true(keep: Seq<bool>) -> nat {
    count_true_prefix(keep, keep.len() as int)
}

/// Membership, length and order of the kept prefix.
proof fn lemma_kept_prefix(items: Seq<(usize, usize)>, keep: Seq<bool>, m: int)
    requires
        0 <= m <= items.len(),
        items.len() == keep.len(),
    ensures
        kept_prefix(items, keep, m).len() == count_true_prefix(keep, m),
        count_true_prefix(keep, m) <= m,
        forall|p: (usize, usize)|
            kept_prefix(items, keep, m).contains(p) <==> exists|k: int|
                0 <= k < m && #[trigger] keep[k] && items[k] == p,
        strictly_increasing(items) ==> strictly_increasing(kept_prefix(items, keep, m)),
        strictly_increasing(items) ==> forall|x: int, k: int|
            0 <= x < kept_prefix(items, keep, m).len() && m <= k < items.len() ==> lex_less(
                #[trigger] kept_prefix(items, keep, m)[x],
                #[trigger] items[k],
            ),
    decreases m,
{
    if m > 0 {
        lemma_kept_prefix(items, keep, m - 1);
        let rest = kept_prefix(items, keep, m - 1);
        let cur = kept_prefix(items, keep, m);
        assert forall|p: (usize, usize)| cur.contains(p) <==> exists|k: int|
            0 <= k < m && #[trigger] keep[k] && items[k] == p by {
            if cur.contains(p) {
                if keep[m - 1] && p == items[m - 1] {
                    assert(keep[m - 1] && items[m - 1] == p);
                } else {
                    let idx = choose|idx: int| 0 <= idx < cur.len() && cur[idx] == p;
                    if keep[m - 1] {
                        assert(idx < rest.len());
                        assert(rest[idx] == p);
                    }
                    assert(rest.contains(p));
                }
            }
            if exists|k: int| 0 <= k < m && #[trigger] keep[k] && items[k] == p {
                let k = choose|k: int| 0 <= k < m && #[trigger] keep[k] && items[k] == p;
                if k == m - 1 {
                    assert(cur[cur.len() - 1] == p);
                } else {
                    assert(rest.contains(p));
                    let idx = choose|idx: int| 0 <= idx < rest.len() && rest[idx] == p;
                    assert(cur[idx] == p);
                }
            }
        }
        if strictly_increasing(items) {
            assert forall|x: int, y: int| 0 <= x < y < cur.len() implies lex_less(
                #[trigger] cur[x],
                #[trigger] cur[y],
            ) by {
                if y < rest.len() {
                    assert(cur[x] == rest[x] && cur[y] == rest[y]);
                } else {
                    assert(cur[y] == items[m - 1]);
                    assert(cur[x] == rest[x]);
                }
            }
            assert forall|x: int, k: int|
                0 <= x < cur.len() && m <= k < items.len() implies lex_less(
                #[trigger] cur[x],
                #[trigger] items[k],
            ) by {
                if x < rest.len() {
                    assert(cur[x] == rest[x]);
                } else {
                    assert(cur[x] == items[m - 1]);
                    assert(lex_less(items[m - 1], items[k]));
                }
            }
        }
    }
}

/// A pair is kept exactly when some position holds it with a verdict that
/// holds; as many pairs are kept as verdicts hold; and the kept pairs keep
/// their relative order, so a strictly increasing list stays strictly
/// increasing.
pub proof fn lemma_kept(items: Seq<(usize, usize)>, keep: Seq<bool>)
    requires
        items.len() == keep.len(),
    ensures
        kept(items, keep).len() == count_true(keep),
        count_true(keep) <= keep.len(),
        forall|p: (usize, usize)|
            kept(items, keep).contains(p) <==> exists|k: int|
                0 <= k < items.len() && #[trigger] keep[k] && items[k] == p,
        strictly_increasing(items) ==> strictly_increasing(kept(items, keep)),
{
    lemma_kept_prefix(items, keep, items.len() as int);
}

/// Keeps the pairs whose verdict holds, in their original order; `keep[k]` is
/// the verdict on `pairs[k]`.
pub fn select_pairs(pairs: &Vec<(usize, usize)>, keep: &Vec<bool>) -> (selected: Vec<(usize, usize)>)
    requires
        pairs.len() == keep.len(),
    ensures
        selected@ == kept(pairs@, keep@),
        selected@.len() == count_true(keep@),
        forall|p: (usize, usize)|
            selected@.contains(p) <==> exists|k: int|
                0 <= k < pairs.len() && #[trigger] keep@[k] && pairs@[k] == p,
        strictly_increasing(pairs@) ==> strictly_increasing(selected@),
{
    let mut selected: Vec<(usize, usize)> = Vec::new();
    let mut k: usize = 0;
    while k < pairs.len()
        invariant
            k <= pairs.len(),
            pairs.len() == keep.len(),
            selected@ == kept_prefix(pairs@, keep@, k as int),
        decreases pairs.len() - k,
    {
        if keep[k] {
            selected.push(pairs[k]);
        }
        k = k + 1;
    }
    proof {
        lemma_kept(pairs@, keep@);
    }
    selected
}

} // verus!
