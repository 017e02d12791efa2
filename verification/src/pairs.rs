//! Enumeration of the unordered agent pairs of a fleet.
use vstd::prelude::*;

verus! {

/// The pairs `(i, j)` with first index `i` and `i < j < n`, in increasing `j`.
pub open spec fn pairs_with_first(n: int, i: int) -> Seq<(usize, usize)> {
    Seq::new((n - i - 1) as nat, |k: int| (i as usize, (i + 1 + k) as usize))
}

/// The pairs whose first index is below `m`, row after row.
pub open spec fn pairs_below(n: int, m: int) -> Seq<(usize, usize)>
    decreases m,
{
    if m <= 0 {
        Seq::empty()
    } else {
        pairs_below(n, m - 1) + pairs_with_first(n, m - 1)
    }
}

/// Every unordered pair of `n` agents, as `(i, j)` with `i < j`, ordered by
/// `i` and then by `j`.
pub open spec fn all_pairs(n: usize) -> Seq<(usize, usize)> {
    pairs_below(n as int, n as int)
}

/// The number of unordered pairs among `n` agents.
pub open spec fn pair_count(n: int) -> int {
    n * (n - 1) / 2
}

/// `p` comes strictly before `q` in lexicographic order.
pub open spec fn lex_less(p: (usize, usize), q: (usize, usize)) -> bool {
    p.0 < q.0 || (p.0 == q.0 && p.1 < q.1)
}

/// The sequence is strictly increasing in lexicographic order.
pub open spec fn strictly_increasing(s: Seq<(usize, usize)>) -> bool {
    forall|a: int, b: int| 0 <= a < b < s.len() ==> lex_less(#[trigger] s[a], #[trigger] s[b])
}

/// Twice the number of pairs whose first index is below `m`.
proof fn lemma_pairs_below_len(n: int, m: int)
    requires
        0 <= m <= n,
    ensures
        2 * pairs_below(n, m).len() == m * (2 * n - m - 1),
    decreases m,
{
    if m > 0 {
        lemma_pairs_below_len(n, m - 1);
        assert(pairs_with_first(n, m - 1).len() == n - m);
        assert(pairs_below(n, m).len() == pairs_below(n, m - 1).len() + (n - m));
        assert(m * (2 * n - m - 1) == (m - 1) * (2 * n - (m - 1) - 1) + 2 * (n - m))
            by (nonlinear_arith);
    } else {
        assert(m * (2 * n - m - 1) == 0) by (nonlinear_arith)
            requires
                m == 0,
        ;
    }
}

/// Which pairs occur among those whose first index is below `m`.
proof fn lemma_pairs_below_contains(n: int, m: int, p: (usize, usize))
    requires
        0 <= m <= n <= usize::MAX,
    ensures
        pairs_below(n, m).contains(p) <==> (p.0 < m && p.0 < p.1 < n),
    decreases m,
{
    if m > 0 {
        let a = pairs_below(n, m - 1);
        let b = pairs_with_first(n, m - 1);
        lemma_pairs_below_contains(n, m - 1, p);
        assert(pairs_below(n, m) == a + b);
        if pairs_below(n, m).contains(p) {
            let idx = choose|idx: int| 0 <= idx < (a + b).len() && (a + b)[idx] == p;
            if idx >= a.len() {
                assert(b[idx - a.len()] == p);
            } else {
                assert(a[idx] == p);
                assert(a.contains(p));
            }
        }
        if p.0 < m && p.0 < p.1 < n {
            if p.0 < m - 1 {
                let idx = choose|idx: int| 0 <= idx < a.len() && a[idx] == p;
                assert((a + b)[idx] == p);
            } else {
                let k = p.1 - m;
                assert(b[k] == p);
                assert((a + b)[a.len() + k] == p);
            }
        }
    }
}

/// Pairs whose first index is below `m` come in strictly increasing
/// lexicographic order, each with a first index below `m`.
proof fn lemma_pairs_below_ordered(n: int, m: int)
    requires
        0 <= m <= n <= usize::MAX,
    ensures
        strictly_increasing(pairs_below(n, m)),
        forall|k: int| 0 <= k < pairs_below(n, m).len() ==> #[trigger] pairs_below(n, m)[k].0 < m,
    decreases m,
{
    if m > 0 {
        let a = pairs_below(n, m - 1);
        let b = pairs_with_first(n, m - 1);
        lemma_pairs_below_ordered(n, m - 1);
        let s = a + b;
        assert(pairs_below(n, m) == s);
        assert forall|x: int, y: int| 0 <= x < y < s.len() implies lex_less(
            #[trigger] s[x],
            #[trigger] s[y],
        ) by {
            if y < a.len() {
                assert(s[x] == a[x] && s[y] == a[y]);
            } else if x >= a.len() {
                assert(s[x] == b[x - a.len()] && s[y] == b[y - a.len()]);
            } else {
                assert(s[x] == a[x]);
                assert(s[y] == b[y - a.len()]);
            }
        }
        assert forall|k: int| 0 <= k < s.len() implies #[trigger] s[k].0 < m by {
            if k < a.len() {
                assert(s[k] == a[k]);
            } else {
                assert(s[k] == b[k - a.len()]);
            }
        }
    }
}

/// A fleet of `n` agents has exactly `n * (n - 1) / 2` unordered pairs; in
/// particular a fleet of fewer than two agents has none.
pub proof fn lemma_pair_count(n: usize)
    ensures
        all_pairs(n).len() == pair_count(n as int),
        n < 2 ==> all_pairs(n).len() == 0,
{
    lemma_pairs_below_len(n as int, n as int);
    assert(n * (2 * n - n - 1) == n * (n - 1)) by (nonlinear_arith);
    if n < 2 {
        assert(n * (n - 1) == 0) by (nonlinear_arith)
            requires
                n < 2,
                n >= 0,
        ;
    }
}

/// A pair `(i, j)` is enumerated exactly when `i < j < n`.
pub proof fn lemma_pair_membership(n: usize, p: (usize, usize))
    ensures
        all_pairs(n).contains(p) <==> p.0 < p.1 < n,
{
    lemma_pairs_below_contains(n as int, n as int, p);
}

/// The enumeration is strictly increasing in lexicographic order, so no pair
/// occurs twice, and in every listed pair the first agent precedes the second.
pub proof fn lemma_pairs_ordered(n: usize)
    ensures
        strictly_increasing(all_pairs(n)),
        forall|a: int, b: int|
            0 <= a < b < all_pairs(n).len() ==> #[trigger] all_pairs(n)[a] != #[trigger] all_pairs(n)[b],
        forall|k: int| 0 <= k < all_pairs(n).len() ==> #[trigger] all_pairs(n)[k].0 < all_pairs(n)[k].1 < n,
{
    lemma_pairs_below_ordered(n as int, n as int);
    assert forall|k: int| 0 <= k < all_pairs(n).len() implies #[trigger] all_pairs(n)[k].0
        < all_pairs(n)[k].1 < n by {
        lemma_pair_membership(n, all_pairs(n)[k]);
    }
    assert forall|a: int, b: int| 0 <= a < b < all_pairs(n).len() implies #[trigger] all_pairs(n)[a]
        != #[trigger] all_pairs(n)[b] by {
        assert(lex_less(all_pairs(n)[a], all_pairs(n)[b]));
    }
}

/// Lists every unordered pair of `agent_count` agents, the pair `(i, j)` with
/// `i < j` standing for agents `i` and `j`; pairs come ordered by `i`, then `j`.
pub fn pair_indices(agent_count: usize) -> (pairs: Vec<(usize, usize)>)
    ensures
        pairs@ == all_pairs(agent_count),
        pairs@.len() == pair_count(agent_count as int),
        forall|p: (usize, usize)| pairs@.contains(p) <==> p.0 < p.1 < agent_count,
        strictly_increasing(pairs@),
{
    let n = agent_count;
    let mut pairs: Vec<(usize, usize)> = Vec::new();
    let mut i: usize = 0;
    while i < n
        invariant
            i <= n,
            pairs@ == pairs_below(n as int, i as int),
        decreases n - i,
    {
        let ghost before = pairs@;
        let mut j: usize = i + 1;
        while j < n
            invariant
                i < n,
                i + 1 <= j <= n,
                pairs@ == before + pairs_with_first(n as int, i as int).take(j - i - 1),
            decreases n - j,
        {
            pairs.push((i, j));
            proof {
                assert(pairs_with_first(n as int, i as int).take(j + 1 - i - 1)
                    =~= pairs_with_first(n as int, i as int).take(j - i - 1).push((i, j)));
            }
            j = j + 1;
        }
        proof {
            assert(pairs_with_first(n as int, i as int).take(n - i - 1)
                =~= pairs_with_first(n as int, i as int));
        }
        i = i + 1;
    }
    proof {
        lemma_pair_count(n);
        lemma_pairs_ordered(n);
        assert forall|p: (usize, usize)| pairs@.contains(p) <==> p.0 < p.1 < agent_count by {
            lemma_pair_membership(n, p);
        }
    }
    pairs
}

} // verus!
