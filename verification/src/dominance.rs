//! The dominant member of a fleet: the one with the greatest amplitude.
use vstd::prelude::*;

verus! {

/// `k` is a position of the greatest key, and no later position holds a key
/// as great: among equally great keys, the last one.
pub open spec fn is_last_max(keys: Seq<u64>, k: int) -> bool {
    &&& 0 <= k < keys.len()
    &&& forall|i: int| 0 <= i < keys.len() ==> #[trigger] keys[i] <= keys[k]
    &&& forall|i: int| k < i < keys.len() ==> #[trigger] keys[i] < keys[k]
}

/// At most one position of a sequence is the last position of its greatest key.
pub proof fn lemma_last_max_unique(keys: Seq<u64>, a: int, b: int)
    requires
        is_last_max(keys, a),
        is_last_max(keys, b),
    ensures
        a == b,
{
    if a < b {
        assert(keys[b] < keys[a]);
        assert(keys[b] <= keys[a] && keys[a] <= keys[b]);
    } else if b < a {
        assert(keys[a] < keys[b]);
        assert(keys[b] <= keys[a]);
    }
}

/// Every non-empty sequence of keys has a last position of its greatest key.
pub proof fn lemma_last_max_exists(keys: Seq<u64>)
    requires
        keys.len() > 0,
    ensures
        exists|k: int| is_last_max(keys, k),
    decreases keys.len(),
{
    if keys.len() == 1 {
        assert(is_last_max(keys, 0));
    } else {
        let front = keys.drop_last();
        lemma_last_max_exists(front);
        let k = choose|k: int| is_last_max(front, k);
        let last = keys.len() - 1;
        if keys[last] >= keys[k] {
            assert forall|i: int| 0 <= i < keys.len() implies #[trigger] keys[i] <= keys[last] by {
                if i < last {
                    assert(front[i] == keys[i]);
                }
            }
            assert(is_last_max(keys, last));
        } else {
            assert forall|i: int| 0 <= i < keys.len() implies #[trigger] keys[i] <= keys[k] by {
                if i < last {
                    assert(front[i] == keys[i]);
                }
            }
            assert forall|i: int| k < i < keys.len() implies #[trigger] keys[i] < keys[k] by {
                if i < last {
                    assert(front[i] == keys[i]);
                }
            }
            assert(is_last_max(keys, k));
        }
    }
}

/// The position of the dominant member, given one order key per member (a
/// greater key for a greater amplitude): the last position of the greatest
/// key, or `None` for an empty fleet.
pub fn dominant_index(keys: &Vec<u64>) -> (dominant: Option<usize>)
    ensures
        dominant is None <==> keys.len() == 0,
        dominant matches Some(k) ==> is_last_max(keys@, k as int),
{
    if keys.len() == 0 {
        return None;
    }
    let mut best: usize = 0;
    let mut i: usize = 1;
    while i < keys.len()
        invariant
            0 < i <= keys.len(),
            best < i,
            forall|j: int| 0 <= j < i ==> #[trigger] keys@[j] <= keys@[best as int],
            forall|j: int| best < j < i ==> #[trigger] keys@[j] < keys@[best as int],
        decreases keys.len() - i,
    {
        if keys[i] >= keys[best] {
            best = i;
        }
        i = i + 1;
    }
    Some(best)
}

} // verus!
