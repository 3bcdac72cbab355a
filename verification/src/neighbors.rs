//! Choice of the nearest other member of a bucket.
//!
//! Distances enter as integer keys that order as the distances do: a smaller
//! key is a smaller distance, equal keys are equal distances.

use vstd::prelude::*;

verus! {

/// `j` is the position of the nearest member other than `me`: no other
/// member has a smaller key, and every other member before `j` has a larger
/// one, so that among equally near members the first met is taken.
pub open spec fn is_nearest_other(keys: Seq<u32>, me: int, j: int) -> bool {
    &&& 0 <= j < keys.len()
    &&& j != me
    &&& forall|k: int| 0 <= k < keys.len() && k != me ==> keys[j] <= #[trigger] keys[k]
    &&& forall|k: int| 0 <= k < j && k != me ==> keys[j] < #[trigger] keys[k]
}

/// `me` has no bucket-mate among the members that `keys` describes.
pub open spec fn is_alone(keys: Seq<u32>, me: int) -> bool {
    keys.len() == 0 || (keys.len() == 1 && me == 0)
}

/// Finds the nearest bucket-mate of the member at position `me`, where
/// `keys[k]` is the key of the distance from that member to the member at
/// position `k`. The entry at `me` itself is never looked at. Returns `None`
/// exactly when the bucket has no other member.
pub fn nearest_other(keys: &[u32], me: usize) -> (nearest: Option<usize>)
    ensures
        match nearest {
            Some(j) => is_nearest_other(keys@, me as int, j as int),
            None => is_alone(keys@, me as int),
        },
{
    let mut best: Option<usize> = None;
    for k in 0..keys.len()
        invariant
            match best {
                Some(j) => is_nearest_other(keys@.take(k as int), me as int, j as int),
                None => is_alone(keys@.take(k as int), me as int),
            },
    {
        if k != me {
            let closer: bool = match best {
                Some(j) => keys[k] < keys[j],
                None => true,
            };
            if closer {
                best = Some(k);
            }
        }
    }
    proof {
        assert(keys@.take(keys.len() as int) == keys@);
    }
    best
}

/// At most one position is the nearest other member.
pub proof fn lemma_nearest_other_unique(keys: Seq<u32>, me: int, a: int, b: int)
    requires
        is_nearest_other(keys, me, a),
        is_nearest_other(keys, me, b),
    ensures
        a == b,
{
    if a < b {
        assert(keys[b] < keys[a]);
        assert(keys[a] <= keys[b]);
    } else if b < a {
        assert(keys[a] < keys[b]);
        assert(keys[b] <= keys[a]);
    }
}

} // verus!
