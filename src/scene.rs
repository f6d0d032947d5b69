//! Nearest-hit selection over a scene.
//!
//! Each sphere's hit along a ray is given as an order key of its distance:
//! any `u64` encoding under which a smaller key means a nearer hit (for
//! positive finite IEEE distances, their bit patterns are such keys).
use vstd::prelude::*;

verus! {

/// `k` is the hit at index `i` of `hits`, no earlier hit is as near, and no
/// later hit is nearer.
pub open spec fn is_nearest(hits: Seq<Option<u64>>, i: int, k: u64) -> bool {
    &&& 0 <= i < hits.len()
    &&& hits[i] == Some(k)
    &&& forall|j: int| 0 <= j < i ==> match #[trigger] hits[j] {
        Some(d) => k < d,
        None => true,
    }
    &&& forall|j: int| i < j < hits.len() ==> match #[trigger] hits[j] {
        Some(d) => k <= d,
        None => true,
    }
}

/// Whether any sphere was hit.
pub open spec fn any_hit(hits: Seq<Option<u64>>) -> bool {
    exists|j: int| 0 <= j < hits.len() && (#[trigger] hits[j]).is_some()
}

/// Scans the per-sphere hits in order and returns the index and key of the
/// nearest one; on equal keys the first in scan order wins. `None` when no
/// sphere was hit.
pub fn nearest_hit(hits: &Vec<Option<u64>>) -> (r: Option<(usize, u64)>)
    ensures
        r is None <==> !any_hit(hits@),
        r matches Some((i, k)) ==> is_nearest(hits@, i as int, k),
{
    let mut best: Option<(usize, u64)> = None;
    let mut i: usize = 0;
    while i < hits.len()
        invariant
            0 <= i <= hits@.len(),
            best is None <==> forall|j: int| 0 <= j < i ==> (#[trigger] hits@[j]) is None,
            best matches Some((b, k)) ==> b < i && is_nearest(hits@.subrange(0, i as int), b as int, k),
        decreases hits@.len() - i,
    {
        let ghost prev = hits@.subrange(0, i as int);
        let ghost next = hits@.subrange(0, i + 1);
        assert(forall|j: int| 0 <= j < i ==> next[j] == prev[j]);
        match hits[i] {
            Some(d) => {
                let closer = match best {
                    None => true,
                    Some((_, k)) => d < k,
                };
                if closer {
                    best = Some((i, d));
                }
            },
            None => {},
        }
        i = i + 1;
    }
    assert(hits@.subrange(0, hits@.len() as int) =~= hits@);
    best
}

} // verus!
