//! Half-open time intervals and the overlap relation that the timeline
//! store's consistency rests on.

use vstd::prelude::*;

verus! {

/// Two half-open ranges `[s1, e1)` and `[s2, e2)` overlap iff
/// `s1 < e2 && e1 > s2`.
pub open spec fn overlaps(s1: int, e1: int, s2: int, e2: int) -> bool {
    s1 < e2 && e1 > s2
}

/// Adjacent intervals do not overlap: when one ends exactly where the
/// other starts, the half-open ranges `[s1, e1)` and `[e1, e2)` are
/// disjoint.
pub proof fn lemma_adjacent_intervals_disjoint(s1: int, e1: int, e2: int)
    ensures
        !overlaps(s1, e1, e1, e2),
        !overlaps(e1, e2, s1, e1),
{
}

/// The executable overlap test, equal to the spec relation.
pub fn intervals_overlap(s1: i64, e1: i64, s2: i64, e2: i64) -> (r: bool)
    ensures
        r == overlaps(s1 as int, e1 as int, s2 as int, e2 as int),
{
    s1 < e2 && e1 > s2
}

} // verus!
