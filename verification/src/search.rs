//! Finding the first index that satisfies a condition.

use vstd::prelude::*;

verus! {

/// The least `i` with `lo <= i < hi` and `p(i)`, if there is one.
pub open spec fn least_from(lo: int, hi: int, p: spec_fn(int) -> bool) -> Option<int>
    decreases hi - lo,
{
    if lo >= hi {
        None
    } else if p(lo) {
        Some(lo)
    } else {
        least_from(lo + 1, hi, p)
    }
}

/// What [`least_from`] returns is the least index that satisfies `p`, and it
/// returns `None` only when no index in range satisfies `p`.
pub proof fn lemma_least_from(lo: int, hi: int, p: spec_fn(int) -> bool)
    ensures
        match least_from(lo, hi, p) {
            Some(i) => lo <= i < hi && p(i) && forall|j: int| lo <= j < i ==> !#[trigger] p(j),
            None => forall|j: int| lo <= j < hi ==> !#[trigger] p(j),
        },
    decreases hi - lo,
{
    if lo < hi && !p(lo) {
        lemma_least_from(lo + 1, hi, p);
    }
}

} // verus!
