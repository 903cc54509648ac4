//! The order in which backward induction visits the decision periods.
use vstd::prelude::*;

verus! {

/// The decision periods of a horizon of `periods` periods, latest first:
/// `periods - 1` down to `1`. Period `periods` is terminal and carries the
/// zero cost, so a horizon of one period has no decision to make.
pub fn decision_periods(periods: usize) -> (r: Vec<usize>)
    ensures
        periods <= 1 ==> r@.len() == 0,
        periods >= 1 ==> r@.len() == periods - 1,
        forall|i: int| 0 <= i < r@.len() ==> r@[i] == periods - 1 - i,
{
    let mut v: Vec<usize> = Vec::new();
    let mut t: usize = if periods > 0 {
        periods - 1
    } else {
        0
    };
    while t >= 1
        invariant
            periods >= 1 ==> t <= periods - 1,
            periods == 0 ==> t == 0,
            periods >= 1 ==> v@.len() == periods - 1 - t,
            periods == 0 ==> v@.len() == 0,
            forall|i: int| 0 <= i < v@.len() ==> v@[i] == periods - 1 - i,
        decreases t,
    {
        v.push(t);
        t = t - 1;
    }
    v
}

} // verus!
