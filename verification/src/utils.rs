use vstd::prelude::*;

verus! {

/// The smaller of two values.
pub fn min(x: usize, y: usize) -> (r: usize)
    ensures
        r == if x < y { x } else { y },
{
    if x < y {
        x
    } else {
        y
    }
}

/// The larger of two values.
pub fn max(x: usize, y: usize) -> (r: usize)
    ensures
        r == if x > y { x } else { y },
{
    if x > y {
        x
    } else {
        y
    }
}

} // verus!
