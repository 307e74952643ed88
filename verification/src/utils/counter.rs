//! Counters that hand out numbers.
use vstd::prelude::*;

verus! {

/// The number that follows `n`; the largest one is followed by zero.
pub open spec fn number_after(n: usize) -> usize {
    if n < usize::MAX {
        (n + 1) as usize
    } else {
        0
    }
}

/// Counting goes up by one, and starts over at zero only behind the largest number: no number is
/// followed by itself, and no two numbers are followed by the same one.
pub proof fn law_counting_goes_up_by_one(n: usize, m: usize)
    ensures
        n < usize::MAX ==> number_after(n) == n + 1,
        n == usize::MAX ==> number_after(n) == 0,
        number_after(n) != n,
        n != m ==> number_after(n) != number_after(m),
{
}

} // verus!
