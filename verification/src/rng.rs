//! The one boundary to the `rand` crate: everything random the
//! simulation does is drawn through `rand_below`.

use vstd::prelude::*;

verus! {

/// Relies on rand::random_range: a uniform draw from `0..n`, which
/// panics only when the range is empty.  Nothing can be promised about
/// which value comes back, only that it lies below `n`.
#[verifier::external_body]
pub(crate) fn rand_below(n: usize) -> (r: usize)
    requires
        1 <= n,
    ensures
        r < n,
{
    rand::random_range(0..n)
}

} // verus!
