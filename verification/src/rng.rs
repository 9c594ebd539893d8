//! The one point where chance enters the library. Every caller states what
//! holds of each possible outcome and never relies on a particular draw.

use vstd::prelude::*;

verus! {

/// Relies on `rand::random_range` over `0..n`: a draw from the thread-local
/// generator, uniform in `[0, n)`. The range must be non-empty or the call
/// panics, hence the precondition.
#[verifier::external_body]
pub(crate) fn random_below(n: u32) -> (r: u32)
    requires
        0 < n,
    ensures
        r < n,
{
    rand::random_range(0..n)
}

} // verus!
