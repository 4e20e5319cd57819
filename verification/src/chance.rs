//! Where the pieces come from.

use vstd::prelude::*;

verus! {

/// A number from `rand::random`, which asks the thread's generator for a
/// uniformly distributed `usize`. It depends on chance alone, so nothing is
/// claimed of it.
#[verifier::external_body]
pub(crate) fn draw() -> (n: usize) {
    rand::random::<usize>()
}

} // verus!
