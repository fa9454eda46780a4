//! The one source of randomness the engine draws from.

use vstd::prelude::*;

verus! {

/// Draws one `u64` from `rand::random`, which samples the generator of the
/// calling thread uniformly over the whole type and gives up only where the
/// operating system cannot seed that generator. Nothing is claimed of the
/// value: every caller is verified for whatever comes back.
#[verifier::external_body]
pub(crate) fn random_u64() -> (r: u64) {
    rand::random::<u64>()
}

} // verus!
