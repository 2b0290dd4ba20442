//! The library's one source of randomness.

use vstd::prelude::*;
use rand::Rng;

verus! {

/// Relies on rand's `Rng::gen_range` over `thread_rng`: one draw,
/// uniform over the half-open range handed to it, so always below one
/// million. Nothing else is assumed of which value comes back.
#[verifier::external_body]
pub(crate) fn random_unit_ppm() -> (r: u64)
    ensures
        r < 1_000_000,
{
    rand::thread_rng().gen_range(0u64..1_000_000u64)
}

} // verus!
