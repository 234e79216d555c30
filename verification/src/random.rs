//! Sampling of extension elements from the thread-local random
//! generator.  The draw itself is trusted; the reduction into canonical
//! coefficients is verified.

use vstd::prelude::*;
use crate::params::OefParams;
use crate::quartic::QuarticExtension;
use rand::RngCore;

verus! {

#[verifier::external_type_specification]
#[verifier::external_body]
pub struct ExThreadRng(rand::rngs::ThreadRng);

/// Relies on rand::RngCore::next_u64 for ThreadRng: one draw from the
/// thread-local generator.  Nothing is promised of the value.
#[verifier::external_body]
fn next_random_u64(rng: &mut rand::rngs::ThreadRng) -> u64 {
    rng.next_u64()
}

impl QuarticExtension {
    /// A random extension element: four independent draws, each reduced
    /// into the canonical range.
    pub fn sample(rng: &mut rand::rngs::ThreadRng, params: &OefParams) -> (r: Self)
        requires
            params.wf(),
        ensures
            r.wf(params.p),
    {
        let p = params.p;
        let c0 = next_random_u64(rng) % p;
        let c1 = next_random_u64(rng) % p;
        let c2 = next_random_u64(rng) % p;
        let c3 = next_random_u64(rng) % p;
        QuarticExtension([c0, c1, c2, c3])
    }
}

} // verus!
