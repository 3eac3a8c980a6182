//! The random source. What this module states of the `rand` crate is taken
//! on trust from that crate's documentation and source; nothing here is
//! proved.

use rand::rngs::ThreadRng;
use rand::Rng;
use vstd::prelude::*;

verus! {

/// `rand::rngs::ThreadRng`, the handle to the generator of the calling
/// thread. A value of it is carried around and handed back to `rand`;
/// proofs see nothing inside it.
#[verifier::external_type_specification]
#[verifier::external_body]
pub struct ExThreadRng(ThreadRng);

/// `rand::thread_rng` hands out the handle to the thread's generator.
/// Nothing is claimed of the handle. The call fails only if the operating
/// system cannot seed the generator.
pub assume_specification[ rand::thread_rng ]() -> (rng: ThreadRng)
;

/// `rand::Rng::gen_ratio` on the thread's generator: `true` with
/// probability `numerator / denominator`. Of a single draw only the two
/// certain cases can be stated: with `numerator == denominator` the draw is
/// `true`, with `numerator == 0` it is `false`. The call panics when
/// `denominator` is zero or `numerator` exceeds it, so both are required
/// not to happen.
#[verifier::external_body]
pub(crate) fn gen_ratio(rng: &mut ThreadRng, numerator: u32, denominator: u32) -> (live: bool)
    requires
        0 < denominator,
        numerator <= denominator,
    ensures
        numerator == denominator ==> live,
        numerator == 0 ==> !live,
{
    rng.gen_ratio(numerator, denominator)
}

} // verus!
