//! The randomness the optimizer draws, behind trusted declarations.
//!
//! The engine needs uniform fixed-point samples: coordinates in the search
//! interval and update scalars in [0, 1). Both come from `rand`'s `StdRng`
//! through the one wrapper below; nothing is assumed of a sample beyond the
//! range the documentation promises, so every property proved of the engine
//! holds whatever the generator returns.

use vstd::prelude::*;
use rand::Rng;
use crate::fitness::SCALE;
use crate::model::rands_wf;

verus! {

/// Relies on rand::rngs::StdRng: declared so a generator can be carried
/// through verified signatures; its value is opaque to the proofs.
#[verifier::external_type_specification]
#[verifier::external_body]
pub struct ExStdRng(rand::rngs::StdRng);

/// Relies on rand::Rng::gen_range on a half-open range of `i64`: the sample
/// lies in [lo, hi). It panics only on an empty range, which the
/// precondition rules out.
#[verifier::external_body]
pub(crate) fn sample_in_range(rng: &mut rand::rngs::StdRng, lo: i64, hi: i64) -> (r: i64)
    requires
        lo < hi,
    ensures
        lo <= r < hi,
{
    rng.gen_range(lo..hi)
}

/// Draws one pair of update scalars in [0, SCALE) for each particle of a
/// sweep.
pub fn draw_pairs(rng: &mut rand::rngs::StdRng, count: usize) -> (r: Vec<(i64, i64)>)
    ensures
        r@.len() == count,
        rands_wf(r@),
{
    let mut out: Vec<(i64, i64)> = Vec::new();
    let mut k: usize = 0;
    while k < count
        invariant
            k <= count,
            out@.len() == k,
            rands_wf(out@),
        decreases count - k,
    {
        let a: i64 = sample_in_range(rng, 0, SCALE);
        let b: i64 = sample_in_range(rng, 0, SCALE);
        out.push((a, b));
        k = k + 1;
    }
    out
}

} // verus!
