//! The simulation's source of randomness: fresh agents get a random
//! position and heading. Nothing is promised of the drawn values beyond
//! their range; every contract downstream holds for any outcome.
use vstd::prelude::*;
use crate::num::{iabs, lemma_tdiv_abs, tdiv};

verus! {

/// Relies on rand::random: one draw from the process-wide generator.
/// Nothing is known of the value.
#[verifier::external_body]
fn random_u32() -> u32 {
    rand::random::<u32>()
}

/// A random fixed-point coordinate in [0, limit).
pub fn random_below(limit: i64) -> (r: i64)
    requires
        0 < limit <= 10_000_000,
    ensures
        0 <= r < limit,
{
    let draw = random_u32();
    let d64: u64 = draw as u64;
    let l64: u64 = limit as u64;
    proof {
        assert(0 <= (d64 as int) * (l64 as int) <= 42_949_672_950_000_000) by (nonlinear_arith)
            requires
                0 <= d64 <= 4_294_967_295,
                0 < l64 <= 10_000_000,
        ;
        lemma_tdiv_abs((d64 as int) * (l64 as int), 4_294_967_296);
        assert(iabs(tdiv((d64 as int) * (l64 as int), 4_294_967_296)) < l64)
            by (nonlinear_arith)
            requires
                iabs(tdiv((d64 as int) * (l64 as int), 4_294_967_296)) * 4_294_967_296 <= iabs(
                    (d64 as int) * (l64 as int),
                ),
                iabs((d64 as int) * (l64 as int)) == (d64 as int) * (l64 as int),
                0 <= d64 <= 4_294_967_295,
                0 < l64 <= 10_000_000,
        ;
    }
    let wide: u64 = d64 * l64;
    (wide / 4_294_967_296) as i64
}

} // verus!
