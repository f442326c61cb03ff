use vstd::prelude::*;
use crate::fixed::COORD_LIMIT;

verus! {

/// Relies on macroquad::rand::rand: a pseudo-random 32-bit value from the
/// process-wide generator. Nothing is assumed about which value comes back.
#[verifier::external_body]
fn random_u32() -> u32 {
    macroquad::rand::rand()
}

/// A pseudo-random jitter component in `[-amount, amount]`, built from two
/// raw 32-bit draws so the whole span fits even at the largest accepted
/// amount. The range reduction is verified; only the raw draws are trusted.
pub fn sample_jitter(amount: i64) -> (j: i64)
    requires
        0 <= amount <= 2 * (COORD_LIMIT as int),
    ensures
        -amount <= j <= amount,
{
    let hi = random_u32();
    let lo = random_u32();
    let bits: u64 = (hi as u64) * 4_294_967_296u64 + (lo as u64);
    let span: u64 = (2 * amount) as u64 + 1;
    let m: u64 = bits % span;
    let mi: i64 = m as i64;
    -amount + mi
}

} // verus!
