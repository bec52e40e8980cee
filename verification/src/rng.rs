//! The entropy source.
//!
//! One trusted call into the outside generator; every other uniform
//! helper is verified arithmetic over it.

use vstd::prelude::*;
use rand::Rng;
use crate::fixed::SCALE;

verus! {

/// Relies on rand's `Rng::gen_range` over `0..n`: for a non-empty
/// range it returns a value of the range.  Nothing is assumed about
/// which value comes back.
#[verifier::external_body]
fn random_below(n: u64) -> (r: u64)
    requires
        1 <= n,
    ensures
        r < n,
{
    rand::thread_rng().gen_range(0..n)
}

/// A uniform integer drawn from `[min, max]`.
pub fn random_int_between(min: i32, max: i32) -> (r: i32)
    requires
        min <= max,
    ensures
        min <= r <= max,
{
    let span: u64 = ((max as i64) - (min as i64) + 1) as u64;
    let d = random_below(span);
    ((min as i64) + (d as i64)) as i32
}

/// A uniform fixed-point scalar drawn from `[0, 1)`.
pub fn random_fx_unit() -> (r: i64)
    ensures
        0 <= r < SCALE,
{
    random_below(SCALE as u64) as i64
}

/// A uniform fixed-point scalar drawn from `[min, max]`.
pub fn random_fx_between(min: i64, max: i64) -> (r: i64)
    requires
        min <= max,
        -0x4000_0000_0000_0000 <= min,
        max <= 0x4000_0000_0000_0000,
    ensures
        min <= r <= max,
{
    let span: u64 = ((max as i128) - (min as i128) + 1) as u64;
    let d = random_below(span);
    ((min as i128) + (d as i128)) as i64
}

} // verus!
