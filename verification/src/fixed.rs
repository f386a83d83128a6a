//! Fixed-point scalars.
//!
//! A plane coordinate is stored as a signed 64-bit count of units, one unit
//! being `1 / ONE` of the plane's unit length.

use vstd::prelude::*;
use vstd::arithmetic::power2::lemma2_to64;
use vstd::arithmetic::power2::lemma2_to64_rest;
use vstd::arithmetic::power2::pow2;

verus! {

/// A fixed-point number, counted in units of `1 / ONE`.
pub type Fixed = i64;

/// Number of fractional bits of a `Fixed`.
pub const FRAC_BITS: u32 = 48;

/// The number one.
pub const ONE: Fixed = 0x1_0000_0000_0000;

/// One is two to the power of the number of fractional bits.
pub proof fn lemma_one_is_power_of_two()
    ensures
        ONE as nat == pow2(FRAC_BITS as nat),
{
    lemma2_to64();
    lemma2_to64_rest();
}

/// Nearest representable value to `v`.
pub open spec fn saturate(v: int) -> int {
    if v < i64::MIN {
        i64::MIN as int
    } else if v > i64::MAX {
        i64::MAX as int
    } else {
        v
    }
}

/// Narrows a wide intermediate result to a `Fixed`, clamping at the ends of
/// the representable range.
pub fn saturating_narrow(v: i128) -> (r: Fixed)
    ensures
        r as int == saturate(v as int),
{
    if v < i64::MIN as i128 {
        i64::MIN
    } else if v > i64::MAX as i128 {
        i64::MAX
    } else {
        v as i64
    }
}

/// Quotient of `n` by a positive `d`, rounded toward negative infinity.
pub fn floor_div(n: i128, d: i128) -> (q: i128)
    requires
        d > 0,
    ensures
        q as int == (n as int) / (d as int),
{
    proof {
        lemma_floor_div_bounds(n as int, d as int);
    }
    match n.checked_div_euclid(d) {
        Some(q) => q,
        None => 0,
    }
}

/// A floored quotient by a positive divisor lies between zero and the
/// dividend.
pub proof fn lemma_floor_div_bounds(n: int, d: int)
    by (nonlinear_arith)
    requires
        d > 0,
    ensures
        n >= 0 ==> 0 <= n / d <= n,
        n < 0 ==> n <= n / d < 0,
{
}

} // verus!
