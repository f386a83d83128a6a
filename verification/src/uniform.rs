//! Splitting a coordinate into two short parts.
//!
//! A renderer that computes with numbers of 24 significant bits gets each
//! coordinate as a pair: a big part, the coordinate rounded to the nearest
//! such number, and a small part, what the big part leaves over, rounded in
//! the same way. Their sum is the coordinate as far as 48 bits reach:
//! numbers under one are split without loss, larger ones lose their lowest
//! bits.

use vstd::prelude::*;
use vstd::arithmetic::div_mod::lemma_div_denominator;
use vstd::arithmetic::div_mod::lemma_div_is_ordered;
use vstd::arithmetic::div_mod::lemma_div_multiples_vanish;
use vstd::arithmetic::div_mod::lemma_fundamental_div_mod;
use vstd::arithmetic::div_mod::lemma_mod_bound;
use vstd::arithmetic::div_mod::lemma_mod_multiples_basic;
use vstd::arithmetic::power2::lemma2_to64;
use vstd::arithmetic::power2::lemma2_to64_rest;
use vstd::arithmetic::power2::lemma_pow2_adds;
use vstd::arithmetic::power2::lemma_pow2_pos;
use vstd::arithmetic::power2::lemma_pow2_strictly_increases;
use vstd::arithmetic::power2::lemma_pow2_unfold;
use vstd::arithmetic::power2::pow2;
use crate::fixed::Fixed;

verus! {

/// Number of significant bits that one part holds.
pub const PART_BITS: u32 = 24;

/// Two to the power of `PART_BITS`: the magnitudes under it need no
/// rounding.
pub const PART_LIMIT: u64 = 0x100_0000;

/// A part of a split coordinate, counted in the same units as a `Fixed`. It
/// is wider than a `Fixed` because the largest coordinates round up to two
/// to the power of 63.
pub type Part = i128;

/// The magnitude of `v`.
pub open spec fn magnitude(v: int) -> nat {
    if v < 0 {
        (-v) as nat
    } else {
        v as nat
    }
}

/// Number of low bits that have to go for the magnitude `m` to fit
/// `PART_BITS` bits.
pub open spec fn dropped_bits(m: nat) -> nat
    decreases m,
{
    if m < PART_LIMIT {
        0
    } else {
        1 + dropped_bits(m / 2)
    }
}

/// The multiple of `unit` nearest to `m`. Halfway between two multiples, the
/// even multiple is taken.
pub open spec fn nearest_multiple(m: nat, unit: nat) -> nat {
    let q = m / unit;
    let r = m % unit;
    if 2 * r < unit || (2 * r == unit && q % 2 == 0) {
        q * unit
    } else {
        (q + 1) * unit
    }
}

/// `v` rounded to the nearest number of `PART_BITS` significant bits, ties
/// to the one whose last kept bit is zero.
pub open spec fn coarse(v: int) -> int {
    let m = magnitude(v);
    let rounded = nearest_multiple(m, pow2(dropped_bits(m))) as int;
    if v < 0 {
        -rounded
    } else {
        rounded
    }
}

/// A coordinate in two parts.
#[derive(Clone, Copy, Debug, PartialEq, Eq, Structural)]
pub struct Split {
    /// The coordinate, rounded to 24 significant bits.
    pub big: Part,
    /// What `big` leaves over, rounded to 24 significant bits. It may have
    /// the other sign.
    pub small: Part,
}

/// What `split` returns.
pub open spec fn spec_split(v: Fixed) -> Split {
    Split { big: coarse(v as int) as Part, small: coarse(v - coarse(v as int)) as Part }
}

/// Halving `e` times is dividing by two to the power of `e`, and the bits
/// still to drop after that are those of the quotient.
proof fn lemma_dropped_bits_step(m: nat, e: nat)
    requires
        m / pow2(e) >= PART_LIMIT,
    ensures
        (m / pow2(e)) / 2 == m / pow2(e + 1),
        dropped_bits(m / pow2(e)) == 1 + dropped_bits(m / pow2(e + 1)),
{
    lemma_pow2_pos(e);
    lemma_pow2_unfold(e + 1);
    lemma_div_denominator(m as int, pow2(e) as int, 2);
    assert(pow2(e) * 2 == 2 * pow2(e)) by (nonlinear_arith);
}

/// The nearest multiple is the multiple below or the one above, and lies
/// within half a unit.
proof fn lemma_nearest_multiple(m: nat, unit: nat)
    requires
        unit > 0,
    ensures
        nearest_multiple(m, unit) == (m / unit) * unit || nearest_multiple(m, unit) == (m / unit
            + 1) * unit,
        (m / unit) * unit <= m < (m / unit + 1) * unit,
        2 * (nearest_multiple(m, unit) - m) <= unit,
        2 * (m - nearest_multiple(m, unit)) <= unit,
        m % unit == 0 ==> nearest_multiple(m, unit) == m,
{
    let q = m / unit;
    let r = m % unit;
    lemma_fundamental_div_mod(m as int, unit as int);
    lemma_mod_bound(m as int, unit as int);
    assert(q * unit == unit * q) by (nonlinear_arith);
    assert((q + 1) * unit == unit * q + unit) by (nonlinear_arith);
}

/// `coarse`, computed.
fn coarse_of(v: i128) -> (r: Part)
    requires
        -0x8000_0000_0000_0000 <= v <= 0x8000_0000_0000_0000,
    ensures
        r as int == coarse(v as int),
{
    let mag: u128 = if v < 0 {
        (-v) as u128
    } else {
        v as u128
    };
    let mut m: u128 = mag;
    let mut unit: u128 = 1;
    let ghost mut e: nat = 0;
    proof {
        lemma2_to64();
        assert(mag as nat / 1 == mag as nat);
    }
    while m >= PART_LIMIT as u128
        invariant
            mag <= 0x8000_0000_0000_0000,
            unit as nat == pow2(e),
            unit >= 1,
            m as nat == mag as nat / pow2(e),
            unit * m <= mag,
            dropped_bits(mag as nat) == e + dropped_bits(m as nat),
        decreases m,
    {
        proof {
            lemma_dropped_bits_step(mag as nat, e);
            lemma_pow2_unfold(e + 1);
            assert(unit * 2 * (m / 2) <= unit * m) by (nonlinear_arith)
                requires
                    unit >= 1,
                    m >= 0,
            ;
            assert(unit * 0x100_0000 <= unit * m) by (nonlinear_arith)
                requires
                    unit >= 1,
                    m >= 0x100_0000,
            ;
            e = e + 1;
        }
        m = m / 2;
        unit = unit * 2;
    }
    proof {
        lemma_pow2_pos(e);
        lemma_nearest_multiple(mag as nat, unit as nat);
        lemma_fundamental_div_mod(mag as int, unit as int);
        assert(m * unit == unit * m) by (nonlinear_arith);
        assert((m + 1) * unit == unit * m + unit) by (nonlinear_arith);
        assert(unit <= unit * m || m == 0) by (nonlinear_arith)
            requires
                unit >= 1,
                m >= 0,
        ;
    }
    let below: u128 = m * unit;
    let rest: u128 = mag - below;
    let up: bool = !(2 * rest < unit || (2 * rest == unit && m % 2 == 0));
    let kept: u128 = if up {
        (m + 1) * unit
    } else {
        below
    };
    if v < 0 {
        -(kept as i128)
    } else {
        kept as i128
    }
}

/// Splits a coordinate into its big and its small part.
pub fn split(v: Fixed) -> (s: Split)
    ensures
        s == spec_split(v),
{
    let big: Part = coarse_of(v as i128);
    proof {
        lemma_coarse_bounds(v as int);
        lemma_unit_of_stored(v);
    }
    let small: Part = coarse_of(v as i128 - big);
    Split { big, small }
}

/// The unit of the last bit kept of a stored number is at most two to the
/// power of 40.
proof fn lemma_unit_of_stored(v: Fixed)
    ensures
        pow2(dropped_bits(magnitude(v as int))) <= 0x100_0000_0000,
{
    let m = magnitude(v as int);
    lemma2_to64();
    lemma2_to64_rest();
    assert(m < pow2(64));
    lemma_dropped_bits_upper(m, 40);
    if dropped_bits(m) < 40 {
        lemma_pow2_strictly_increases(dropped_bits(m), 40);
    }
}

/// Rounding to `PART_BITS` bits keeps the sign, moves a number by at most
/// half a unit of the last bit kept, and leaves a multiple of that unit
/// whose quotient by it is at most two to the power of `PART_BITS`.
pub proof fn lemma_coarse_bounds(v: int)
    ensures
        v >= 0 ==> coarse(v) >= 0,
        v <= 0 ==> coarse(v) <= 0,
        2 * magnitude(v - coarse(v)) <= pow2(dropped_bits(magnitude(v))),
        magnitude(coarse(v)) % pow2(dropped_bits(magnitude(v))) == 0,
        magnitude(coarse(v)) / pow2(dropped_bits(magnitude(v))) <= PART_LIMIT,
        magnitude(v) < PART_LIMIT ==> coarse(v) == v,
{
    let m = magnitude(v);
    let e = dropped_bits(m);
    let unit = pow2(e);
    lemma_pow2_pos(e);
    lemma_nearest_multiple(m, unit);
    let q = m / unit;
    lemma_quotient_fits(m, 0);
    assert(m / pow2(0) == m) by {
        lemma2_to64();
    }
    let n = nearest_multiple(m, unit);
    assert(q >= 0) by {
        vstd::arithmetic::div_mod::lemma_div_pos_is_pos(m as int, unit as int);
    }
    if n == q * unit {
        lemma_mod_multiples_basic(q as int, unit as int);
        lemma_div_multiples_vanish(q as int, unit as int);
        assert(q * unit == unit * q) by (nonlinear_arith);
    } else {
        lemma_mod_multiples_basic((q + 1) as int, unit as int);
        lemma_div_multiples_vanish((q + 1) as int, unit as int);
        assert((q + 1) * unit == unit * (q + 1)) by (nonlinear_arith);
    }
    if m < PART_LIMIT {
        assert(unit == 1) by {
            lemma2_to64();
        }
        assert(m % 1 == 0);
    }
}

/// After dropping the bits that `dropped_bits` counts, a magnitude fits
/// `PART_BITS` bits.
proof fn lemma_quotient_fits(m: nat, e: nat)
    ensures
        m / pow2(e + dropped_bits(m / pow2(e))) < PART_LIMIT,
    decreases m / pow2(e),
{
    lemma_pow2_pos(e);
    let q = m / pow2(e);
    if q < PART_LIMIT {
    } else {
        lemma_dropped_bits_step(m, e);
        lemma_quotient_fits(m, e + 1);
    }
}

/// A magnitude under two to the power of `PART_BITS + k` drops at most `k`
/// bits.
proof fn lemma_dropped_bits_upper(m: nat, k: nat)
    requires
        m < pow2(PART_BITS as nat + k),
    ensures
        dropped_bits(m) <= k,
    decreases k,
{
    lemma2_to64();
    if m >= PART_LIMIT {
        assert(k > 0);
        lemma_pow2_unfold(PART_BITS as nat + k);
        lemma_dropped_bits_upper(m / 2, (k - 1) as nat);
    }
}

/// A magnitude that drops `e` bits, `e` above zero, is at least two to the
/// power of `PART_BITS - 1 + e`.
proof fn lemma_dropped_bits_lower(m: nat)
    requires
        dropped_bits(m) > 0,
    ensures
        m >= pow2((PART_BITS - 1) as nat + dropped_bits(m)),
    decreases m,
{
    lemma2_to64();
    if m / 2 < PART_LIMIT {
        assert(dropped_bits(m / 2) == 0);
    } else {
        lemma_dropped_bits_lower(m / 2);
        lemma_pow2_unfold((PART_BITS - 1) as nat + dropped_bits(m));
    }
}

/// Rounding does not carry a number past a power of two that bounds it.
proof fn lemma_coarse_below_power(v: int, b: nat)
    requires
        magnitude(v) <= pow2(b),
    ensures
        magnitude(coarse(v)) <= pow2(b),
{
    let m = magnitude(v);
    let e = dropped_bits(m);
    let unit = pow2(e);
    lemma_pow2_pos(e);
    lemma_coarse_bounds(v);
    if m >= PART_LIMIT {
        lemma_dropped_bits_lower(m);
        if b <= e {
            lemma2_to64();
            if b < e + 23 {
                lemma_pow2_strictly_increases(b, e + 23);
            }
        }
        let c = pow2((b - e) as nat);
        lemma_pow2_adds((b - e) as nat, e);
        lemma_nearest_multiple(m, unit);
        let q = m / unit;
        lemma_div_is_ordered(m as int, pow2(b) as int, unit as int);
        lemma_div_multiples_vanish(c as int, unit as int);
        assert(unit * c == c * unit) by (nonlinear_arith);
        assert(q <= c);
        if q < c {
            assert((q + 1) * unit <= c * unit) by (nonlinear_arith)
                requires
                    q + 1 <= c,
                    unit > 0,
            ;
        } else {
            assert(q * unit == c * unit);
            assert(m % unit == 0) by {
                lemma_fundamental_div_mod(m as int, unit as int);
                lemma_mod_bound(m as int, unit as int);
                assert(unit * q == q * unit) by (nonlinear_arith);
            }
        }
    }
}

/// A number of magnitude under one is split without loss: its parts add up
/// to it.
pub proof fn lemma_split_exact(v: Fixed)
    requires
        magnitude(v as int) < 0x1_0000_0000_0000,
    ensures
        spec_split(v).big + spec_split(v).small == v,
{
    let big = coarse(v as int);
    let rest = v - big;
    lemma2_to64();
    lemma2_to64_rest();
    lemma_coarse_bounds(v as int);
    lemma_coarse_bounds(rest);
    lemma_dropped_bits_upper(magnitude(v as int), 24);
    let e = dropped_bits(magnitude(v as int));
    if e < 24 {
        lemma_pow2_strictly_increases(e, 24);
    }
    assert(magnitude(rest) < PART_LIMIT);
    lemma_unit_of_stored(v);
}

/// Whatever the number, each part is a number of `PART_BITS` significant
/// bits, the big part lies within two to the power of minus 24 of the
/// number, relative to it, the small part is no larger than that, and the
/// two add up to the number with a relative error of at most two to the
/// power of minus 48.
pub proof fn lemma_split_precision(v: Fixed)
    ensures
        spec_split(v).big == coarse(v as int),
        spec_split(v).small == coarse(v - coarse(v as int)),
        magnitude(v - spec_split(v).big) * 0x100_0000 <= magnitude(v as int),
        magnitude(spec_split(v).small as int) * 0x100_0000 <= magnitude(v as int),
        magnitude(v - spec_split(v).big - spec_split(v).small) * 0x1_0000_0000_0000 <= magnitude(
            v as int,
        ),
{
    let m = magnitude(v as int);
    let e = dropped_bits(m);
    let big = coarse(v as int);
    let rest = v - big;
    let small = coarse(rest);
    lemma2_to64();
    lemma2_to64_rest();
    lemma_coarse_bounds(v as int);
    lemma_coarse_bounds(rest);
    lemma_unit_of_stored(v);
    if e == 0 {
        assert(rest == 0);
        assert(small == 0);
    } else {
        let half = pow2((e - 1) as nat);
        lemma_pow2_unfold(e);
        lemma_pow2_pos((e - 1) as nat);
        lemma_dropped_bits_lower(m);
        lemma_pow2_adds((e - 1) as nat, 24);
        assert(magnitude(rest) <= half);
        lemma_coarse_below_power(rest, (e - 1) as nat);
        assert(magnitude(rest) * 0x100_0000 <= half * 0x100_0000) by (nonlinear_arith)
            requires
                magnitude(rest) <= half,
        ;
        assert(magnitude(small) * 0x100_0000 <= half * 0x100_0000) by (nonlinear_arith)
            requires
                magnitude(small) <= half,
        ;
        let residual = magnitude(rest - small);
        if e <= 24 {
            if e < 24 {
                lemma_pow2_strictly_increases((e - 1) as nat, 23);
            }
            assert(magnitude(rest) < PART_LIMIT);
            assert(residual == 0);
        } else {
            let spare = (e - 24) as nat;
            lemma_pow2_strictly_increases((e - 1) as nat, e);
            lemma_dropped_bits_upper(magnitude(rest), spare);
            let e2 = dropped_bits(magnitude(rest));
            if e2 < spare {
                lemma_pow2_strictly_increases(e2, spare);
            }
            lemma_pow2_adds(spare, 47);
            assert(2 * residual * 0x8000_0000_0000 <= pow2(spare) * 0x8000_0000_0000)
                by (nonlinear_arith)
                requires
                    2 * residual <= pow2(spare),
            ;
        }
    }
}

} // verus!
