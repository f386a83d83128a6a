//! Colours for iteration counts.

use vstd::prelude::*;

verus! {

/// An opaque or translucent colour, one byte per channel.
#[derive(Clone, Copy, Debug, PartialEq, Eq, Structural)]
pub struct Color {
    pub r: u8,
    pub g: u8,
    pub b: u8,
    pub a: u8,
}

/// The colour of the interior: points whose orbit used up the whole budget.
pub open spec fn interior() -> Color {
    Color { r: 0, g: 0, b: 0, a: 255 }
}

/// What `shade` returns. An orbit that used up its budget is black. One that
/// escaped at `iteration` gets a linear gradient: red falls from 255 and
/// green from 128 as the iteration grows, blue stays at 128.
pub open spec fn spec_shade(iteration: u32, max_iterations: u32) -> Color {
    if iteration >= max_iterations {
        interior()
    } else {
        Color {
            r: (255 - iteration as int * 255 / max_iterations as int) as u8,
            g: (128 - iteration as int * 128 / max_iterations as int) as u8,
            b: 128,
            a: 255,
        }
    }
}

/// A product of a count and a channel range, divided by a larger count, is
/// under the channel range.
proof fn lemma_gradient_bound(iteration: int, max_iterations: int, range: int)
    by (nonlinear_arith)
    requires
        0 <= iteration < max_iterations,
        range > 0,
    ensures
        0 <= iteration * range / max_iterations < range,
{
}

/// The colour for an orbit that was examined for `max_iterations` steps and
/// escaped at `iteration`, or did not escape if `iteration` is
/// `max_iterations` or more.
pub fn shade(iteration: u32, max_iterations: u32) -> (c: Color)
    ensures
        c == spec_shade(iteration, max_iterations),
{
    if iteration >= max_iterations {
        Color { r: 0, g: 0, b: 0, a: 255 }
    } else {
        proof {
            lemma_gradient_bound(iteration as int, max_iterations as int, 255);
            lemma_gradient_bound(iteration as int, max_iterations as int, 128);
        }
        let red_drop: u64 = iteration as u64 * 255 / max_iterations as u64;
        let green_drop: u64 = iteration as u64 * 128 / max_iterations as u64;
        Color { r: (255 - red_drop) as u8, g: (128 - green_drop) as u8, b: 128, a: 255 }
    }
}

/// Black is reserved for the interior: an iteration count gets it exactly
/// when the budget was used up.
pub proof fn lemma_interior_is_reserved(iteration: u32, max_iterations: u32)
    ensures
        spec_shade(iteration, max_iterations) == interior() <==> iteration >= max_iterations,
{
}

/// Every escaped orbit gets a colour with red and green above zero.
pub proof fn lemma_gradient_range(iteration: u32, max_iterations: u32)
    requires
        iteration < max_iterations,
    ensures
        1 <= spec_shade(iteration, max_iterations).r <= 255,
        1 <= spec_shade(iteration, max_iterations).g <= 128,
        spec_shade(0, max_iterations).r == 255,
        spec_shade(0, max_iterations).g == 128,
{
    lemma_gradient_bound(iteration as int, max_iterations as int, 255);
    lemma_gradient_bound(iteration as int, max_iterations as int, 128);
    lemma_gradient_bound(0, max_iterations as int, 255);
    lemma_gradient_bound(0, max_iterations as int, 128);
    assert(0int * 255 / max_iterations as int == 0);
    assert(0int * 128 / max_iterations as int == 0);
}

/// The palette is monotonic: a later escape is never brighter in red or
/// green than an earlier one.
pub proof fn lemma_shade_monotonic(earlier: u32, later: u32, max_iterations: u32)
    requires
        earlier <= later < max_iterations,
    ensures
        spec_shade(later, max_iterations).r <= spec_shade(earlier, max_iterations).r,
        spec_shade(later, max_iterations).g <= spec_shade(earlier, max_iterations).g,
{
    let m = max_iterations as int;
    lemma_gradient_bound(earlier as int, m, 255);
    lemma_gradient_bound(earlier as int, m, 128);
    lemma_gradient_bound(later as int, m, 255);
    lemma_gradient_bound(later as int, m, 128);
    vstd::arithmetic::div_mod::lemma_div_is_ordered(earlier as int * 255, later as int * 255, m);
    vstd::arithmetic::div_mod::lemma_div_is_ordered(earlier as int * 128, later as int * 128, m);
}

} // verus!
