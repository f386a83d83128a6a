//! Escape-time evaluation of the quadratic recurrence `z <- z * z + k`.

use vstd::prelude::*;
use crate::complex::Complex;
use crate::complex::point;
use crate::complex::Point;
use crate::fixed::floor_div;
use crate::fixed::Fixed;
use crate::fixed::ONE;

verus! {

/// The number two: an orbit has escaped once a coordinate of it reaches this
/// magnitude.
pub const ESCAPE_BOUND: Fixed = 0x2_0000_0000_0000;

/// The per-axis escape test: either coordinate has magnitude two or more.
pub open spec fn escaped(z: Point) -> bool {
    ||| z.re <= -(ESCAPE_BOUND as int)
    ||| z.re >= ESCAPE_BOUND as int
    ||| z.im <= -(ESCAPE_BOUND as int)
    ||| z.im >= ESCAPE_BOUND as int
}

/// The square of `z`, each coordinate rounded down to a whole unit.
pub open spec fn square(z: Point) -> Point {
    Point {
        re: (z.re * z.re - z.im * z.im) / (ONE as int),
        im: (2 * z.re * z.im) / (ONE as int),
    }
}

/// One application of the recurrence: `z * z + k`.
pub open spec fn advance(z: Point, k: Point) -> Point {
    square(z).plus(k)
}

/// The iterate reached from `z0` after `n` applications of the recurrence
/// with additive constant `k`.
pub open spec fn orbit(z0: Point, k: Point, n: nat) -> Point
    decreases n,
{
    if n == 0 {
        z0
    } else {
        advance(orbit(z0, k, (n - 1) as nat), k)
    }
}

/// Number of iterates, starting with `z` itself, that are examined before one
/// has escaped, with at most `budget` of them examined: the index of the
/// first escaped iterate of the orbit from `z`, or `budget`.
pub open spec fn escape_time(z: Point, k: Point, budget: nat) -> nat
    decreases budget,
{
    if budget == 0 || escaped(z) {
        0
    } else {
        1 + escape_time(advance(z, k), k, (budget - 1) as nat)
    }
}

/// The iterate from which the recurrence starts for a pixel at `c`: the
/// origin where no Julia parameter is given, the pixel's own coordinate
/// where one is.
pub open spec fn start_for(c: Point, julia_param: Option<Complex>) -> Point {
    match julia_param {
        Some(_) => c,
        None => point(0, 0),
    }
}

/// The additive constant of the recurrence for a pixel at `c`: the Julia
/// parameter where one is given, else the pixel's own coordinate.
pub open spec fn constant_for(c: Point, julia_param: Option<Complex>) -> Point {
    match julia_param {
        Some(j) => j@,
        None => c,
    }
}

/// Number of applications of the recurrence, from the start `z0` on, whose
/// result lies inside the escape bound and which come before the first
/// whose result has escaped, with at most `budget` results examined. A
/// start that already lies outside the bound counts as escaped before any
/// application.
pub open spec fn escape_count(z0: Point, k: Point, budget: nat) -> nat {
    if escaped(z0) {
        0
    } else {
        escape_time(advance(z0, k), k, budget)
    }
}

/// What `iterate` returns: the escape count of the recurrence with the
/// start and the constant that the mode calls for.
pub open spec fn spec_iterate(c: Complex, julia_param: Option<Complex>, max_iterations: u32) -> nat {
    escape_count(
        start_for(c@, julia_param),
        constant_for(c@, julia_param),
        max_iterations as nat,
    )
}

/// Product of two coordinates that lie inside the escape bound.
proof fn lemma_product_bound(a: int, b: int)
    by (nonlinear_arith)
    requires
        -0x2_0000_0000_0000 < a < 0x2_0000_0000_0000,
        -0x2_0000_0000_0000 < b < 0x2_0000_0000_0000,
    ensures
        -0x4_0000_0000_0000_0000_0000_0000 < a * b < 0x4_0000_0000_0000_0000_0000_0000,
{
}

/// The escape test on a pair of coordinates.
fn outside(re: i128, im: i128) -> (out: bool)
    ensures
        out == escaped(point(re as int, im as int)),
{
    re <= -(ESCAPE_BOUND as i128) || re >= ESCAPE_BOUND as i128 || im <= -(ESCAPE_BOUND as i128)
        || im >= ESCAPE_BOUND as i128
}

/// Applies the recurrence once to an iterate that has not escaped.
fn advance_once(re: i128, im: i128, k: Complex) -> (next: (i128, i128))
    requires
        !escaped(point(re as int, im as int)),
    ensures
        point(next.0 as int, next.1 as int) == advance(point(re as int, im as int), k@),
        -0x8000_0000_0000_0000_0000 < next.0 < 0x8000_0000_0000_0000_0000,
        -0x8000_0000_0000_0000_0000 < next.1 < 0x8000_0000_0000_0000_0000,
{
    proof {
        lemma_product_bound(re as int, re as int);
        lemma_product_bound(im as int, im as int);
        lemma_product_bound(re as int, im as int);
        assert(2 * re * im == 2 * (re * im)) by (nonlinear_arith);
    }
    let re_sq: i128 = re * re;
    let im_sq: i128 = im * im;
    let cross: i128 = re * im;
    let diff: i128 = re_sq - im_sq;
    let twice: i128 = 2 * cross;
    proof {
        crate::fixed::lemma_floor_div_bounds(diff as int, ONE as int);
        crate::fixed::lemma_floor_div_bounds(twice as int, ONE as int);
    }
    let sq_re: i128 = floor_div(diff, ONE as i128);
    let sq_im: i128 = floor_div(twice, ONE as i128);
    (sq_re + k.re as i128, sq_im + k.im as i128)
}

/// Counts the applications of `z <- z * z + k` whose result stays inside
/// the escape bound, examining at most `max_iterations` results.
///
/// Without a Julia parameter the recurrence starts at the origin and adds
/// the pixel's coordinate `c`, which gives the Mandelbrot set. With one it
/// starts at `c` and adds the parameter. The two modes differ in nothing
/// else. The result is the index, counted from zero, of the first
/// application whose result has a coordinate of magnitude two or more, or
/// `max_iterations` if none of the first `max_iterations` applications has
/// such a result.
///
/// A start that itself lies outside the bound, which can happen in Julia
/// mode only, gives zero whatever the recurrence would make of it: a pixel
/// outside the bound is reported as escaped at once in both modes.
pub fn iterate(c: Complex, julia_param: Option<Complex>, max_iterations: u32) -> (n: u32)
    ensures
        n as nat == spec_iterate(c, julia_param, max_iterations),
        n <= max_iterations,
{
    let start: Complex = match julia_param {
        Some(_) => c,
        None => Complex { re: 0, im: 0 },
    };
    let k: Complex = match julia_param {
        Some(j) => j,
        None => c,
    };
    if outside(start.re as i128, start.im as i128) {
        return 0;
    }
    let first: (i128, i128) = advance_once(start.re as i128, start.im as i128, k);
    let mut re: i128 = first.0;
    let mut im: i128 = first.1;
    let mut i: u32 = 0;
    while i < max_iterations
        invariant
            i <= max_iterations,
            k@ == constant_for(c@, julia_param),
            -0x8000_0000_0000_0000_0000 < re < 0x8000_0000_0000_0000_0000,
            -0x8000_0000_0000_0000_0000 < im < 0x8000_0000_0000_0000_0000,
            spec_iterate(c, julia_param, max_iterations) == i + escape_time(
                point(re as int, im as int),
                k@,
                (max_iterations - i) as nat,
            ),
        decreases max_iterations - i,
    {
        if outside(re, im) {
            return i;
        }
        let next: (i128, i128) = advance_once(re, im, k);
        re = next.0;
        im = next.1;
        i = i + 1;
    }
    i
}

/// An orbit continued from its second iterate is the orbit itself, one
/// step on.
pub proof fn lemma_orbit_shift(z: Point, k: Point, n: nat)
    ensures
        orbit(advance(z, k), k, n) == orbit(z, k, n + 1),
    decreases n,
{
    if n == 0 {
        assert(orbit(z, k, 0) == z);
        assert(orbit(z, k, 1) == advance(orbit(z, k, 0), k));
    } else {
        lemma_orbit_shift(z, k, (n - 1) as nat);
        assert(orbit(z, k, n + 1) == advance(orbit(z, k, n), k));
    }
}

/// The escape time is the index of the first iterate that has escaped: no
/// iterate before it has, and unless the budget ran out the iterate at it
/// has.
pub proof fn lemma_escape_time_is_first_escape(z: Point, k: Point, budget: nat)
    ensures
        escape_time(z, k, budget) <= budget,
        forall|j: nat| j < escape_time(z, k, budget) ==> !escaped(#[trigger] orbit(z, k, j)),
        escape_time(z, k, budget) < budget ==> escaped(orbit(z, k, escape_time(z, k, budget))),
    decreases budget,
{
    if budget == 0 || escaped(z) {
    } else {
        let next = advance(z, k);
        let rest = escape_time(next, k, (budget - 1) as nat);
        lemma_escape_time_is_first_escape(next, k, (budget - 1) as nat);
        assert forall|j: nat| j < 1 + rest implies !escaped(#[trigger] orbit(z, k, j)) by {
            if j > 0 {
                lemma_orbit_shift(z, k, (j - 1) as nat);
                assert(!escaped(orbit(next, k, (j - 1) as nat)));
            }
        }
        lemma_orbit_shift(z, k, rest);
    }
}

/// From a start inside the bound, the escape count is the index, counted
/// from zero, of the first application of the recurrence whose result has
/// escaped: the results of all applications before it lie inside the bound,
/// and unless the budget ran out the result of the application at it does
/// not.
pub proof fn lemma_escape_count_is_first_escape(z0: Point, k: Point, budget: nat)
    requires
        !escaped(z0),
    ensures
        escape_count(z0, k, budget) <= budget,
        forall|j: nat|
            j < escape_count(z0, k, budget) ==> !escaped(#[trigger] orbit(z0, k, j + 1)),
        escape_count(z0, k, budget) < budget ==> escaped(
            orbit(z0, k, escape_count(z0, k, budget) + 1),
        ),
{
    let first = advance(z0, k);
    let n = escape_count(z0, k, budget);
    lemma_escape_time_is_first_escape(first, k, budget);
    assert forall|j: nat| j < n implies !escaped(#[trigger] orbit(z0, k, j + 1)) by {
        lemma_orbit_shift(z0, k, j);
        assert(!escaped(orbit(first, k, j)));
    }
    lemma_orbit_shift(z0, k, n);
}

/// The first application of the Mandelbrot recurrence gives the pixel's
/// own coordinate.
pub proof fn lemma_first_mandelbrot_iterate(c: Point)
    ensures
        advance(point(0, 0), c) == c,
        !escaped(point(0, 0)),
{
}

/// A pixel that already lies outside the escape bound is reported at
/// iteration zero, in either mode and whatever the budget.
pub proof fn lemma_outside_escapes_at_once(
    c: Complex,
    julia_param: Option<Complex>,
    max_iterations: u32,
)
    requires
        escaped(c@),
    ensures
        spec_iterate(c, julia_param, max_iterations) == 0,
{
    lemma_first_mandelbrot_iterate(c@);
}

/// The origin is a fixed point of the Mandelbrot recurrence, so its orbit
/// exhausts any budget.
pub proof fn lemma_origin_never_escapes(c: Complex, max_iterations: u32)
    requires
        c@ == point(0, 0),
    ensures
        spec_iterate(c, None, max_iterations) == max_iterations,
{
    lemma_first_mandelbrot_iterate(c@);
    lemma_fixed_point_exhausts(c@, c@, max_iterations as nat);
}

/// An orbit that rests on a point inside the escape bound exhausts any
/// budget.
pub proof fn lemma_fixed_point_exhausts(z: Point, k: Point, budget: nat)
    requires
        advance(z, k) == z,
        !escaped(z),
    ensures
        escape_time(z, k, budget) == budget,
    decreases budget,
{
    if budget > 0 {
        lemma_fixed_point_exhausts(z, k, (budget - 1) as nat);
    }
}

/// The two modes run one recurrence and differ in its start and its
/// constant alone: the Julia evaluation of the origin under a parameter is
/// the Mandelbrot evaluation of the pixel that lies at that parameter.
pub proof fn lemma_julia_at_origin_is_mandelbrot(
    origin: Complex,
    param: Complex,
    max_iterations: u32,
)
    requires
        origin@ == point(0, 0),
    ensures
        spec_iterate(origin, Some(param), max_iterations) == spec_iterate(
            param,
            None,
            max_iterations,
        ),
{
}

/// In Mandelbrot mode the result is the index of the first application of
/// the recurrence, started at the origin with the pixel as constant, whose
/// result has escaped.
pub proof fn lemma_mandelbrot_recurrence(c: Complex, max_iterations: u32)
    ensures
        spec_iterate(c, None, max_iterations) <= max_iterations,
        forall|j: nat|
            j < spec_iterate(c, None, max_iterations) ==> !escaped(
                #[trigger] orbit(point(0, 0), c@, j + 1),
            ),
        spec_iterate(c, None, max_iterations) < max_iterations ==> escaped(
            orbit(point(0, 0), c@, spec_iterate(c, None, max_iterations) + 1),
        ),
{
    lemma_escape_count_is_first_escape(point(0, 0), c@, max_iterations as nat);
}

/// In Julia mode the result, for a pixel inside the bound, is the index of
/// the first application of the recurrence, started at the pixel with the
/// parameter as constant, whose result has escaped.
pub proof fn lemma_julia_recurrence(c: Complex, param: Complex, max_iterations: u32)
    requires
        !escaped(c@),
    ensures
        spec_iterate(c, Some(param), max_iterations) <= max_iterations,
        forall|j: nat|
            j < spec_iterate(c, Some(param), max_iterations) ==> !escaped(
                #[trigger] orbit(c@, param@, j + 1),
            ),
        spec_iterate(c, Some(param), max_iterations) < max_iterations ==> escaped(
            orbit(c@, param@, spec_iterate(c, Some(param), max_iterations) + 1),
        ),
{
    lemma_escape_count_is_first_escape(c@, param@, max_iterations as nat);
}

} // verus!
