use mandelbrot::complex::Complex;
use mandelbrot::escape::iterate;
use mandelbrot::escape::ESCAPE_BOUND;
use mandelbrot::fixed::ONE;

#[test]
fn outside_pixel_escapes_at_iteration_zero() {
    assert_eq!(iterate(Complex::new(2 * ONE, 0), None, 50), 0);
    assert_eq!(iterate(Complex::new(0, -2 * ONE), None, 50), 0);
    assert_eq!(iterate(Complex::new(-3 * ONE, ONE), Some(Complex::new(0, 0)), 50), 0);
    assert_eq!(iterate(Complex::new(i64::MAX, i64::MIN), None, 7), 0);
    assert_eq!(iterate(Complex::new(i64::MIN, 0), Some(Complex::new(i64::MAX, 0)), 7), 0);
}

#[test]
fn escape_bound_is_two() {
    assert_eq!(ESCAPE_BOUND, 2 * ONE);
    // Mandelbrot: the first application gives the pixel itself.
    assert_eq!(iterate(Complex::new(ESCAPE_BOUND, 0), None, 9), 0);
    assert_eq!(iterate(Complex::new(ESCAPE_BOUND - 1, 0), None, 9), 1);
    assert_eq!(iterate(Complex::new(0, -ESCAPE_BOUND), None, 9), 0);
    assert_eq!(iterate(Complex::new(0, 1 - ESCAPE_BOUND), None, 9), 1);
    // Julia: just inside the bound, squared and moved back by four, the
    // first result lies near zero and only the second leaves.
    let back = Complex::new(-4 * ONE, 0);
    assert_eq!(iterate(Complex::new(ESCAPE_BOUND - 1, 0), Some(back), 9), 1);
    assert_eq!(iterate(Complex::new(ESCAPE_BOUND, 0), Some(back), 9), 0);
}

#[test]
fn origin_never_escapes() {
    for n in [0u32, 1, 2, 10, 50, 2048] {
        assert_eq!(iterate(Complex::new(0, 0), None, n), n);
    }
}

#[test]
fn one_plus_i_escapes_at_iteration_one() {
    assert_eq!(iterate(Complex::new(ONE, ONE), None, 10), 1);
}

#[test]
fn budget_caps_the_count() {
    assert_eq!(iterate(Complex::new(ONE, ONE), None, 0), 0);
    assert_eq!(iterate(Complex::new(ONE, ONE), None, 1), 1);
    assert_eq!(iterate(Complex::new(ONE, ONE), None, 2), 1);
    assert_eq!(iterate(Complex::new(0, 0), Some(Complex::new(ONE, ONE)), 1), 1);
    assert_eq!(iterate(Complex::new(ONE, ONE), Some(Complex::new(0, 0)), 0), 0);
}

#[test]
fn minus_one_is_periodic() {
    // 0 -> -1 -> 0 -> -1 -> ... stays bounded.
    assert_eq!(iterate(Complex::new(-ONE, 0), None, 100), 100);
}

#[test]
fn mandelbrot_counts_on_the_real_axis() {
    // 0 -> 1 -> 2: the second application reaches the bound.
    assert_eq!(iterate(Complex::new(ONE, 0), None, 10), 1);
    // 0 -> 1/2 -> 3/4 -> 17/16 -> 417/256 -> escaped.
    assert_eq!(iterate(Complex::new(ONE / 2, 0), None, 10), 4);
}

#[test]
fn julia_starts_at_the_pixel_and_adds_the_parameter() {
    let pixel = Complex::new(ONE, ONE);
    // With parameter zero: (1,1) -> (0,2), escaped at the first application.
    assert_eq!(iterate(pixel, Some(Complex::new(0, 0)), 10), 0);
    // With parameter (0,-2): (1,1) -> (0,0) -> (0,-2), escaped at the second.
    assert_eq!(iterate(pixel, Some(Complex::new(0, -2 * ONE)), 10), 1);
    // The origin under parameter (0,-2) leaves at the first application.
    assert_eq!(iterate(Complex::new(0, 0), Some(Complex::new(0, -2 * ONE)), 10), 0);
    // The origin under parameter (1,1): (0,0) -> (1,1) -> (1,3).
    assert_eq!(iterate(Complex::new(0, 0), Some(pixel), 10), 1);
}

#[test]
fn julia_at_the_origin_is_mandelbrot_at_the_parameter() {
    let points = [
        Complex::new(ONE, ONE),
        Complex::new(ONE / 4, ONE / 2),
        Complex::new(-ONE / 2, ONE / 2),
        Complex::new(-3 * ONE / 4, ONE / 8),
        Complex::new(ONE / 3, -ONE / 3),
        Complex::new(5 * ONE, 0),
    ];
    for p in points {
        assert_eq!(iterate(Complex::new(0, 0), Some(p), 200), iterate(p, None, 200));
    }
    assert_eq!(iterate(Complex::new(-3 * ONE / 4, ONE / 8), None, 200), 25);
    // Starting at the pixel instead of the origin is one application ahead.
    let p = Complex::new(-3 * ONE / 4, ONE / 8);
    assert_eq!(iterate(p, Some(p), 200), 24);
}

#[test]
fn products_round_down() {
    // (1 unit)^2 is far below one unit and rounds down to zero.
    let zero = Complex::new(0, 0);
    assert_eq!(iterate(Complex::new(1, 0), Some(zero), 5), 5);
    // z = (1, -1) units: square = (0, floor(-2 / ONE)) = (0, -1), then
    // (floor(-1 / ONE), 0) = (-1, 0), then (0, 0).
    assert_eq!(iterate(Complex::new(1, -1), Some(zero), 5), 5);
    // The rounding shows with a parameter just inside the bound: the result
    // (0, -1) + (0, -(2 - 1 unit)) reaches the bound only because the cross
    // term rounded down to minus one unit.
    let edge = Complex::new(0, -(2 * ONE - 1));
    assert_eq!(iterate(Complex::new(1, -1), Some(edge), 5), 0);
    assert_eq!(iterate(Complex::new(1, 1), Some(edge), 5), 1);
}
