//! Points of the complex plane.

use vstd::prelude::*;
use crate::fixed::Fixed;
use crate::fixed::saturate;

verus! {

/// A point of the plane with unbounded coordinates, counted in the same
/// units as a `Fixed`. This is the mathematical model that contracts speak
/// of; it has no run-time form.
pub struct Point {
    pub re: int,
    pub im: int,
}

/// The point with the given coordinates.
pub open spec fn point(re: int, im: int) -> Point {
    Point { re, im }
}

impl Point {
    /// The componentwise sum of two points.
    pub open spec fn plus(self, other: Point) -> Point {
        Point { re: self.re + other.re, im: self.im + other.im }
    }

    /// Whether both coordinates fit a `Fixed`.
    pub open spec fn representable(self) -> bool {
        &&& i64::MIN <= self.re <= i64::MAX
        &&& i64::MIN <= self.im <= i64::MAX
    }

    /// The nearest point whose coordinates fit a `Fixed`.
    pub open spec fn clamped(self) -> Point {
        Point { re: saturate(self.re), im: saturate(self.im) }
    }

    /// The stored form of a representable point.
    pub open spec fn stored(self) -> Complex {
        Complex { re: self.re as Fixed, im: self.im as Fixed }
    }
}

/// A point of the plane as stored: real and imaginary part, each a
/// fixed-point number.
#[derive(Clone, Copy, Debug, PartialEq, Eq, Structural)]
pub struct Complex {
    pub re: Fixed,
    pub im: Fixed,
}

impl View for Complex {
    type V = Point;

    open spec fn view(&self) -> Point {
        Point { re: self.re as int, im: self.im as int }
    }
}

impl Complex {
    /// The point with the given real and imaginary part.
    pub fn new(re: Fixed, im: Fixed) -> (c: Complex)
        ensures
            c.re == re,
            c.im == im,
    {
        Complex { re, im }
    }
}

} // verus!
