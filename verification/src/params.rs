//! What to evaluate: the iteration budget, the mode and the Julia parameter.

use vstd::prelude::*;
use crate::camera::Camera;
use crate::complex::Complex;
use crate::complex::point;
use crate::escape::escape_count;
use crate::escape::iterate;
use crate::escape::spec_iterate;
use crate::palette::shade;
use crate::palette::spec_shade;
use crate::palette::Color;

verus! {

/// Which of the two sets is drawn.
#[derive(Clone, Copy, Debug, PartialEq, Eq, Structural)]
pub enum ShaderKind {
    Mandelbrot,
    Julia,
}

impl ShaderKind {
    /// The other mode.
    pub open spec fn spec_toggled(self) -> ShaderKind {
        match self {
            ShaderKind::Mandelbrot => ShaderKind::Julia,
            ShaderKind::Julia => ShaderKind::Mandelbrot,
        }
    }

    /// The other mode.
    pub fn toggled(self) -> (kind: ShaderKind)
        ensures
            kind == self.spec_toggled(),
    {
        match self {
            ShaderKind::Mandelbrot => ShaderKind::Julia,
            ShaderKind::Julia => ShaderKind::Mandelbrot,
        }
    }

    /// The number that stands for the mode where it is handed on as an
    /// integer: zero for Mandelbrot, one for Julia.
    pub open spec fn spec_index(self) -> i32 {
        match self {
            ShaderKind::Mandelbrot => 0,
            ShaderKind::Julia => 1,
        }
    }

    /// The number that stands for the mode: zero for Mandelbrot, one for
    /// Julia.
    pub fn index(self) -> (i: i32)
        ensures
            i == self.spec_index(),
    {
        match self {
            ShaderKind::Mandelbrot => 0,
            ShaderKind::Julia => 1,
        }
    }
}

/// The parameters of one evaluation. `julia_c` is ignored in Mandelbrot
/// mode.
#[derive(Clone, Copy, Debug, PartialEq, Eq, Structural)]
pub struct FractalParams {
    pub max_iterations: u32,
    pub mode: ShaderKind,
    pub julia_c: Complex,
}

impl FractalParams {
    /// Parameters are well formed when the budget is positive.
    pub open spec fn wf(self) -> bool {
        self.max_iterations > 0
    }

    /// The Julia parameter that the mode calls for: `julia_c` in Julia mode,
    /// none in Mandelbrot mode.
    pub open spec fn julia_param(self) -> Option<Complex> {
        match self.mode {
            ShaderKind::Mandelbrot => None,
            ShaderKind::Julia => Some(self.julia_c),
        }
    }

    /// What `evaluate` returns.
    pub open spec fn spec_evaluate(self, c: Complex) -> nat {
        spec_iterate(c, self.julia_param(), self.max_iterations)
    }

    /// What `pixel_color` returns.
    pub open spec fn spec_pixel_color(self, cam: Camera, x: i32, y: i32, w: i32, h: i32) -> Color {
        let c = cam.spec_transform(x as int, y as int, w as int, h as int).stored();
        spec_shade(self.spec_evaluate(c) as u32, self.max_iterations)
    }

    /// Whether the parameters are well formed.
    pub fn is_valid(&self) -> (ok: bool)
        ensures
            ok == self.wf(),
    {
        self.max_iterations > 0
    }

    /// The escape time of the pixel at `c` under these parameters.
    pub fn evaluate(&self, c: Complex) -> (n: u32)
        ensures
            n as nat == self.spec_evaluate(c),
            n <= self.max_iterations,
    {
        match self.mode {
            ShaderKind::Mandelbrot => iterate(c, None, self.max_iterations),
            ShaderKind::Julia => iterate(c, Some(self.julia_c), self.max_iterations),
        }
    }

    /// The colour of pixel `(x, y)` of a `w` by `h` viewport: the pixel is
    /// mapped to the plane, its orbit evaluated and the escape time shaded.
    pub fn pixel_color(&self, cam: &Camera, x: i32, y: i32, w: i32, h: i32) -> (color: Color)
        requires
            cam.wf(),
            w > 0,
        ensures
            color == self.spec_pixel_color(*cam, x, y, w, h),
    {
        let c: Complex = cam.transform(x, y, w, h);
        assert(c == c@.stored());
        let n: u32 = self.evaluate(c);
        shade(n, self.max_iterations)
    }
}

/// Switching the mode changes the start and the constant of the recurrence
/// and nothing else, and nothing is carried over from one evaluation to the
/// next: in Mandelbrot mode the result is that of the recurrence from the
/// origin with the pixel as constant, whatever the Julia parameter, and in
/// Julia mode it is that of the recurrence from the pixel with the parameter
/// as constant.
pub proof fn lemma_mode_selects_recurrence(params: FractalParams, other: FractalParams, c: Complex)
    requires
        params.max_iterations == other.max_iterations,
        params.mode == other.mode,
    ensures
        params.mode == ShaderKind::Mandelbrot ==> params.spec_evaluate(c) == other.spec_evaluate(c),
        params.mode == ShaderKind::Mandelbrot ==> params.spec_evaluate(c) == escape_count(
            point(0, 0),
            c@,
            params.max_iterations as nat,
        ),
        params.mode == ShaderKind::Julia ==> params.spec_evaluate(c) == escape_count(
            c@,
            params.julia_c@,
            params.max_iterations as nat,
        ),
{
}

/// Toggling the mode twice gives the first mode back.
pub proof fn lemma_toggle_is_involution(kind: ShaderKind)
    ensures
        kind.spec_toggled().spec_toggled() == kind,
        kind.spec_toggled() != kind,
{
}

} // verus!
