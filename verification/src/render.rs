//! Rendering a whole viewport, pixel by pixel.

use vstd::prelude::*;
use vstd::arithmetic::div_mod::lemma_fundamental_div_mod_converse;
use crate::camera::Camera;
use crate::palette::Color;
use crate::params::FractalParams;

verus! {

/// The colour at position `i` of a viewport stored row by row.
pub open spec fn spec_pixel_at(cam: Camera, params: FractalParams, w: i32, h: i32, i: int) -> Color {
    params.spec_pixel_color(cam, (i % (w as int)) as i32, (i / (w as int)) as i32, w, h)
}

/// The number of pixels before row `y` is no more than the number in the
/// viewport.
proof fn lemma_rows_fit(y: int, w: int, h: int)
    by (nonlinear_arith)
    requires
        0 <= y < h,
        0 < w,
    ensures
        0 <= y * w,
        y * w + w <= h * w,
        (y + 1) * w == y * w + w,
{
}

/// The colours of all pixels of a `w` by `h` viewport, row by row from the
/// first row, each row from its first column.
pub fn render(cam: &Camera, params: &FractalParams, w: i32, h: i32) -> (pixels: Vec<Color>)
    requires
        cam.wf(),
        w > 0,
        h >= 0,
        h * w <= usize::MAX,
    ensures
        pixels.len() == h * w,
        forall|i: int| 0 <= i < pixels.len() ==> pixels[i] == spec_pixel_at(*cam, *params, w, h, i),
{
    let mut pixels: Vec<Color> = Vec::new();
    let mut y: i32 = 0;
    while y < h
        invariant
            cam.wf(),
            w > 0,
            0 <= y <= h,
            h * w <= usize::MAX,
            pixels.len() == y * w,
            forall|i: int|
                0 <= i < pixels.len() ==> pixels[i] == spec_pixel_at(*cam, *params, w, h, i),
        decreases h - y,
    {
        let mut x: i32 = 0;
        proof {
            lemma_rows_fit(y as int, w as int, h as int);
        }
        while x < w
            invariant
                cam.wf(),
                w > 0,
                0 <= y < h,
                0 <= x <= w,
                0 <= y * w,
                y * w + w <= h * w,
                h * w <= usize::MAX,
                pixels.len() == y * w + x,
                forall|i: int|
                    0 <= i < pixels.len() ==> pixels[i] == spec_pixel_at(*cam, *params, w, h, i),
            decreases w - x,
        {
            let color: Color = params.pixel_color(cam, x, y, w, h);
            proof {
                lemma_fundamental_div_mod_converse(y * w + x, w as int, y as int, x as int);
                assert(w * y == y * w) by (nonlinear_arith);
            }
            pixels.push(color);
            x = x + 1;
        }
        y = y + 1;
    }
    pixels
}

} // verus!
