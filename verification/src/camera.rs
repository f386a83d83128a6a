//! The camera: which part of the plane a viewport shows.

use vstd::prelude::*;
use crate::complex::point;
use crate::complex::Complex;
use crate::complex::Point;
use crate::fixed::floor_div;
use crate::fixed::lemma_floor_div_bounds;
use crate::fixed::saturate;
use crate::fixed::saturating_narrow;
use crate::fixed::Fixed;
use crate::fixed::ONE;

verus! {

/// Pan and zoom state. `center_x` and `center_y` are the plane coordinates
/// shown at the middle of the viewport; `zoom` is the length of plane that
/// the viewport's width spans.
#[derive(Clone, Copy, Debug, PartialEq, Eq, Structural)]
pub struct Camera {
    pub center_x: Fixed,
    pub center_y: Fixed,
    pub zoom: Fixed,
}

/// Distance on the real axis from the camera's centre to pixel column `x` of
/// a viewport `w` pixels wide: `(x / w - 1 / 2) * zoom`, each term rounded
/// down to a whole unit.
pub open spec fn offset_re(x: int, w: int, zoom: int) -> int {
    (x * zoom) / w - zoom / 2
}

/// Distance on the imaginary axis from the camera's centre to pixel row `y`
/// of a viewport `w` pixels wide and `h` high: `(y / w - h / (2 * w)) * zoom`,
/// each term rounded down to a whole unit. Rows are scaled by the width, so
/// that a pixel is as high as it is wide.
pub open spec fn offset_im(y: int, w: int, h: int, zoom: int) -> int {
    (y * zoom) / w - (h * zoom) / (2 * w)
}

impl Camera {
    /// A camera is well formed when its zoom is positive.
    pub open spec fn wf(self) -> bool {
        self.zoom > 0
    }

    /// The exact plane point under pixel `(x, y)` of a `w` by `h` viewport.
    /// The imaginary axis grows with the row number.
    pub open spec fn plane_point(self, x: int, y: int, w: int, h: int) -> Point {
        Point {
            re: self.center_x + offset_re(x, w, self.zoom as int),
            im: self.center_y + offset_im(y, w, h, self.zoom as int),
        }
    }

    /// What `transform` returns: the plane point under the pixel, clamped to
    /// the representable part of the plane.
    pub open spec fn spec_transform(self, x: int, y: int, w: int, h: int) -> Point {
        self.plane_point(x, y, w, h).clamped()
    }

    /// Length of plane that the viewport spans along each axis: the distance
    /// from its first column to the column just past its last, and the same
    /// for its rows.
    pub open spec fn extent(self, w: int, h: int) -> Point {
        Point {
            re: self.plane_point(w, h, w, h).re - self.plane_point(0, 0, w, h).re,
            im: self.plane_point(w, h, w, h).im - self.plane_point(0, 0, w, h).im,
        }
    }

    /// The camera with the given centre and zoom.
    pub fn new(center_x: Fixed, center_y: Fixed, zoom: Fixed) -> (cam: Camera)
        ensures
            cam.center_x == center_x,
            cam.center_y == center_y,
            cam.zoom == zoom,
    {
        Camera { center_x, center_y, zoom }
    }

    /// Whether the camera is well formed.
    pub fn is_valid(&self) -> (ok: bool)
        ensures
            ok == self.wf(),
    {
        self.zoom > 0
    }

    /// Maps pixel `(x, y)` of a viewport `w` pixels wide and `h` high to the
    /// plane point that the camera shows there. A pixel outside the viewport
    /// maps to the point that the same grid, continued, puts there. A point
    /// that lies beyond the representable part of the plane is clamped to
    /// its edge.
    pub fn transform(&self, x: i32, y: i32, w: i32, h: i32) -> (p: Complex)
        requires
            self.wf(),
            w > 0,
        ensures
            p@ == self.spec_transform(x as int, y as int, w as int, h as int),
    {
        let re: i128 = self.center_x as i128 + horizontal_offset(x, w, self.zoom);
        let im: i128 = self.center_y as i128 + vertical_offset(y, w, h, self.zoom);
        Complex { re: saturating_narrow(re), im: saturating_narrow(im) }
    }

    /// What `zoomed` returns. The zoom shrinks by a tenth of itself for each
    /// notch of the wheel, and stays positive and representable. The centre
    /// moves so that the pixel under the cursor keeps its plane point.
    pub open spec fn spec_zoomed(self, wheel: Fixed, x: int, y: int, w: int, h: int) -> Camera {
        let zoom = zoom_after(self.zoom as int, wheel as int);
        Camera {
            center_x: saturate(
                self.center_x + offset_re(x, w, self.zoom as int) - offset_re(x, w, zoom),
            ) as Fixed,
            center_y: saturate(
                self.center_y + offset_im(y, w, h, self.zoom as int) - offset_im(y, w, h, zoom),
            ) as Fixed,
            zoom: zoom as Fixed,
        }
    }

    /// The camera after the wheel moved by `wheel` notches, a fixed-point
    /// number, with the cursor over pixel `(x, y)`. A positive movement zooms
    /// in.
    pub fn zoomed(&self, wheel: Fixed, x: i32, y: i32, w: i32, h: i32) -> (cam: Camera)
        requires
            self.wf(),
            w > 0,
        ensures
            cam == self.spec_zoomed(wheel, x as int, y as int, w as int, h as int),
            cam.wf(),
    {
        let zoom: Fixed = scaled_zoom(self.zoom, wheel);
        let re: i128 = self.center_x as i128 + horizontal_offset(x, w, self.zoom)
            - horizontal_offset(x, w, zoom);
        let im: i128 = self.center_y as i128 + vertical_offset(y, w, h, self.zoom)
            - vertical_offset(y, w, h, zoom);
        Camera { center_x: saturating_narrow(re), center_y: saturating_narrow(im), zoom }
    }

    /// What `panned` returns: the centre moves against the drag by the
    /// length of plane that `dx` and `dy` pixels span, rounded down.
    pub open spec fn spec_panned(self, dx: int, dy: int, w: int) -> Camera {
        Camera {
            center_x: saturate(self.center_x - (dx * self.zoom) / w) as Fixed,
            center_y: saturate(self.center_y - (dy * self.zoom) / w) as Fixed,
            zoom: self.zoom,
        }
    }

    /// The camera after the cursor dragged the view by `(dx, dy)` pixels.
    pub fn panned(&self, dx: i64, dy: i64, w: i32) -> (cam: Camera)
        requires
            self.wf(),
            w > 0,
        ensures
            cam == self.spec_panned(dx as int, dy as int, w as int),
            cam.wf(),
    {
        let re: i128 = self.center_x as i128 - scaled_pixels(dx, w, self.zoom);
        let im: i128 = self.center_y as i128 - scaled_pixels(dy, w, self.zoom);
        Camera { center_x: saturating_narrow(re), center_y: saturating_narrow(im), zoom: self.zoom }
    }
}

/// The zoom after the wheel moved by `wheel` notches: a tenth less per
/// notch, rounded up to a whole unit, and kept between one unit and the
/// largest representable number.
pub open spec fn zoom_after(zoom: int, wheel: int) -> int {
    let scaled = zoom - (zoom * wheel) / (10 * ONE);
    if scaled < 1 {
        1
    } else {
        saturate(scaled)
    }
}

/// Computes `zoom_after`.
fn scaled_zoom(zoom: Fixed, wheel: Fixed) -> (z: Fixed)
    requires
        zoom > 0,
    ensures
        z as int == zoom_after(zoom as int, wheel as int),
        z > 0,
{
    proof {
        lemma_wide_product_bound(zoom as int, wheel as int);
        lemma_floor_div_bounds(zoom as int * wheel as int, 10 * ONE);
    }
    let product: i128 = zoom as i128 * wheel as i128;
    let scaled: i128 = zoom as i128 - floor_div(product, 10 * (ONE as i128));
    if scaled < 1 {
        1
    } else {
        saturating_narrow(scaled)
    }
}

/// Length of plane that `n` pixels span: `n * zoom / w`, rounded down.
fn scaled_pixels(n: i64, w: i32, zoom: Fixed) -> (r: i128)
    requires
        zoom > 0,
        w > 0,
    ensures
        r as int == (n as int * zoom as int) / (w as int),
        -0x4000_0000_0000_0000_0000_0000_0000_0000 <= r < 0x4000_0000_0000_0000_0000_0000_0000_0000,
        -0x8000_0000 <= n < 0x8000_0000 ==> -0x4000_0000_0000_0000_0000_0000 <= r
            < 0x4000_0000_0000_0000_0000_0000,
{
    proof {
        lemma_wide_product_bound(zoom as int, n as int);
        assert(n as int * zoom as int == zoom as int * n as int) by (nonlinear_arith);
        if -0x8000_0000 <= n < 0x8000_0000 {
            lemma_scaled_bound(n as int, zoom as int);
        }
        lemma_floor_div_bounds(n as int * zoom as int, w as int);
    }
    floor_div(n as i128 * zoom as i128, w as i128)
}

/// Computes `offset_re`.
fn horizontal_offset(x: i32, w: i32, zoom: Fixed) -> (r: i128)
    requires
        zoom > 0,
        w > 0,
    ensures
        r as int == offset_re(x as int, w as int, zoom as int),
        -0x8000_0000_0000_0000_0000_0000 <= r < 0x8000_0000_0000_0000_0000_0000,
{
    proof {
        lemma_floor_div_bounds(zoom as int, 2);
    }
    scaled_pixels(x as i64, w, zoom) - floor_div(zoom as i128, 2)
}

/// Computes `offset_im`.
fn vertical_offset(y: i32, w: i32, h: i32, zoom: Fixed) -> (r: i128)
    requires
        zoom > 0,
        w > 0,
    ensures
        r as int == offset_im(y as int, w as int, h as int, zoom as int),
        -0x8000_0000_0000_0000_0000_0000 <= r < 0x8000_0000_0000_0000_0000_0000,
{
    proof {
        lemma_scaled_bound(h as int, zoom as int);
        lemma_floor_div_bounds(h as int * zoom as int, 2 * w as int);
    }
    scaled_pixels(y as i64, w, zoom) - floor_div(h as i128 * zoom as i128, 2 * (w as i128))
}

/// The product of two numbers of the stored width fits the wide
/// intermediate type.
proof fn lemma_wide_product_bound(a: int, b: int)
    by (nonlinear_arith)
    requires
        0 < a < 0x8000_0000_0000_0000,
        -0x8000_0000_0000_0000 <= b < 0x8000_0000_0000_0000,
    ensures
        -0x4000_0000_0000_0000_0000_0000_0000_0000 <= a * b
            < 0x4000_0000_0000_0000_0000_0000_0000_0000,
{
}

/// A pixel count times a zoom stays far inside the range of the wide
/// intermediate type.
proof fn lemma_scaled_bound(n: int, zoom: int)
    by (nonlinear_arith)
    requires
        -0x8000_0000 <= n < 0x8000_0000,
        0 < zoom < 0x8000_0000_0000_0000,
    ensures
        -0x4000_0000_0000_0000_0000_0000 <= n * zoom < 0x4000_0000_0000_0000_0000_0000,
{
}

/// A floored quotient grows by at least one when the dividend grows by at
/// least the divisor.
proof fn lemma_quotient_steps(a: int, b: int, d: int)
    by (nonlinear_arith)
    requires
        d > 0,
        a + d <= b,
    ensures
        a / d < b / d,
{
    assert((a + d) / d == a / d + 1) by {
        vstd::arithmetic::div_mod::lemma_div_plus_one(a, d);
    }
    vstd::arithmetic::div_mod::lemma_div_is_ordered(a + d, b, d);
}

/// A floored quotient does not shrink when the dividend grows.
proof fn lemma_quotient_ordered(a: int, b: int, d: int)
    requires
        d > 0,
        a <= b,
    ensures
        a / d <= b / d,
{
    vstd::arithmetic::div_mod::lemma_div_is_ordered(a, b, d);
}

/// With a zoom of at least one unit per pixel, a pixel further along an axis
/// maps strictly further along the plane's axis.
proof fn lemma_scaled_strictly_ordered(a: int, b: int, w: int, zoom: int)
    requires
        0 < w <= zoom,
        a < b,
    ensures
        (a * zoom) / w < (b * zoom) / w,
{
    assert(a * zoom + w <= b * zoom) by (nonlinear_arith)
        requires
            0 < w <= zoom,
            a < b,
    ;
    lemma_quotient_steps(a * zoom, b * zoom, w);
}

/// Two neighbouring pixels at the viewport's origin share a plane coordinate
/// when the zoom is under one unit per pixel.
proof fn lemma_scaled_collides(w: int, zoom: int)
    requires
        0 < zoom < w,
    ensures
        (0 * zoom) / w == (1 * zoom) / w,
{
    assert(0 * zoom == 0) by (nonlinear_arith);
    assert(1 * zoom == zoom) by (nonlinear_arith);
    vstd::arithmetic::div_mod::lemma_basic_div(zoom, w);
    vstd::arithmetic::div_mod::lemma_basic_div(0, w);
}

/// The mapping from pixels to plane points is injective on the viewport:
/// where the zoom gives every pixel column at least one unit of plane, two
/// different pixels of the viewport lie under different plane points.
pub proof fn lemma_transform_injective(
    cam: Camera,
    w: int,
    h: int,
    x1: int,
    y1: int,
    x2: int,
    y2: int,
)
    requires
        cam.wf(),
        0 < w <= cam.zoom,
        0 <= x1 < w,
        0 <= x2 < w,
        0 <= y1 < h,
        0 <= y2 < h,
        x1 != x2 || y1 != y2,
    ensures
        cam.plane_point(x1, y1, w, h) != cam.plane_point(x2, y2, w, h),
{
    let zoom = cam.zoom as int;
    if x1 < x2 {
        lemma_scaled_strictly_ordered(x1, x2, w, zoom);
    } else if x2 < x1 {
        lemma_scaled_strictly_ordered(x2, x1, w, zoom);
    } else if y1 < y2 {
        lemma_scaled_strictly_ordered(y1, y2, w, zoom);
    } else {
        lemma_scaled_strictly_ordered(y2, y1, w, zoom);
    }
}

/// The same holds of what `transform` returns, for pixels whose plane
/// points are representable.
pub proof fn lemma_transform_injective_clamped(
    cam: Camera,
    w: int,
    h: int,
    x1: int,
    y1: int,
    x2: int,
    y2: int,
)
    requires
        cam.wf(),
        0 < w <= cam.zoom,
        0 <= x1 < w,
        0 <= x2 < w,
        0 <= y1 < h,
        0 <= y2 < h,
        x1 != x2 || y1 != y2,
        cam.plane_point(x1, y1, w, h).representable(),
        cam.plane_point(x2, y2, w, h).representable(),
    ensures
        cam.spec_transform(x1, y1, w, h) != cam.spec_transform(x2, y2, w, h),
{
    lemma_transform_injective(cam, w, h, x1, y1, x2, y2);
}

/// The real part of a pixel's plane point depends on its column alone and
/// the imaginary part on its row alone; and where the zoom gives every
/// pixel column at least one unit of plane, a column further right lies
/// strictly further along the real axis and a row further down strictly
/// further along the imaginary axis.
pub proof fn lemma_transform_strictly_increasing(
    cam: Camera,
    w: int,
    h: int,
    x1: int,
    y1: int,
    x2: int,
    y2: int,
)
    requires
        cam.wf(),
        0 < w <= cam.zoom,
    ensures
        x1 == x2 ==> cam.plane_point(x1, y1, w, h).re == cam.plane_point(x2, y2, w, h).re,
        y1 == y2 ==> cam.plane_point(x1, y1, w, h).im == cam.plane_point(x2, y2, w, h).im,
        x1 < x2 ==> cam.plane_point(x1, y1, w, h).re < cam.plane_point(x2, y2, w, h).re,
        y1 < y2 ==> cam.plane_point(x1, y1, w, h).im < cam.plane_point(x2, y2, w, h).im,
{
    let zoom = cam.zoom as int;
    if x1 < x2 {
        lemma_scaled_strictly_ordered(x1, x2, w, zoom);
    }
    if y1 < y2 {
        lemma_scaled_strictly_ordered(y1, y2, w, zoom);
    }
}

/// Whatever the zoom, pixels further right or down never map further back:
/// the plane point, clamped or not, grows weakly with the column and with
/// the row.
pub proof fn lemma_transform_ordered(
    cam: Camera,
    w: int,
    h: int,
    x1: int,
    y1: int,
    x2: int,
    y2: int,
)
    requires
        cam.wf(),
        w > 0,
    ensures
        x1 <= x2 ==> cam.plane_point(x1, y1, w, h).re <= cam.plane_point(x2, y2, w, h).re,
        y1 <= y2 ==> cam.plane_point(x1, y1, w, h).im <= cam.plane_point(x2, y2, w, h).im,
        x1 <= x2 ==> cam.spec_transform(x1, y1, w, h).re <= cam.spec_transform(x2, y2, w, h).re,
        y1 <= y2 ==> cam.spec_transform(x1, y1, w, h).im <= cam.spec_transform(x2, y2, w, h).im,
{
    let zoom = cam.zoom as int;
    if x1 <= x2 {
        assert(x1 * zoom <= x2 * zoom) by (nonlinear_arith)
            requires
                x1 <= x2,
                zoom > 0,
        ;
        lemma_quotient_ordered(x1 * zoom, x2 * zoom, w);
    }
    if y1 <= y2 {
        assert(y1 * zoom <= y2 * zoom) by (nonlinear_arith)
            requires
                y1 <= y2,
                zoom > 0,
        ;
        lemma_quotient_ordered(y1 * zoom, y2 * zoom, w);
    }
}

/// On a viewport whose first and last pixel have representable plane
/// points, every pixel has one, and with at least one unit of plane per
/// pixel column `transform` is injective on the whole viewport: it maps no
/// two different pixels to the same stored point.
pub proof fn lemma_transform_injective_on_viewport(cam: Camera, w: int, h: int)
    requires
        cam.wf(),
        0 < w <= cam.zoom,
        0 < h,
        cam.plane_point(0, 0, w, h).representable(),
        cam.plane_point(w - 1, h - 1, w, h).representable(),
    ensures
        forall|x: int, y: int|
            0 <= x < w && 0 <= y < h ==> (#[trigger] cam.plane_point(x, y, w, h)).representable(),
        forall|x1: int, y1: int, x2: int, y2: int|
            0 <= x1 < w && 0 <= x2 < w && 0 <= y1 < h && 0 <= y2 < h && (x1 != x2 || y1 != y2)
                ==> #[trigger] cam.spec_transform(x1, y1, w, h) != #[trigger] cam.spec_transform(
                x2,
                y2,
                w,
                h,
            ),
{
    assert forall|x: int, y: int| 0 <= x < w && 0 <= y < h implies (#[trigger] cam.plane_point(
        x,
        y,
        w,
        h,
    )).representable() by {
        lemma_transform_ordered(cam, w, h, 0, 0, x, y);
        lemma_transform_ordered(cam, w, h, x, y, w - 1, h - 1);
    }
    assert forall|x1: int, y1: int, x2: int, y2: int|
        0 <= x1 < w && 0 <= x2 < w && 0 <= y1 < h && 0 <= y2 < h && (x1 != x2 || y1
            != y2) implies #[trigger] cam.spec_transform(x1, y1, w, h)
        != #[trigger] cam.spec_transform(x2, y2, w, h) by {
        assert(cam.plane_point(x1, y1, w, h).representable());
        assert(cam.plane_point(x2, y2, w, h).representable());
        lemma_transform_injective_clamped(cam, w, h, x1, y1, x2, y2);
    }
}

/// The bound on the zoom in `lemma_transform_injective` is needed: with
/// less than one unit of plane per pixel column, the first two pixels of the
/// first row lie under the same plane point.
pub proof fn lemma_transform_collides(cam: Camera, w: int, h: int)
    requires
        cam.wf(),
        cam.zoom < w,
    ensures
        cam.plane_point(0, 0, w, h) == cam.plane_point(1, 0, w, h),
        cam.spec_transform(0, 0, w, h) == cam.spec_transform(1, 0, w, h),
{
    lemma_scaled_collides(w, cam.zoom as int);
}

/// The viewport spans exactly `zoom` along the real axis, and
/// `h * zoom / w`, rounded down, along the imaginary axis.
pub proof fn lemma_extent(cam: Camera, w: int, h: int)
    requires
        cam.wf(),
        w > 0,
    ensures
        cam.extent(w, h) == point(cam.zoom as int, (h * cam.zoom) / w),
{
    let zoom = cam.zoom as int;
    assert(0 * zoom == 0) by (nonlinear_arith);
    assert(0int / w == 0) by {
        vstd::arithmetic::div_mod::lemma_basic_div(0, w);
    }
    assert((w * zoom) / w == zoom) by {
        vstd::arithmetic::div_mod::lemma_div_multiples_vanish(zoom, w);
    }
}

/// Zooming out widens the view: of two cameras on the same viewport, the
/// one with the larger zoom spans strictly more of the real axis and no
/// less of the imaginary axis.
pub proof fn lemma_zoom_widens(narrow: Camera, wide: Camera, w: int, h: int)
    requires
        narrow.wf(),
        wide.wf(),
        w > 0,
        h >= 0,
        narrow.zoom < wide.zoom,
    ensures
        narrow.extent(w, h).re < wide.extent(w, h).re,
        narrow.extent(w, h).im <= wide.extent(w, h).im,
{
    lemma_extent(narrow, w, h);
    lemma_extent(wide, w, h);
    assert(h * narrow.zoom <= h * wide.zoom) by (nonlinear_arith)
        requires
            h >= 0,
            narrow.zoom < wide.zoom,
    ;
    lemma_quotient_ordered(h * narrow.zoom, h * wide.zoom, w);
}

/// On a viewport at least as high as wide, the larger zoom spans strictly
/// more of the imaginary axis as well.
pub proof fn lemma_zoom_widens_tall(narrow: Camera, wide: Camera, w: int, h: int)
    requires
        narrow.wf(),
        wide.wf(),
        0 < w <= h,
        narrow.zoom < wide.zoom,
    ensures
        narrow.extent(w, h).im < wide.extent(w, h).im,
{
    lemma_extent(narrow, w, h);
    lemma_extent(wide, w, h);
    assert(h * narrow.zoom + w <= h * wide.zoom) by (nonlinear_arith)
        requires
            0 < w <= h,
            narrow.zoom < wide.zoom,
    ;
    lemma_quotient_steps(h * narrow.zoom, h * wide.zoom, w);
}

/// Zooming is anchored at the cursor: unless the new centre had to be
/// clamped, the pixel under the cursor shows the same plane point after the
/// wheel moved as before.
pub proof fn lemma_zoom_keeps_cursor_point(cam: Camera, wheel: Fixed, x: int, y: int, w: int, h: int)
    requires
        cam.wf(),
        w > 0,
        point(
            cam.center_x + offset_re(x, w, cam.zoom as int) - offset_re(
                x,
                w,
                zoom_after(cam.zoom as int, wheel as int),
            ),
            cam.center_y + offset_im(y, w, h, cam.zoom as int) - offset_im(
                y,
                w,
                h,
                zoom_after(cam.zoom as int, wheel as int),
            ),
        ).representable(),
    ensures
        cam.spec_zoomed(wheel, x, y, w, h).plane_point(x, y, w, h) == cam.plane_point(x, y, w, h),
{
}

/// The wheel at rest leaves the camera as it is; moved forward it never
/// widens the view, moved backward it never narrows it.
pub proof fn lemma_zoom_direction(cam: Camera, wheel: Fixed, x: int, y: int, w: int, h: int)
    requires
        cam.wf(),
        w > 0,
    ensures
        wheel == 0 ==> cam.spec_zoomed(wheel, x, y, w, h) == cam,
        wheel >= 0 ==> cam.spec_zoomed(wheel, x, y, w, h).zoom <= cam.zoom,
        wheel <= 0 ==> cam.spec_zoomed(wheel, x, y, w, h).zoom >= cam.zoom,
        cam.spec_zoomed(wheel, x, y, w, h).wf(),
{
    let zoom = cam.zoom as int;
    let product = zoom * wheel as int;
    assert(wheel == 0 ==> product == 0) by (nonlinear_arith)
        requires
            product == zoom * wheel as int,
    ;
    assert(wheel >= 0 ==> product >= 0) by (nonlinear_arith)
        requires
            product == zoom * wheel as int,
            zoom > 0,
    ;
    assert(wheel <= 0 ==> product <= 0) by (nonlinear_arith)
        requires
            product == zoom * wheel as int,
            zoom > 0,
    ;
    lemma_floor_div_bounds(product, 10 * ONE);
    assert(0int / (10 * ONE) == 0);
}

/// A whole number of pixels spans between the sum of what its parts span
/// and one unit more.
proof fn lemma_scaled_sum(a: int, b: int, w: int, zoom: int)
    requires
        w > 0,
    ensures
        (a * zoom) / w + (b * zoom) / w <= ((a + b) * zoom) / w <= (a * zoom) / w + (b * zoom) / w
            + 1,
{
    let p = a * zoom;
    let q = b * zoom;
    assert((a + b) * zoom == p + q) by (nonlinear_arith)
        requires
            p == a * zoom,
            q == b * zoom,
    ;
    vstd::arithmetic::div_mod::lemma_fundamental_div_mod(p, w);
    vstd::arithmetic::div_mod::lemma_fundamental_div_mod(q, w);
    vstd::arithmetic::div_mod::lemma_fundamental_div_mod(p + q, w);
    vstd::arithmetic::div_mod::lemma_mod_bound(p, w);
    vstd::arithmetic::div_mod::lemma_mod_bound(q, w);
    vstd::arithmetic::div_mod::lemma_mod_bound(p + q, w);
    let dp = p / w;
    let dq = q / w;
    let ds = (p + q) / w;
    assert(w * ds - w * dp - w * dq == w * (ds - dp - dq)) by (nonlinear_arith);
    assert(-1 < ds - dp - dq < 2) by (nonlinear_arith)
        requires
            w > 0,
            -w < w * (ds - dp - dq) < 2 * w,
    ;
}

/// A drag carries the view along: unless the new centre had to be clamped,
/// the plane point that was under the cursor when the drag began lies, to
/// within one unit on each axis, under the cursor where the drag ended.
pub proof fn lemma_pan_follows_cursor(cam: Camera, dx: int, dy: int, x: int, y: int, w: int, h: int)
    requires
        cam.wf(),
        w > 0,
        point(
            cam.center_x - (dx * cam.zoom) / w,
            cam.center_y - (dy * cam.zoom) / w,
        ).representable(),
    ensures
        cam.plane_point(x, y, w, h).re <= cam.spec_panned(dx, dy, w).plane_point(
            x + dx,
            y + dy,
            w,
            h,
        ).re <= cam.plane_point(x, y, w, h).re + 1,
        cam.plane_point(x, y, w, h).im <= cam.spec_panned(dx, dy, w).plane_point(
            x + dx,
            y + dy,
            w,
            h,
        ).im <= cam.plane_point(x, y, w, h).im + 1,
        cam.spec_panned(0, 0, w) == cam,
{
    lemma_scaled_sum(x, dx, w, cam.zoom as int);
    lemma_scaled_sum(y, dy, w, cam.zoom as int);
    assert(0 * cam.zoom == 0) by (nonlinear_arith);
    assert(0int / w == 0) by {
        vstd::arithmetic::div_mod::lemma_basic_div(0, w);
    }
}

} // verus!
