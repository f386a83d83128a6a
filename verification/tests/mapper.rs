use mandelbrot::camera::Camera;
use mandelbrot::complex::Complex;
use mandelbrot::escape::iterate;
use mandelbrot::fixed::ONE;

#[test]
fn corner_of_four_by_four_viewport_escapes_at_once() {
    let cam = Camera::new(0, 0, 4 * ONE);
    let corner = cam.transform(0, 0, 4, 4);
    assert_eq!(corner, Complex::new(-2 * ONE, -2 * ONE));
    assert_eq!(iterate(corner, None, 50), 0);
}

#[test]
fn four_by_four_viewport_maps_to_unit_grid() {
    let cam = Camera::new(0, 0, 4 * ONE);
    for y in 0..4 {
        for x in 0..4 {
            let p = cam.transform(x, y, 4, 4);
            assert_eq!(p, Complex::new((x as i64 - 2) * ONE, (y as i64 - 2) * ONE));
        }
    }
}

#[test]
fn centre_of_viewport_shows_camera_centre() {
    let cam = Camera::new(-ONE / 2, 0, 5 * ONE / 2);
    assert_eq!(cam.transform(320, 240, 640, 480), Complex::new(-ONE / 2, 0));
    // (0 / 640 - 1/2) * 2.5 - 0.5 = -1.75; -(480 / 1280) * 2.5 = -0.9375
    assert_eq!(cam.transform(0, 0, 640, 480), Complex::new(-7 * ONE / 4, -15 * ONE / 16));
    assert_eq!(cam.transform(640, 480, 640, 480), Complex::new(3 * ONE / 4, 15 * ONE / 16));
}

#[test]
fn imaginary_axis_grows_with_rows_and_adds_centre() {
    let cam = Camera::new(3 * ONE, 5 * ONE, 2 * ONE);
    // Rows are scaled by the width: row 1 of a 2 x 4 viewport is half the
    // zoom below row 0.
    assert_eq!(cam.transform(0, 0, 2, 4), Complex::new(2 * ONE, 3 * ONE));
    assert_eq!(cam.transform(0, 1, 2, 4), Complex::new(2 * ONE, 4 * ONE));
    assert_eq!(cam.transform(1, 2, 2, 4), Complex::new(3 * ONE, 5 * ONE));
    assert_eq!(cam.transform(1, 3, 2, 4), Complex::new(3 * ONE, 6 * ONE));
}

#[test]
fn offsets_round_down() {
    let cam = Camera::new(0, 0, ONE);
    assert_eq!(ONE / 3, 93824992236885);
    assert_eq!(cam.transform(1, 0, 3, 3), Complex::new(-46912496118443, -140737488355328));
    assert_eq!(cam.transform(-1, 0, 3, 3), Complex::new(-234562480592214, -140737488355328));
}

#[test]
fn pixels_outside_the_viewport_continue_the_grid() {
    let cam = Camera::new(0, 0, 4 * ONE);
    assert_eq!(cam.transform(-1, -1, 4, 4), Complex::new(-3 * ONE, -3 * ONE));
    assert_eq!(cam.transform(4, 4, 4, 4), Complex::new(2 * ONE, 2 * ONE));
    assert_eq!(cam.transform(9, 0, 4, 4), Complex::new(7 * ONE, -2 * ONE));
}

#[test]
fn far_points_are_clamped() {
    let cam = Camera::new(i64::MAX, i64::MIN, 4 * ONE);
    assert_eq!(cam.transform(4, 0, 4, 4), Complex::new(i64::MAX, i64::MIN));
    assert_eq!(cam.transform(0, 4, 4, 4), Complex::new(i64::MAX - 2 * ONE, i64::MIN + 2 * ONE));
    let wide = Camera::new(0, 0, i64::MAX);
    assert_eq!(wide.transform(i32::MAX, i32::MIN, 1, 1), Complex::new(i64::MAX, i64::MIN));
}

#[test]
fn mapping_is_injective_when_zoom_covers_the_width() {
    // Five units of plane for five columns: every pixel has its own point.
    let cam = Camera::new(0, 0, 5);
    let mut seen: Vec<Complex> = Vec::new();
    for y in 0..3 {
        for x in 0..5 {
            let p = cam.transform(x, y, 5, 3);
            assert!(!seen.contains(&p));
            seen.push(p);
        }
    }
    assert_eq!(seen.len(), 15);
}

#[test]
fn mapping_collides_when_zoom_is_under_the_width() {
    let cam = Camera::new(0, 0, 4);
    assert_eq!(cam.transform(0, 0, 5, 3), cam.transform(1, 0, 5, 3));
    let one = Camera::new(7, 9, 1);
    assert_eq!(one.transform(0, 0, 4, 1), one.transform(1, 0, 4, 1));
}

#[test]
fn larger_zoom_spans_more_plane() {
    let (w, h) = (640, 480);
    let mut last_width = 0;
    let mut last_height = 0;
    for zoom in [1, 2, 3, 639, 640, 641, ONE, ONE + 1, 5 * ONE / 2, 4 * ONE] {
        let cam = Camera::new(0, 0, zoom);
        let first = cam.transform(0, 0, w, h);
        let past = cam.transform(w, h, w, h);
        let width = past.re - first.re;
        let height = past.im - first.im;
        assert_eq!(width, zoom);
        assert_eq!(height, (h as i64 * zoom).div_euclid(w as i64));
        assert!(width > last_width);
        assert!(height >= last_height);
        last_width = width;
        last_height = height;
    }
}

#[test]
fn wheel_zooms_by_a_tenth_per_notch() {
    let cam = Camera::new(0, 0, 4 * ONE);
    let at_centre = cam.zoomed(ONE, 2, 2, 4, 4);
    assert_eq!(at_centre, Camera::new(0, 0, 1013309916158362));
    let at_corner = cam.zoomed(ONE, 0, 0, 4, 4);
    assert_eq!(at_corner, Camera::new(-56294995342131, -56294995342131, 1013309916158362));
    let out = cam.zoomed(-ONE, 4, 0, 4, 4);
    assert_eq!(out, Camera::new(-56294995342132, 56294995342131, 1238489897526887));
    let start = Camera::new(-ONE / 2, 0, 5 * ONE / 2);
    assert_eq!(
        start.zoomed(ONE, 100, 50, 640, 480),
        Camera::new(-164926744166400, -20890720927744, 633318697598976)
    );
}

#[test]
fn wheel_keeps_the_point_under_the_cursor() {
    let cam = Camera::new(-ONE / 2, ONE / 7, 5 * ONE / 2);
    for wheel in [ONE, -ONE, 3 * ONE, ONE / 3, -5 * ONE / 2] {
        for (x, y) in [(0, 0), (100, 50), (639, 479), (320, 240), (-20, 700)] {
            let zoomed = cam.zoomed(wheel, x, y, 640, 480);
            assert_eq!(zoomed.transform(x, y, 640, 480), cam.transform(x, y, 640, 480));
        }
    }
}

#[test]
fn wheel_at_rest_changes_nothing() {
    let cam = Camera::new(-ONE / 2, ONE / 7, 5 * ONE / 2);
    assert_eq!(cam.zoomed(0, 17, 4, 640, 480), cam);
}

#[test]
fn zoom_stays_positive_and_representable() {
    let cam = Camera::new(0, 0, 4 * ONE);
    assert_eq!(cam.zoomed(10 * ONE, 2, 2, 4, 4).zoom, 1);
    assert_eq!(cam.zoomed(20 * ONE, 2, 2, 4, 4).zoom, 1);
    assert_eq!(Camera::new(0, 0, i64::MAX).zoomed(-ONE, 0, 0, 4, 4).zoom, i64::MAX);
    assert_eq!(Camera::new(0, 0, 3).zoomed(ONE, 0, 0, 4, 4).zoom, 3);
    assert_eq!(Camera::new(0, 0, 7).zoomed(ONE / 2, 0, 0, 4, 4).zoom, 7);
}

#[test]
fn drag_moves_the_centre_against_the_cursor() {
    let cam = Camera::new(0, 0, 4 * ONE);
    assert_eq!(cam.panned(1, 0, 4), Camera::new(-ONE, 0, 4 * ONE));
    assert_eq!(cam.panned(-1, 2, 4), Camera::new(ONE, -2 * ONE, 4 * ONE));
    assert_eq!(cam.panned(0, 0, 4), cam);
    // One pixel of three, at a zoom of one: a third, rounded down.
    let unit = Camera::new(0, 0, ONE);
    assert_eq!(unit.panned(1, -1, 3), Camera::new(-93824992236885, 93824992236886, ONE));
}

#[test]
fn drag_carries_the_grabbed_point_along() {
    let cam = Camera::new(-ONE / 2, ONE / 7, 5 * ONE / 2);
    for (dx, dy) in [(1i64, 0i64), (13, -7), (-250, 101), (0, 3)] {
        let panned = cam.panned(dx, dy, 640);
        for (x, y) in [(0, 0), (100, 50), (639, 479)] {
            let before = cam.transform(x, y, 640, 480);
            let after = panned.transform(x + dx as i32, y + dy as i32, 640, 480);
            assert!(after.re == before.re || after.re == before.re + 1);
            assert!(after.im == before.im || after.im == before.im + 1);
        }
    }
}

#[test]
fn drag_clamps_the_centre() {
    let cam = Camera::new(i64::MIN + 1, i64::MAX - 1, 4 * ONE);
    assert_eq!(cam.panned(1, -1, 4), Camera::new(i64::MIN, i64::MAX, 4 * ONE));
    assert_eq!(cam.panned(i64::MAX, i64::MIN, 1).center_x, i64::MIN);
    assert_eq!(cam.panned(i64::MAX, i64::MIN, 1).center_y, i64::MAX);
}
