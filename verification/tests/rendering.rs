use mandelbrot::camera::Camera;
use mandelbrot::complex::Complex;
use mandelbrot::fixed::ONE;
use mandelbrot::palette::shade;
use mandelbrot::palette::Color;
use mandelbrot::params::FractalParams;
use mandelbrot::params::ShaderKind;
use mandelbrot::render::render;

fn mandelbrot(max_iterations: u32) -> FractalParams {
    FractalParams { max_iterations, mode: ShaderKind::Mandelbrot, julia_c: Complex::new(0, 0) }
}

#[test]
fn mode_numbers() {
    assert_eq!(ShaderKind::Mandelbrot.index(), 0);
    assert_eq!(ShaderKind::Julia.index(), 1);
    assert_eq!(ShaderKind::Mandelbrot.toggled(), ShaderKind::Julia);
    assert_eq!(ShaderKind::Julia.toggled(), ShaderKind::Mandelbrot);
}

#[test]
fn four_by_four_escape_times() {
    let cam = Camera::new(0, 0, 4 * ONE);
    let params = mandelbrot(50);
    let expected: [[u32; 4]; 4] = [[0, 0, 0, 0], [0, 2, 50, 1], [0, 50, 50, 1], [0, 2, 50, 1]];
    for y in 0..4 {
        for x in 0..4 {
            let n = params.evaluate(cam.transform(x, y, 4, 4));
            assert_eq!(n, expected[y as usize][x as usize]);
        }
    }
}

#[test]
fn start_view_escape_times() {
    let cam = Camera::new(-ONE / 2, 0, 5 * ONE / 2);
    let params = mandelbrot(32);
    let expected: [[u32; 8]; 6] = [
        [1, 2, 2, 2, 3, 8, 3, 2],
        [2, 2, 3, 4, 19, 32, 32, 5],
        [3, 4, 11, 8, 32, 32, 32, 10],
        [32, 32, 32, 32, 32, 32, 32, 5],
        [3, 4, 11, 8, 32, 32, 32, 10],
        [2, 2, 3, 4, 19, 32, 32, 5],
    ];
    for y in 0..6 {
        for x in 0..8 {
            let n = params.evaluate(cam.transform(x, y, 8, 6));
            assert_eq!(n, expected[y as usize][x as usize]);
        }
    }
}

#[test]
fn julia_view_escape_times() {
    let cam = Camera::new(-ONE / 2, 0, 5 * ONE / 2);
    let params = FractalParams {
        max_iterations: 32,
        mode: ShaderKind::Julia,
        julia_c: Complex::new(-3 * ONE / 4, ONE / 8),
    };
    let expected: [[u32; 8]; 6] = [
        [0, 0, 0, 1, 1, 2, 2, 1],
        [0, 1, 1, 2, 3, 6, 32, 4],
        [0, 1, 3, 8, 6, 28, 32, 32],
        [0, 4, 32, 30, 32, 32, 26, 32],
        [0, 2, 32, 29, 32, 32, 26, 7],
        [0, 1, 1, 2, 3, 7, 11, 3],
    ];
    for y in 0..6 {
        for x in 0..8 {
            let n = params.evaluate(cam.transform(x, y, 8, 6));
            assert_eq!(n, expected[y as usize][x as usize]);
        }
    }
}

#[test]
fn julia_parameter_is_ignored_in_mandelbrot_mode() {
    let cam = Camera::new(-ONE / 2, 0, 5 * ONE / 2);
    let plain = mandelbrot(32);
    let with_param = FractalParams {
        max_iterations: 32,
        mode: ShaderKind::Mandelbrot,
        julia_c: Complex::new(-3 * ONE / 4, ONE / 8),
    };
    for y in 0..6 {
        for x in 0..8 {
            let c = cam.transform(x, y, 8, 6);
            assert_eq!(plain.evaluate(c), with_param.evaluate(c));
        }
    }
}

#[test]
fn toggling_the_mode_twice_gives_the_same_picture() {
    let cam = Camera::new(-ONE / 2, 0, 5 * ONE / 2);
    let mut params = FractalParams {
        max_iterations: 32,
        mode: ShaderKind::Julia,
        julia_c: Complex::new(-3 * ONE / 4, ONE / 8),
    };
    let julia = render(&cam, &params, 8, 6);
    params.mode = params.mode.toggled();
    let mandel = render(&cam, &params, 8, 6);
    params.mode = params.mode.toggled();
    assert_eq!(render(&cam, &params, 8, 6), julia);
    assert_eq!(mandel, render(&cam, &mandelbrot(32), 8, 6));
    assert_ne!(mandel, julia);
}

#[test]
fn pixel_color_shades_the_escape_time() {
    let cam = Camera::new(0, 0, 4 * ONE);
    let params = mandelbrot(50);
    assert_eq!(params.pixel_color(&cam, 0, 0, 4, 4), shade(0, 50));
    assert_eq!(params.pixel_color(&cam, 1, 1, 4, 4), shade(2, 50));
    assert_eq!(params.pixel_color(&cam, 3, 2, 4, 4), shade(1, 50));
    assert_eq!(params.pixel_color(&cam, 2, 2, 4, 4), Color { r: 0, g: 0, b: 0, a: 255 });
}

#[test]
fn render_goes_row_by_row() {
    let cam = Camera::new(0, 0, 4 * ONE);
    let params = mandelbrot(50);
    let pixels = render(&cam, &params, 4, 3);
    assert_eq!(pixels.len(), 12);
    let counts: [u32; 12] = [0, 0, 0, 0, 0, 2, 50, 1, 0, 50, 50, 1];
    // Rows of a 4 x 3 viewport lie half a unit higher than those of a
    // 4 x 4 one, so the counts are taken from the mapping itself.
    for (i, color) in pixels.iter().enumerate() {
        let (x, y) = ((i % 4) as i32, (i / 4) as i32);
        assert_eq!(*color, params.pixel_color(&cam, x, y, 4, 3));
    }
    let square = render(&cam, &params, 4, 4);
    for (i, n) in counts.iter().enumerate() {
        assert_eq!(square[i], shade(*n, 50));
    }
    assert_eq!(render(&cam, &params, 4, 0).len(), 0);
}
