use mandelbrot_wasm::color::iteration_to_color;
use mandelbrot_wasm::escape::escape_step;
use mandelbrot_wasm::raster::{buffer_len, render, render_checked};

/// Escape time of `c = re + im i`: the orbit is walked in `f64`, the decision
/// to go on is the library's.
fn evaluate(re: f64, im: f64, max_iter: u32) -> u32 {
    let (mut x, mut y) = (0.0f64, 0.0f64);
    let mut count = 0;
    while let Some(next) = escape_step(count, max_iter, x * x + y * y <= 4.0) {
        let x_new = x * x - y * y + re;
        y = 2.0 * x * y + im;
        x = x_new;
        count = next;
    }
    count
}

/// Plane coordinate of a pixel along one axis.
fn map(center: f64, pixel: u32, extent: u32, scale: f64) -> f64 {
    center + (pixel as f64 - extent as f64 * 0.5) * scale
}

/// Escape times of every pixel of a view, row by row.
fn counts_of(center: (f64, f64), scale: f64, width: u32, height: u32, max_iter: u32) -> Vec<u32> {
    let mut counts = Vec::new();
    for py in 0..height {
        let im = map(center.1, py, height, scale);
        for px in 0..width {
            counts.push(evaluate(map(center.0, px, width, scale), im, max_iter));
        }
    }
    counts
}

fn image_of(center: (f64, f64), scale: f64, width: u32, height: u32, max_iter: u32) -> Vec<u8> {
    let counts = counts_of(center, scale, width, height, max_iter);
    let mut output = vec![0u8; buffer_len(width, height).unwrap()];
    assert!(render_checked(width, height, max_iter, &counts, &mut output));
    output
}

#[test]
fn counts_stay_within_budget() {
    for max_iter in [0, 1, 2, 7, 50] {
        for count in counts_of((-0.5, 0.0), 0.3, 9, 7, max_iter) {
            assert!(count <= max_iter);
        }
    }
}

#[test]
fn no_budget_means_count_zero_and_inside_colour() {
    let counts = counts_of((-0.5, 0.0), 1.0, 4, 4, 0);
    assert_eq!(counts, vec![0; 16]);
    for pixel in image_of((-0.5, 0.0), 1.0, 4, 4, 0).chunks(4) {
        assert_eq!(pixel, &[0, 0, 0, 255]);
    }
}

#[test]
fn point_outside_radius_escapes_on_first_step() {
    for max_iter in [1, 2, 50, 500, u32::MAX] {
        assert_eq!(evaluate(3.0, 0.0, max_iter), 1);
        assert_eq!(evaluate(0.0, -2.5, max_iter), 1);
        assert_eq!(evaluate(-1.5, 1.5, max_iter), 1);
    }
    assert_eq!(evaluate(3.0, 0.0, 0), 0);
}

#[test]
fn origin_never_escapes() {
    for max_iter in [0, 1, 2, 50, 500, 100_000] {
        assert_eq!(evaluate(0.0, 0.0, max_iter), max_iter);
    }
}

#[test]
fn point_on_the_radius_is_not_yet_outside() {
    assert_eq!(evaluate(-2.0, 0.0, 500), 500);
    assert_eq!(evaluate(2.0, 0.0, 500), 2);
}

#[test]
fn known_escape_times() {
    assert_eq!(evaluate(1.0, 0.0, 500), 3);
    assert_eq!(evaluate(0.5, 0.0, 500), 5);
    assert_eq!(evaluate(0.26, 0.0, 500), 30);
    assert_eq!(evaluate(-0.75, 0.1, 500), 33);
    assert_eq!(evaluate(0.3, 0.5, 500), 500);
    assert_eq!(evaluate(1.0, 0.0, 2), 2);
}

#[test]
fn small_view_inside_the_cardioid_is_all_black() {
    let counts = counts_of((-0.5, 0.0), 0.01, 4, 4, 50);
    for (py, px) in [(1, 1), (1, 2), (2, 1), (2, 2)] {
        let count = counts[py * 4 + px];
        assert_eq!(count, 50);
        assert_eq!(iteration_to_color(count, 50), [0, 0, 0]);
    }
    assert_eq!(counts, vec![50; 16]);
    let image = image_of((-0.5, 0.0), 0.01, 4, 4, 50);
    for pixel in image.chunks(4) {
        assert_eq!(pixel, &[0, 0, 0, 255]);
    }
}

#[test]
fn wide_view_escapes_at_the_corners() {
    let counts = counts_of((-0.5, 0.25), 0.5, 4, 4, 50);
    assert_eq!(
        counts,
        vec![
            3, 3, 6, 34, //
            5, 50, 50, 50, //
            5, 50, 50, 50, //
            3, 3, 6, 34,
        ]
    );
    for (py, px) in [(1, 1), (1, 2), (2, 1), (2, 2)] {
        assert_eq!(counts[py * 4 + px], 50);
    }
    for (py, px) in [(0, 0), (0, 3), (3, 0), (3, 3)] {
        assert!(counts[py * 4 + px] < 50);
    }
    let image = image_of((-0.5, 0.25), 0.5, 4, 4, 50);
    assert_eq!(&image[0..4], &[15, 0, 240, 255]);
    assert_eq!(&image[12..16], &[173, 0, 82, 255]);
    assert_eq!(&image[20..24], &[0, 0, 0, 255]);
    assert_eq!(&image[60..64], &[173, 0, 82, 255]);
}

#[test]
fn one_scale_serves_both_axes() {
    let counts = counts_of((-0.5, 0.0), 0.75, 5, 3, 500);
    assert_eq!(
        counts,
        vec![
            1, 2, 3, 5, 2, //
            1, 4, 7, 500, 4, //
            1, 4, 7, 500, 4,
        ]
    );
}

#[test]
fn same_view_renders_to_same_bytes() {
    let first = image_of((-0.7, 0.2), 0.05, 16, 12, 200);
    let second = image_of((-0.7, 0.2), 0.05, 16, 12, 200);
    assert_eq!(first, second);
    let counts = counts_of((-0.7, 0.2), 0.05, 16, 12, 200);
    let mut third = vec![0xffu8; 16 * 12 * 4];
    render(16, 12, 200, &counts, &mut third);
    assert_eq!(first, third);
}
