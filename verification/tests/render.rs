// Rasterization, supersampling and end-to-end rendering scenarios.

use mandelbrot::controller::InteractiveController;
use mandelbrot::escape::sample_value;
use mandelbrot::raster::average_channel;
use mandelbrot::raster::offset;
use mandelbrot::raster::project;
use mandelbrot::raster::render_frame;
use mandelbrot::raster::render_pixel;

#[test]
fn center_pixel_projects_to_origin() {
    for dim in [2usize, 100, 666, 999] {
        assert_eq!(project(0, dim), 0);
    }
    // Scale check: the pixel one quarter of the canvas out maps to 1.0.
    assert_eq!(project(25, 100), 65536);
    assert_eq!(project(-50, 100), -131072);
}

#[test]
fn single_sample_average_equals_the_sample() {
    // With supersample factor 1 no blending happens: the channel is the
    // rounded normalized value of the one sub-sample, which sits half a
    // pixel step from the base point.
    let (w, h, depth) = (100usize, 100usize, 50u32);
    let ox = offset(0, 1, w);
    let oy = offset(0, 1, h);
    for &(cr, ci) in &[(0i64, 0i64), (-131072, -131072), (32768, 32768), (65536, -65536)] {
        let v = sample_value(cr + ox, ci + oy, depth) as u64;
        let expected = (510 * v + depth as u64) / (2 * depth as u64);
        assert_eq!(average_channel(cr, ci, w, h, 1, depth) as u64, expected);
    }
}

#[test]
fn averager_rounds_half_up() {
    // c = (-2, -2) escapes at index 1, so a single sample at depth 2 has
    // value 1/2 and the channel must round 127.5 up to 128.
    assert_eq!(average_channel(-131072, -131072, 100, 100, 1, 2), 128);
}

#[test]
fn rerendering_is_byte_identical() {
    let a = InteractiveController::new(64, 64, 20, 2);
    let b = InteractiveController::new(64, 64, 20, 2);
    assert_eq!(a.frame.data, b.frame.data);
    // The parallel render agrees word for word with the sequential one.
    let seq = render_frame(64, 64, 20, 2);
    assert_eq!(a.frame.data, seq);
}

#[test]
fn depth_events_clamp_and_rerender() {
    let mut c = InteractiveController::new(16, 16, 1, 1);
    c.decrease_depth();
    assert_eq!(c.depth, 1);
    c.increase_depth();
    assert_eq!(c.depth, 2);
    assert_eq!(c.frame.data, render_frame(16, 16, 2, 1));
    c.decrease_depth();
    assert_eq!(c.depth, 1);
    assert_eq!(c.frame.data, render_frame(16, 16, 1, 1));
}

#[test]
fn end_to_end_scenario() {
    // Canvas 100 x 100, depth 50, supersample factor 2.
    let c = InteractiveController::new(100, 100, 50, 2);
    // The centered pixel (0, 0) sits at row-major slot 50 * 100 + 50 and
    // lies deep in the set: darkest packed color.
    assert_eq!(c.frame.data[50 * 100 + 50], 0x00_00_00);
    // A pixel far from the center maps to |c| > 2 and escapes right away:
    // a non-darkest grayscale word.
    let far = c.frame.data[1 * 100 + 1];
    assert_ne!(far, 0);
    let (r, g, b) = ((far >> 16) & 0xff, (far >> 8) & 0xff, far & 0xff);
    assert_eq!(r, g);
    assert_eq!(g, b);
    assert!(r > 0);
    assert_eq!(far >> 24, 0);
}

#[test]
fn pixel_words_match_the_frame() {
    // render_pixel is the per-pixel function the frame is made of.
    let frame = render_frame(20, 10, 30, 2);
    for py in 0..10usize {
        for px in 0..20usize {
            assert_eq!(frame[py * 20 + px], render_pixel(px, py, 20, 10, 30, 2));
        }
    }
}
