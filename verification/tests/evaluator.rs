// Escape-time evaluator scenarios. Plane coordinates are fixed-point raw
// values: 65536 units per 1.0 (so 131072 is 2.0).

use mandelbrot::escape::escape_step;
use mandelbrot::escape::sample_value;

#[test]
fn origin_is_interior_at_every_depth() {
    for max_iter in [1u32, 2, 3, 10, 100, 1000] {
        assert_eq!(escape_step(0, 0, max_iter), None);
        assert_eq!(sample_value(0, 0, max_iter), 0);
    }
}

#[test]
fn point_outside_radius_escapes_at_first_iterate() {
    // c = (2, 2): |c|^2 = 8 > 4, so the first iterate z_1 = c is the first
    // one seen past the escape radius; z_0 = 0 itself never escapes.
    for max_iter in [2u32, 3, 10, 1000] {
        assert_eq!(escape_step(131072, 131072, max_iter), Some(1));
    }
    // Depth 1 only examines z_0 = 0 and classifies the point interior.
    assert_eq!(escape_step(131072, 131072, 1), None);
}

#[test]
fn escape_test_is_strict_at_radius_two() {
    // c = (2, 0): |z_1|^2 == 4 exactly, which does not fire the strict
    // test; z_2 = (6, 0) does.
    assert_eq!(escape_step(131072, 0, 10), Some(2));
}

#[test]
fn escape_index_invariant_to_depth() {
    // c = (0.5, 0.5) escapes after a handful of iterations; the raw index
    // must not depend on the depth once the depth exceeds it.
    let c = 32768i64;
    let k = escape_step(c, c, 100).expect("point must escape");
    assert!(k >= 1 && k < 100);
    assert_eq!(escape_step(c, c, 1000), Some(k));
    assert_eq!(escape_step(c, c, 10000), Some(k));
    // The normalized value k / depth therefore strictly decreases with depth.
    let v100 = k as f64 / 100.0;
    let v1000 = k as f64 / 1000.0;
    let v10000 = k as f64 / 10000.0;
    assert!(v100 > v1000 && v1000 > v10000);
}

#[test]
fn interior_and_escaped_share_numerator_zero() {
    // Interior points report numerator 0; an escaping point reports its
    // positive index.
    assert_eq!(sample_value(0, 0, 50), 0);
    assert_eq!(sample_value(131072, 131072, 50), 1);
}
