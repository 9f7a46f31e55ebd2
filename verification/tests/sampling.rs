use kazaguruma::geom::{isqrt, scale_div, seg_len_exec};
use kazaguruma::sampler::walk_polyline;
use kazaguruma::vec2::Vec2;

fn p(x: i64, y: i64) -> Vec2 {
    Vec2 { x, y }
}

fn square() -> Vec<Vec2> {
    vec![p(0, 0), p(10, 0), p(10, 10), p(0, 10), p(0, 0)]
}

#[test]
fn isqrt_exact_and_floor() {
    assert_eq!(isqrt(0), 0);
    assert_eq!(isqrt(1), 1);
    assert_eq!(isqrt(2), 1);
    assert_eq!(isqrt(3), 1);
    assert_eq!(isqrt(4), 2);
    assert_eq!(isqrt(24), 4);
    assert_eq!(isqrt(25), 5);
    assert_eq!(isqrt(1_000_000), 1000);
    assert_eq!(isqrt(999_999), 999);
}

#[test]
fn scale_div_truncates_toward_zero() {
    assert_eq!(scale_div(7, 3, 2), 10);
    assert_eq!(scale_div(-7, 3, 2), -10);
    assert_eq!(scale_div(1, 1, 3), 0);
    assert_eq!(scale_div(-1, 1, 3), 0);
}

#[test]
fn segment_lengths() {
    assert_eq!(seg_len_exec(p(0, 0), p(10, 0)), 10);
    assert_eq!(seg_len_exec(p(0, 0), p(3, 4)), 5);
    assert_eq!(seg_len_exec(p(2, 2), p(2, 2)), 0);
    // Floor of sqrt(2).
    assert_eq!(seg_len_exec(p(0, 0), p(1, 1)), 1);
}

#[test]
fn walk_square_interval_seven() {
    // Perimeter 40, interval 7: floor(40 / 7) + 1 = 6 samples at arc
    // lengths 0, 7, 14, 21, 28, 35.
    let out = walk_polyline(&square(), 7);
    assert_eq!(
        out,
        vec![p(0, 0), p(7, 0), p(10, 4), p(9, 10), p(2, 10), p(0, 5)]
    );
}

#[test]
fn walk_square_interval_dividing_perimeter() {
    // Interval 10 divides the perimeter exactly: the corners, and the
    // closing point at arc length 40 on top.
    let out = walk_polyline(&square(), 10);
    assert_eq!(out, vec![p(0, 0), p(10, 0), p(10, 10), p(0, 10), p(0, 0)]);
}

#[test]
fn walk_emits_expected_count_and_monotone_positions() {
    // Perimeter 40, interval 1: 41 samples, ordered by arc length, and
    // the walk never oversteps the closing corner.
    let out = walk_polyline(&square(), 1);
    assert_eq!(out.len(), 41);
    assert_eq!(out[0], p(0, 0));
    assert_eq!(out[40], p(0, 0));
    // The first edge is traced point by point.
    for (i, q) in out.iter().take(10).enumerate() {
        assert_eq!(*q, p(i as i64, 0));
    }
}

#[test]
fn walk_single_point_emits_it_once() {
    let out = walk_polyline(&vec![p(4, -4)], 5);
    assert_eq!(out, vec![p(4, -4)]);
}

#[test]
fn walk_empty_polyline_is_empty() {
    let out = walk_polyline(&Vec::new(), 3);
    assert!(out.is_empty());
}

#[test]
fn walk_skips_zero_length_segments() {
    let out = walk_polyline(&vec![p(0, 0), p(0, 0), p(4, 0)], 2);
    assert_eq!(out, vec![p(0, 0), p(2, 0), p(4, 0)]);
}
