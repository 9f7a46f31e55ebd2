use kazaguruma::cycler::message_for;
use kazaguruma::model::{capture_wanted, Model, ENTITY_CAP};
use kazaguruma::trail::{impulse_from, random_force, Kazaguruma, Phase, Rect, Rgba};
use kazaguruma::vec2::Vec2;

fn rect() -> Rect {
    Rect { left: -360, right: 360, bottom: -640, top: 640 }
}

fn p(x: i64, y: i64) -> Vec2 {
    Vec2 { x, y }
}

#[test]
fn impulse_unit_x() {
    assert_eq!(impulse_from(1, 0, 1), p(1, 0));
}

#[test]
fn impulse_zero_vector_is_noop() {
    assert_eq!(impulse_from(0, 0, 40), p(0, 0));
}

#[test]
fn impulse_three_four_five() {
    // |(3,4)| = 5, scaled by 10: (6, 8).
    assert_eq!(impulse_from(3, 4, 10), p(6, 8));
    assert_eq!(impulse_from(-3, 4, 10), p(-6, 8));
    assert_eq!(impulse_from(3, -4, 10), p(6, -8));
}

#[test]
fn impulse_diagonal_keeps_magnitude() {
    // |(1,1)| carried in fixed point: 49 / sqrt(2) = 34.64..., floored per
    // component, keeping the magnitude near the requested length.
    assert_eq!(impulse_from(1, 1, 49), p(34, 34));
}

#[test]
fn impulse_magnitude_within_bounded_error() {
    for &(fx, fy) in &[(1i64, 1i64), (59, 59), (-20, 59), (1, 0), (7, -3), (-13, -11)] {
        for &l in &[25i64, 37, 49] {
            let f = impulse_from(fx, fy, l);
            let mag_sq = f.x * f.x + f.y * f.y;
            assert!(l * l - 4 * l <= mag_sq && mag_sq < (l + 1) * (l + 1));
        }
    }
}

#[test]
fn random_force_stays_in_bounds() {
    let k = Kazaguruma::seeded(p(0, 0), 0, 30);
    for _ in 0..200 {
        let f = random_force();
        assert!(-49 <= f.x && f.x <= 49);
        assert!(-49 <= f.y && f.y <= 49);
        let g = k.force();
        assert!(-49 <= g.x && g.x <= 49);
        assert!(-49 <= g.y && g.y <= 49);
    }
}

#[test]
fn vector_ops() {
    assert_eq!(p(1, 2).add(p(-4, 9)), p(-3, 11));
    assert_eq!(p(3, -5).scale(4), p(12, -20));
    assert_eq!(p(3, 4).normalize_to(10), p(6, 8));
    assert_eq!(p(0, 0).normalize_to(10), p(0, 0));
}

#[test]
fn angle_wraps_at_exact_360() {
    let mut k = Kazaguruma::seeded(p(0, 0), 360, 10);
    k.angle_update();
    assert_eq!(k.angle, 0);
    k.angle_update();
    assert_eq!(k.angle, 2);
}

#[test]
fn angle_advances_by_two() {
    let mut k = Kazaguruma::seeded(p(0, 0), 358, 10);
    k.angle_update();
    assert_eq!(k.angle, 360);
    k.angle_update();
    assert_eq!(k.angle, 0);
}

#[test]
fn growth_appends_cumulative_velocity() {
    let start = p(5, 5);
    let seed = p(-7, -7);
    let mut k = Kazaguruma::seeded(start, 0, 3);
    let f = impulse_from(1, 0, 1);
    k.step_with(f, seed, 0);
    k.step_with(f, seed, 0);
    assert_eq!(k.points, vec![p(5, 5), p(6, 5), p(7, 5)]);
    assert_eq!(k.velocity, p(7, 5));
    assert_eq!(k.acceleration, p(0, 0));
    // Full: the next step removes the two oldest points.
    k.step_with(f, seed, 0);
    assert_eq!(k.points, vec![p(7, 5)]);
    assert!(k.shrinking);
    // Still shrinking: one further step drains and reseeds.
    k.step_with(f, seed, 7);
    assert_eq!(k.points, vec![seed]);
    assert_eq!(k.velocity, seed);
    assert_eq!(k.angle, 7);
    assert!(!k.shrinking);
}

#[test]
fn shrink_phase_is_sticky_until_drained() {
    // Fill to capacity 7, then watch the trail contract by two per step,
    // never growing back, down to the reseed.
    let seed = p(-3, 3);
    let f = impulse_from(1, 0, 1);
    let mut k = Kazaguruma::seeded(p(0, 0), 0, 7);
    for _ in 0..6 {
        k.step_with(f, seed, 0);
    }
    assert_eq!(k.points.len(), 7);
    for expected in [5usize, 3, 1] {
        k.step_with(f, seed, 0);
        assert_eq!(k.points.len(), expected);
        assert!(k.shrinking);
        assert_eq!(k.phase(), Phase::Full);
    }
    k.step_with(f, seed, 0);
    assert_eq!(k.points, vec![seed]);
    assert!(!k.shrinking);
    assert_eq!(k.phase(), Phase::Growing);
}

#[test]
fn full_step_attrition_per_capacity() {
    // For each capacity, fill the buffer, take one more step, and check
    // the exact attrition: two points gone, or a reseed to one point when
    // the buffer drains.
    let start = p(0, 0);
    let seed = p(99, 98);
    let f = impulse_from(1, 0, 1);
    for capacity in 1..=5usize {
        let mut k = Kazaguruma::seeded(start, 0, capacity);
        for _ in 0..capacity - 1 {
            k.step_with(f, seed, 45);
        }
        assert_eq!(k.points.len(), capacity);
        k.step_with(f, seed, 45);
        if capacity > 2 {
            assert_eq!(k.points.len(), capacity - 2);
            assert_eq!(k.angle, 0);
        } else {
            // Drained and reseeded within the same step.
            assert_eq!(k.points, vec![seed]);
            assert_eq!(k.velocity, seed);
            assert_eq!(k.acceleration, p(0, 0));
            assert_eq!(k.angle, 45);
        }
    }
}

#[test]
fn points_update_draws_its_own_inputs() {
    let r = rect();
    // Growth: one more point, the cumulative velocity.
    let mut k = Kazaguruma::seeded(p(0, 0), 0, 3);
    k.points_update(r);
    assert_eq!(k.points.len(), 2);
    assert_eq!(k.points[1], k.velocity);
    assert_eq!(k.acceleration, p(0, 0));
    // Drain at capacity 2: reseeded inside the viewport's inset window.
    let mut d = Kazaguruma::seeded(p(0, 0), 0, 2);
    d.points_update(r);
    assert_eq!(d.points.len(), 2);
    d.points_update(r);
    assert_eq!(d.points.len(), 1);
    let s = d.points[0];
    assert!(r.left + 100 <= s.x && s.x < r.right - 100);
    assert!(r.bottom + 200 <= s.y && s.y < r.top - 200);
    assert_eq!(d.velocity, s);
    assert!(d.angle < 360);
}

#[test]
fn empty_entity_is_skipped() {
    let mut k = Kazaguruma::seeded(p(0, 0), 8, 4);
    k.points = Vec::new();
    assert_eq!(k.phase(), Phase::Empty);
    k.frame_update_with(p(1, 0), p(2, 2), 0);
    assert_eq!(k.points.len(), 0);
    assert_eq!(k.angle, 8);
}

#[test]
fn phase_tracks_buffer_length() {
    let mut k = Kazaguruma::seeded(p(0, 0), 0, 2);
    assert_eq!(k.phase(), Phase::Growing);
    k.step_with(impulse_from(1, 0, 1), p(9, 9), 0);
    assert_eq!(k.phase(), Phase::Full);
}

#[test]
fn new_entity_seeds_inside_inset_window() {
    let r = rect();
    for _ in 0..50 {
        let k = Kazaguruma::new(r);
        assert_eq!(k.points.len(), 1);
        let s = k.points[0];
        assert!(r.left + 100 <= s.x && s.x < r.right - 100);
        assert!(r.bottom + 200 <= s.y && s.y < r.top - 200);
        assert_eq!(k.velocity, s);
        assert_eq!(k.acceleration, p(0, 0));
        assert!(25 <= k.capacity && k.capacity < 50);
        assert!(k.angle < 360);
        assert_eq!(k.color, Rgba { r: 242, g: 5, b: 25, a: 10 });
    }
}

#[test]
fn messages_in_cycle_order() {
    assert_eq!(message_for(0).text, "Be yourself.");
    assert_eq!(message_for(1).text, "Stay true to yourself.");
    assert_eq!(message_for(2).text, "Embrace your uniqueness.");
}

#[test]
fn model_starts_with_first_message_and_one_entity() {
    let m = Model::new(rect());
    assert_eq!(m.count, 0);
    assert_eq!(m.time, 0);
    assert_eq!(m.message.text, "Be yourself.");
    assert_eq!(m.kazaguruma_list.len(), 1);
}

#[test]
fn message_cycles_with_period_three_delays() {
    let r = rect();
    let mut m = Model::new(r);
    for frame in 1..=240u64 {
        m.update(frame, r);
        match frame {
            79 => assert_eq!(m.count, 0),
            80 => {
                assert_eq!(m.count, 1);
                assert_eq!(m.time, 80);
                assert_eq!(m.message.text, "Stay true to yourself.");
            }
            159 => assert_eq!(m.count, 1),
            160 => {
                assert_eq!(m.count, 2);
                assert_eq!(m.message.text, "Embrace your uniqueness.");
            }
            239 => assert_eq!(m.count, 2),
            240 => {
                assert_eq!(m.count, 0);
                assert_eq!(m.message.text, "Be yourself.");
            }
            _ => {}
        }
    }
}

#[test]
fn population_grows_by_one_per_spawn_frame_up_to_cap() {
    let r = rect();
    let mut m = Model::new(r);
    let mut expected = 1usize;
    for frame in 1..=200u64 {
        m.update(frame, r);
        if expected < ENTITY_CAP && frame % 10 == 0 {
            expected += 1;
        }
        assert_eq!(m.kazaguruma_list.len(), expected);
        assert!(m.kazaguruma_list.len() <= ENTITY_CAP);
        for k in &m.kazaguruma_list {
            assert!(k.points.len() >= 1);
            assert!(k.points.len() <= k.capacity);
        }
    }
    assert_eq!(m.kazaguruma_list.len(), ENTITY_CAP);
}

#[test]
fn capture_stops_at_limit() {
    assert!(capture_wanted(0));
    assert!(capture_wanted(238));
    assert!(!capture_wanted(239));
    assert!(!capture_wanted(240));
}
