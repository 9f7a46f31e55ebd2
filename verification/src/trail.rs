use vstd::prelude::*;
use crate::vec2::Vec2;
use crate::geom::{abs_int, is_sqrt, scaled, scale_div, isqrt, COORD_LIMIT};
use crate::rng::random_in;

verus! {

/// Horizontal inset of the seeding window from the viewport edges.
pub const INSET_X: i64 = 100;

/// Vertical inset of the seeding window from the viewport edges.
pub const INSET_Y: i64 = 200;

/// Degrees added to the rotation angle on each active step.
pub const ANGLE_STEP: u32 = 2;

/// Smallest point capacity an entity may be created with.
pub const CAPACITY_LO: usize = 25;

/// Exclusive upper bound on the point capacity at creation.
pub const CAPACITY_HI: usize = 50;

/// Magnitude bound on velocity and acceleration components under which a
/// step is free of overflow.
pub const VEL_LIMIT: i64 = 0x2000_0000_0000_0000;

/// A translucent color, as 8-bit channels.
#[derive(Clone, Copy, PartialEq, Eq, Structural, Debug)]
pub struct Rgba {
    pub r: u8,
    pub g: u8,
    pub b: u8,
    pub a: u8,
}

/// The fixed color every trail entity is created with.
pub open spec fn trail_color() -> Rgba {
    Rgba { r: 242, g: 5, b: 25, a: 10 }
}

/// Viewport bounds, queried from the windowing collaborator each frame.
#[derive(Clone, Copy, PartialEq, Eq, Structural, Debug)]
pub struct Rect {
    pub left: i64,
    pub right: i64,
    pub bottom: i64,
    pub top: i64,
}

/// A viewport the seeding window fits into, with coordinates small enough
/// for the geometric routines.
pub open spec fn rect_ok(r: Rect) -> bool {
    &&& -COORD_LIMIT <= r.left
    &&& r.right <= COORD_LIMIT
    &&& -COORD_LIMIT <= r.bottom
    &&& r.top <= COORD_LIMIT
    &&& r.left + INSET_X < r.right - INSET_X
    &&& r.bottom + INSET_Y < r.top - INSET_Y
}

/// `p` lies in the inset seeding window of viewport `r`.
pub open spec fn seed_in(p: Vec2, r: Rect) -> bool {
    &&& r.left + INSET_X <= p.x < r.right - INSET_X
    &&& r.bottom + INSET_Y <= p.y < r.top - INSET_Y
}

/// The tri-state of an entity's point buffer, computed from its length.
#[derive(Clone, Copy, PartialEq, Eq, Structural, Debug)]
pub enum Phase {
    Growing,
    Full,
    Empty,
}

/// One independently animated trail: a bounded point buffer that grows by
/// one point per step under an impulse force until it fills, then stays in
/// a shrinking phase losing its two oldest points per step until it drains,
/// and reseeds itself within the draining step.
#[derive(Debug)]
pub struct Kazaguruma {
    pub points: Vec<Vec2>,
    pub angle: u32,
    pub acceleration: Vec2,
    pub velocity: Vec2,
    pub capacity: usize,
    /// Set when the buffer reaches capacity; it stays set — the trail keeps
    /// shrinking, growing nothing back — until the drain reseeds it.
    pub shrinking: bool,
    pub color: Rgba,
}

/// The ranges the impulse inputs are drawn from: force components and the
/// impulse length.
pub open spec fn force_range(fx: int, fy: int, l: int) -> bool {
    &&& -20 <= fx < 60
    &&& -20 <= fy < 60
    &&& 25 <= l < 50
}

/// Fixed-point scale of the impulse normalization: the direction's
/// magnitude is carried with this many sub-units of precision, so the
/// scaled result's own magnitude stays within a small bounded error of
/// the requested length.
pub const NORM_SCALE: i64 = 0x1_0000;

/// `f` is the vector `(fx, fy)` normalized to unit length and scaled by
/// `l`, computed against the fixed-point magnitude `floor(NORM_SCALE *
/// |(fx, fy)|)`; the zero vector stays zero.
pub open spec fn is_impulse(fx: int, fy: int, l: int, f: Vec2) -> bool {
    exists|m: int|
        #[trigger] is_sqrt(NORM_SCALE * NORM_SCALE * (fx * fx + fy * fy), m) && if m == 0 {
            f.x == 0 && f.y == 0
        } else {
            f.x == scaled(fx, l * NORM_SCALE, m) && f.y == scaled(fy, l * NORM_SCALE, m)
        }
}

/// `f` is a possible outcome of the random impulse generator.
pub open spec fn force_outcome(f: Vec2) -> bool {
    exists|fx: int, fy: int, l: int| #[trigger] is_impulse(fx, fy, l, f) && force_range(fx, fy, l)
}

/// Nothing of the entity changed.
pub open spec fn unchanged(pre: Kazaguruma, post: Kazaguruma) -> bool {
    &&& post.points@ =~= pre.points@
    &&& post.velocity == pre.velocity
    &&& post.acceleration == pre.acceleration
    &&& post.angle == pre.angle
    &&& post.shrinking == pre.shrinking
}

/// A growth step: the pending acceleration plus the impulse fold into the
/// velocity, the new velocity is appended as the new point, and the
/// acceleration resets to zero.
pub open spec fn force_applied(pre: Kazaguruma, post: Kazaguruma, f: Vec2) -> bool {
    &&& post.velocity.x == pre.velocity.x + pre.acceleration.x + f.x
    &&& post.velocity.y == pre.velocity.y + pre.acceleration.y + f.y
    &&& post.points@ =~= pre.points@.push(post.velocity)
    &&& post.acceleration == Vec2::zero_spec()
    &&& post.angle == pre.angle
    &&& post.shrinking == false
}

/// A shrink step: the two oldest points leave the buffer, and the trail
/// stays in the shrinking phase.
pub open spec fn shrunk(pre: Kazaguruma, post: Kazaguruma) -> bool {
    &&& post.points@ =~= pre.points@.skip(2)
    &&& post.velocity == pre.velocity
    &&& post.acceleration == pre.acceleration
    &&& post.angle == pre.angle
    &&& post.shrinking == true
}

/// A reseed: a single fresh start point, the velocity reset to it, zero
/// acceleration, a fresh angle, and the growing phase again.
pub open spec fn reseeded(post: Kazaguruma, seed: Vec2, seed_angle: u32) -> bool {
    &&& post.points@ =~= seq![seed]
    &&& post.velocity == seed
    &&& post.acceleration == Vec2::zero_spec()
    &&& post.angle == seed_angle
    &&& post.shrinking == false
}

/// The full trajectory step relation: empty buffers are left alone; a
/// growing buffer gains the impulse `f`; one that has reached capacity
/// enters the shrinking phase and loses its two oldest points per step —
/// one, if one remains — until it drains; the drain reseeds it within the
/// same step from `seed` and `seed_angle`.
pub open spec fn stepped(
    pre: Kazaguruma,
    post: Kazaguruma,
    f: Vec2,
    seed: Vec2,
    seed_angle: u32,
) -> bool {
    &&& post.capacity == pre.capacity
    &&& post.color == pre.color
    &&& if pre.points@.len() == 0 {
        unchanged(pre, post)
    } else if !pre.shrinking && pre.points@.len() < pre.capacity {
        force_applied(pre, post, f)
    } else if pre.points@.len() > 2 {
        shrunk(pre, post)
    } else {
        reseeded(post, seed, seed_angle)
    }
}

/// The angle after one active step: an exact 360 wraps to 0, anything
/// else advances by the fixed increment.
pub open spec fn angle_next(a: u32) -> u32 {
    if a == 360 {
        0
    } else {
        (a + ANGLE_STEP) as u32
    }
}

/// `pre` with only its angle advanced.
pub open spec fn with_angle(pre: Kazaguruma) -> Kazaguruma {
    Kazaguruma {
        points: pre.points,
        angle: angle_next(pre.angle),
        acceleration: pre.acceleration,
        velocity: pre.velocity,
        capacity: pre.capacity,
        shrinking: pre.shrinking,
        color: pre.color,
    }
}

/// The per-frame relation: an entity without points is skipped whole;
/// otherwise its angle advances and it takes one trajectory step.
pub open spec fn frame_stepped(
    pre: Kazaguruma,
    post: Kazaguruma,
    f: Vec2,
    seed: Vec2,
    seed_angle: u32,
) -> bool {
    if pre.points@.len() == 0 {
        post.capacity == pre.capacity && post.color == pre.color && unchanged(pre, post)
    } else {
        stepped(with_angle(pre), post, f, seed, seed_angle)
    }
}

/// How far one frame step can move an entity's numeric state: each
/// velocity component by at most the pending acceleration plus the largest
/// impulse component, unless a reseed put it inside the viewport window;
/// the acceleration only to zero or not at all; the angle by at most the
/// fixed increment, unless it wrapped or was reseeded below 360.
pub open spec fn bounded_after_step(pre: Kazaguruma, post: Kazaguruma) -> bool {
    &&& (abs_int(post.velocity.x as int) <= abs_int(pre.velocity.x as int) + abs_int(
        pre.acceleration.x as int,
    ) + 49 || -COORD_LIMIT <= post.velocity.x <= COORD_LIMIT)
    &&& (abs_int(post.velocity.y as int) <= abs_int(pre.velocity.y as int) + abs_int(
        pre.acceleration.y as int,
    ) + 49 || -COORD_LIMIT <= post.velocity.y <= COORD_LIMIT)
    &&& (post.acceleration == Vec2::zero_spec() || post.acceleration == pre.acceleration)
    &&& (post.angle <= pre.angle + ANGLE_STEP || post.angle < 360)
}

/// A step of this entity stays within machine bounds.
pub open spec fn step_safe(k: Kazaguruma) -> bool {
    &&& -VEL_LIMIT <= k.velocity.x <= VEL_LIMIT
    &&& -VEL_LIMIT <= k.velocity.y <= VEL_LIMIT
    &&& -VEL_LIMIT <= k.acceleration.x <= VEL_LIMIT
    &&& -VEL_LIMIT <= k.acceleration.y <= VEL_LIMIT
    &&& k.angle <= 0xFFFF_0000
}

/// An entity as the random constructor returns it: well formed, one seed
/// point inside the viewport's inset window, capacity in the creation
/// range, the fixed color.
pub open spec fn freshly_seeded(k: Kazaguruma, r: Rect) -> bool {
    &&& k.wf()
    &&& CAPACITY_LO <= k.capacity < CAPACITY_HI
    &&& k.color == trail_color()
    &&& exists|seed: Vec2, a: u32| #[trigger] reseeded(k, seed, a) && seed_in(seed, r) && a < 360
}

impl Kazaguruma {
    /// The standing invariant: the buffer never exceeds its capacity, and
    /// the capacity is positive.
    pub open spec fn wf(self) -> bool {
        &&& self.points@.len() <= self.capacity
        &&& 1 <= self.capacity
    }

    pub open spec fn phase_spec(self) -> Phase {
        if self.points@.len() == 0 {
            Phase::Empty
        } else if self.shrinking || self.points@.len() == self.capacity {
            Phase::Full
        } else {
            Phase::Growing
        }
    }

    /// The buffer's tri-state, computed on demand: a trail at capacity, or
    /// still draining after having been at capacity, is FULL.
    pub fn phase(&self) -> (p: Phase)
        ensures
            p == self.phase_spec(),
    {
        if self.points.len() == 0 {
            Phase::Empty
        } else if self.shrinking || self.points.len() == self.capacity {
            Phase::Full
        } else {
            Phase::Growing
        }
    }

    /// Deterministic constructor: one start point, a given angle and a
    /// given capacity.
    pub fn seeded(start: Vec2, angle: u32, capacity: usize) -> (k: Kazaguruma)
        requires
            1 <= capacity,
        ensures
            k.wf(),
            reseeded(k, start, angle),
            k.capacity == capacity,
            k.color == trail_color(),
    {
        let mut points: Vec<Vec2> = Vec::new();
        points.push(start);
        Kazaguruma {
            points,
            angle,
            acceleration: Vec2::zero(),
            velocity: start,
            capacity,
            shrinking: false,
            color: Rgba { r: 242, g: 5, b: 25, a: 10 },
        }
    }

    /// Random constructor: a start point uniformly inside the viewport's
    /// inset window, a random angle below 360 and a random capacity in the
    /// creation range.
    pub fn new(win_rect: Rect) -> (k: Kazaguruma)
        requires
            rect_ok(win_rect),
        ensures
            freshly_seeded(k, win_rect),
            k.points@.len() == 1,
            step_safe(k),
    {
        let start = random_seed(win_rect);
        let a = random_in(0, 360);
        let capacity = random_in(CAPACITY_LO as i64, CAPACITY_HI as i64);
        let k = Self::seeded(start, a as u32, capacity as usize);
        proof {
            assert(reseeded(k, start, a as u32));
        }
        k
    }

    /// Add an impulse into the pending acceleration.
    pub fn apply_force(&mut self, force: Vec2)
        requires
            i64::MIN <= old(self).acceleration.x + force.x <= i64::MAX,
            i64::MIN <= old(self).acceleration.y + force.y <= i64::MAX,
        ensures
            final(self).acceleration.x == old(self).acceleration.x + force.x,
            final(self).acceleration.y == old(self).acceleration.y + force.y,
            final(self).points == old(self).points,
            final(self).velocity == old(self).velocity,
            final(self).angle == old(self).angle,
            final(self).capacity == old(self).capacity,
            final(self).color == old(self).color,
            final(self).shrinking == old(self).shrinking,
    {
        self.acceleration = Vec2 {
            x: self.acceleration.x + force.x,
            y: self.acceleration.y + force.y,
        };
    }

    /// A random impulse: components drawn from the force range, normalized
    /// and scaled by a random length.
    pub fn force(&self) -> (f: Vec2)
        ensures
            force_outcome(f),
            -49 <= f.x <= 49,
            -49 <= f.y <= 49,
    {
        random_force()
    }

    /// Advance the rotation angle: an exact 360 wraps to 0, anything else
    /// gains the fixed increment.
    pub fn angle_update(&mut self)
        requires
            old(self).angle == 360 || old(self).angle + ANGLE_STEP <= u32::MAX,
        ensures
            final(self).angle == angle_next(old(self).angle),
            final(self).points == old(self).points,
            final(self).velocity == old(self).velocity,
            final(self).acceleration == old(self).acceleration,
            final(self).capacity == old(self).capacity,
            final(self).color == old(self).color,
            final(self).shrinking == old(self).shrinking,
    {
        if self.angle == 360 {
            self.angle = 0;
        } else {
            self.angle = self.angle + ANGLE_STEP;
        }
    }

    /// One trajectory step with the impulse and reseed inputs given.
    pub fn step_with(&mut self, f: Vec2, seed: Vec2, seed_angle: u32)
        requires
            old(self).wf(),
            i64::MIN <= old(self).velocity.x + old(self).acceleration.x + f.x <= i64::MAX,
            i64::MIN <= old(self).velocity.y + old(self).acceleration.y + f.y <= i64::MAX,
            i64::MIN <= old(self).acceleration.x + f.x <= i64::MAX,
            i64::MIN <= old(self).acceleration.y + f.y <= i64::MAX,
            seed_angle < 360,
        ensures
            final(self).wf(),
            stepped(*old(self), *final(self), f, seed, seed_angle),
    {
        if self.points.len() == 0 {
            return;
        }
        if self.points.len() == self.capacity {
            self.shrinking = true;
        }
        if !self.shrinking {
            self.apply_force(f);
            self.velocity = Vec2 {
                x: self.velocity.x + self.acceleration.x,
                y: self.velocity.y + self.acceleration.y,
            };
            let new_point = self.velocity;
            self.points.push(new_point);
            self.acceleration = Vec2::zero();
        } else {
            self.points.remove(0);
            if self.points.len() > 0 {
                self.points.remove(0);
                proof {
                    assert(self.points@ =~= old(self).points@.skip(2));
                }
            }
            if self.points.len() == 0 {
                self.points.push(seed);
                self.velocity = seed;
                self.angle = seed_angle;
                self.acceleration = Vec2::zero();
                self.shrinking = false;
                proof {
                    assert(self.points@ =~= seq![seed]);
                }
            }
        }
    }

    /// One trajectory step with its random inputs drawn on the spot: a
    /// random impulse, and a reseed point and angle for the case where the
    /// buffer drains.
    pub fn points_update(&mut self, win_rect: Rect)
        requires
            old(self).wf(),
            step_safe(*old(self)),
            rect_ok(win_rect),
        ensures
            final(self).wf(),
            exists|f: Vec2, seed: Vec2, sa: u32|
                #[trigger] stepped(*old(self), *final(self), f, seed, sa) && force_outcome(f)
                    && seed_in(seed, win_rect) && sa < 360,
    {
        let f = random_force();
        let seed = random_seed(win_rect);
        let sa = random_in(0, 360);
        self.step_with(f, seed, sa as u32);
    }

    /// The per-frame operation on one entity: skip it while it has no
    /// points, otherwise advance the angle and take one trajectory step.
    pub fn frame_update_with(&mut self, f: Vec2, seed: Vec2, seed_angle: u32)
        requires
            old(self).wf(),
            step_safe(*old(self)),
            -VEL_LIMIT <= f.x <= VEL_LIMIT,
            -VEL_LIMIT <= f.y <= VEL_LIMIT,
            seed_angle < 360,
        ensures
            final(self).wf(),
            frame_stepped(*old(self), *final(self), f, seed, seed_angle),
    {
        if self.points.len() > 0 {
            self.angle_update();
            self.step_with(f, seed, seed_angle);
        }
    }
}

impl Vec2 {
    /// Normalize to unit length and scale by `length`, in floor
    /// arithmetic; a zero vector has no direction and is guarded to stay
    /// zero.
    pub fn normalize_to(self, length: i64) -> (r: Vec2)
        requires
            -20000 <= self.x <= 20000,
            -20000 <= self.y <= 20000,
            0 <= length <= 20000,
        ensures
            is_impulse(self.x as int, self.y as int, length as int, r),
            -length <= r.x <= length,
            -length <= r.y <= length,
            self.x != 0 || self.y != 0 ==> (length * length - 4 * length <= r.x * r.x + r.y * r.y
                < (length + 1) * (length + 1)),
    {
        impulse_from(self.x, self.y, length)
    }
}

/// A random impulse: components and a length drawn from the force range,
/// normalized and scaled in floor arithmetic.
pub fn random_force() -> (f: Vec2)
    ensures
        force_outcome(f),
        -49 <= f.x <= 49,
        -49 <= f.y <= 49,
{
    let fx = random_in(-20, 60);
    let fy = random_in(-20, 60);
    let length = random_in(25, 50);
    let f = impulse_from(fx, fy, length);
    proof {
        assert(is_impulse(fx as int, fy as int, length as int, f));
    }
    f
}

/// A uniformly random point inside the viewport's inset seeding window.
pub fn random_seed(win_rect: Rect) -> (p: Vec2)
    requires
        rect_ok(win_rect),
    ensures
        seed_in(p, win_rect),
        -COORD_LIMIT <= p.x <= COORD_LIMIT,
        -COORD_LIMIT <= p.y <= COORD_LIMIT,
{
    let x = random_in(win_rect.left + INSET_X, win_rect.right - INSET_X);
    let y = random_in(win_rect.bottom + INSET_Y, win_rect.top - INSET_Y);
    Vec2 { x, y }
}

/// The fixed-point normalize-and-scale keeps the result's squared
/// magnitude within a small bounded error of the requested length:
/// at least `l*l - 4*l` and strictly below `(l+1)*(l+1)`.
pub proof fn lemma_impulse_magnitude(fx: int, fy: int, l: int, m: int)
    requires
        0 <= l <= NORM_SCALE,
        1 <= fx * fx + fy * fy,
        is_sqrt(NORM_SCALE * NORM_SCALE * (fx * fx + fy * fy), m),
    ensures
        NORM_SCALE <= m,
        l * l - 4 * l <= scaled(fx, l * NORM_SCALE, m) * scaled(fx, l * NORM_SCALE, m) + scaled(
            fy,
            l * NORM_SCALE,
            m,
        ) * scaled(fy, l * NORM_SCALE, m) < (l + 1) * (l + 1),
{
    let s = NORM_SCALE as int;
    let n = fx * fx + fy * fy;
    let a = abs_int(fx);
    let b = abs_int(fy);
    assert(a * a == fx * fx && b * b == fy * fy) by (nonlinear_arith)
        requires
            a == fx || a == -fx,
            b == fy || b == -fy,
    ;
    assert(m >= s) by (nonlinear_arith)
        requires
            0 <= m,
            s * s * n < (m + 1) * (m + 1),
            m * m <= s * s * n,
            1 <= n,
            1 <= s,
    ;
    assert(s * a <= m && s * b <= m) by (nonlinear_arith)
        requires
            0 <= a,
            0 <= b,
            a * a + b * b == n,
            s * s * n < (m + 1) * (m + 1),
            0 <= m,
            1 <= s,
    ;
    let lx = a * (l * s);
    let ly = b * (l * s);
    let px = lx / m;
    let py = ly / m;
    assert(scaled(fx, l * s, m) * scaled(fx, l * s, m) == px * px && scaled(fy, l * s, m)
        * scaled(fy, l * s, m) == py * py) by (nonlinear_arith)
        requires
            scaled(fx, l * s, m) == px || scaled(fx, l * s, m) == -px,
            scaled(fy, l * s, m) == py || scaled(fy, l * s, m) == -py,
    ;
    if l == 0 {
        assert(px == 0 && py == 0) by {
            vstd::arithmetic::div_mod::lemma_div_of0(m);
            assert(lx == 0 && ly == 0) by (nonlinear_arith)
                requires
                    lx == a * (l * s),
                    ly == b * (l * s),
                    l == 0,
            ;
        }
    } else {
        vstd::arithmetic::div_mod::lemma_fundamental_div_mod(lx, m);
        vstd::arithmetic::div_mod::lemma_mod_pos_bound(lx, m);
        vstd::arithmetic::div_mod::lemma_fundamental_div_mod(ly, m);
        vstd::arithmetic::div_mod::lemma_mod_pos_bound(ly, m);
        let rx = lx % m;
        let ry = ly % m;
        assert(0 <= lx && 0 <= ly) by (nonlinear_arith)
            requires
                lx == a * (l * s),
                ly == b * (l * s),
                0 <= a,
                0 <= b,
                0 <= l,
                0 <= s,
        ;
        assert(0 <= px && 0 <= py) by (nonlinear_arith)
            requires
                px * m == lx - rx,
                py * m == ly - ry,
                0 <= lx,
                0 <= ly,
                rx < m,
                ry < m,
                1 <= m,
        ;
        // Upper bound: the floored quotients cannot overshoot the exact
        // normalize-and-scale, whose squared magnitude is below
        // l*l * ((m+1)/m)^2 <= ((l+1))^2 since l <= m.
        assert((px * m) * (px * m) <= lx * lx && (py * m) * (py * m) <= ly * ly)
            by (nonlinear_arith)
            requires
                0 <= px * m <= lx,
                0 <= py * m <= ly,
        ;
        assert(lx * lx + ly * ly == (l * s) * (l * s) * n) by (nonlinear_arith)
            requires
                lx == a * (l * s),
                ly == b * (l * s),
                a * a + b * b == n,
        ;
        assert((l * s) * (l * s) * n < l * l * (m + 1) * (m + 1)) by (nonlinear_arith)
            requires
                s * s * n < (m + 1) * (m + 1),
                1 <= l,
        ;
        assert(l * l * (m + 1) * (m + 1) <= (l + 1) * (l + 1) * (m * m)) by (nonlinear_arith)
            requires
                0 <= l,
                0 <= m,
                l <= m,
        ;
        assert((px * px + py * py) * (m * m) == (px * m) * (px * m) + (py * m) * (py * m))
            by (nonlinear_arith);
        assert(px * px + py * py < (l + 1) * (l + 1)) by (nonlinear_arith)
            requires
                (px * px + py * py) * (m * m) < (l + 1) * (l + 1) * (m * m),
                1 <= m,
        ;
        // Lower bound: each floored quotient loses less than one unit,
        // and the direction components are at most m/s each, so the
        // squared magnitude loses at most 4*l.
        assert((px * m) * (px * m) >= lx * lx - 2 * m * lx && (py * m) * (py * m) >= ly * ly - 2
            * m * ly) by (nonlinear_arith)
            requires
                0 <= px * m,
                px * m >= lx - m,
                0 <= py * m,
                py * m >= ly - m,
                0 <= lx,
                0 <= ly,
                1 <= m,
        ;
        assert(lx * lx + ly * ly >= l * l * (m * m)) by (nonlinear_arith)
            requires
                lx * lx + ly * ly == (l * s) * (l * s) * n,
                m * m <= s * s * n,
                0 <= l,
        ;
        assert(2 * m * lx + 2 * m * ly <= 4 * l * (m * m)) by (nonlinear_arith)
            requires
                s * a + s * b <= 2 * m,
                0 <= l,
                0 <= m,
                lx == a * (l * s),
                ly == b * (l * s),
        ;
        assert(px * px + py * py >= l * l - 4 * l) by (nonlinear_arith)
            requires
                (px * px + py * py) * (m * m) == (px * m) * (px * m) + (py * m) * (py * m),
                (px * m) * (px * m) >= lx * lx - 2 * m * lx,
                (py * m) * (py * m) >= ly * ly - 2 * m * ly,
                lx * lx + ly * ly >= l * l * (m * m),
                2 * m * lx + 2 * m * ly <= 4 * l * (m * m),
                1 <= m,
        ;
    }
}

/// The impulse from raw components: `(fx, fy)` normalized to unit length
/// against a fixed-point magnitude and scaled by `length`; a zero vector
/// has no direction and is kept as a zero impulse. For a nonzero vector
/// the result's squared magnitude lies within the stated bounded error of
/// `length` squared.
pub fn impulse_from(fx: i64, fy: i64, length: i64) -> (f: Vec2)
    requires
        -20000 <= fx <= 20000,
        -20000 <= fy <= 20000,
        0 <= length <= 20000,
    ensures
        is_impulse(fx as int, fy as int, length as int, f),
        -length <= f.x <= length,
        -length <= f.y <= length,
        fx != 0 || fy != 0 ==> (length * length - 4 * length <= f.x * f.x + f.y * f.y < (length
            + 1) * (length + 1)),
{
    let fxu: u64 = if fx >= 0 {
        fx as u64
    } else {
        (-fx) as u64
    };
    let fyu: u64 = if fy >= 0 {
        fy as u64
    } else {
        (-fy) as u64
    };
    assert(fxu as int * (fxu as int) + fyu as int * (fyu as int) == fx as int * (fx as int) + fy
        as int * (fy as int) && fxu as int * (fxu as int) <= 20000 * 20000 && fyu as int * (fyu
        as int) <= 20000 * 20000) by (nonlinear_arith)
        requires
            fxu as int == fx as int || fxu as int == -(fx as int),
            fyu as int == fy as int || fyu as int == -(fy as int),
            fxu <= 20000u64,
            fyu <= 20000u64,
    ;
    let sq: u64 = fxu * fxu + fyu * fyu;
    let scaled_sq: u64 = sq * 0x1_0000_0000;
    proof {
        assert(scaled_sq as int == (NORM_SCALE as int) * (NORM_SCALE as int) * (sq as int)
            && scaled_sq < 0x4000_0000_0000_0000) by (nonlinear_arith)
            requires
                sq <= 800000000u64,
                scaled_sq as int == (sq as int) * 0x1_0000_0000,
        ;
    }
    let m = isqrt(scaled_sq);
    if m == 0 {
        let f = Vec2::zero();
        proof {
            assert(scaled_sq == 0) by (nonlinear_arith)
                requires
                    (scaled_sq as int) < ((m as int) + 1) * ((m as int) + 1),
                    m == 0u64,
            ;
            assert(sq == 0) by (nonlinear_arith)
                requires
                    scaled_sq as int == (NORM_SCALE as int) * (NORM_SCALE as int) * (sq as int),
                    scaled_sq == 0u64,
                    1 <= NORM_SCALE,
            ;
            assert(fxu == 0 && fyu == 0) by (nonlinear_arith)
                requires
                    fxu as int * (fxu as int) + fyu as int * (fyu as int) == sq as int,
                    sq == 0u64,
            ;
            assert(is_sqrt(
                (NORM_SCALE as int) * (NORM_SCALE as int) * (fx as int * (fx as int) + fy as int
                    * (fy as int)),
                0,
            ));
        }
        f
    } else {
        proof {
            assert(m as int * (m as int) < 0x8000_0000 * 0x8000_0000) by (nonlinear_arith)
                requires
                    m as int * (m as int) <= scaled_sq as int,
                    scaled_sq < 0x4000_0000_0000_0000u64,
            ;
            if m >= 0x8000_0000 {
                assert(m as int * (m as int) >= 0x8000_0000 * 0x8000_0000) by (nonlinear_arith)
                    requires
                        m >= 0x8000_0000u64,
                ;
            }
            assert(sq >= 1) by (nonlinear_arith)
                requires
                    1 <= m,
                    m as int * (m as int) <= scaled_sq as int,
                    scaled_sq as int == (NORM_SCALE as int) * (NORM_SCALE as int) * (sq as int),
            ;
            lemma_impulse_magnitude(fx as int, fy as int, length as int, m as int);
            assert((NORM_SCALE as int) * (fxu as int) <= m as int && (NORM_SCALE as int) * (fyu
                as int) <= m as int) by (nonlinear_arith)
                requires
                    0 <= fxu as int,
                    0 <= fyu as int,
                    fxu as int * (fxu as int) + fyu as int * (fyu as int) == sq as int,
                    scaled_sq as int == (NORM_SCALE as int) * (NORM_SCALE as int) * (sq as int),
                    (scaled_sq as int) < ((m as int) + 1) * ((m as int) + 1),
                    0 <= m,
                    1 <= NORM_SCALE as int,
            ;
        }
        let num = length * NORM_SCALE;
        let x = scale_div(fx, num, m as i64);
        let y = scale_div(fy, num, m as i64);
        proof {
            lemma_scaled_bounded_by_length(fx as int, length as int, m as int);
            lemma_scaled_bounded_by_length(fy as int, length as int, m as int);
            assert(is_sqrt(
                (NORM_SCALE as int) * (NORM_SCALE as int) * (fx as int * (fx as int) + fy as int
                    * (fy as int)),
                m as int,
            ));
        }
        Vec2 { x, y }
    }
}

/// With the direction component's fixed-point magnitude at most the
/// denominator, the scaled component's magnitude is at most the length.
pub proof fn lemma_scaled_bounded_by_length(c: int, l: int, m: int)
    requires
        0 <= l,
        1 <= m,
        NORM_SCALE * abs_int(c) <= m,
    ensures
        -l <= scaled(c, l * NORM_SCALE, m) <= l,
{
    let s = NORM_SCALE as int;
    let a = abs_int(c);
    assert(0 <= (a * (l * s)) / m <= l) by (nonlinear_arith)
        requires
            0 <= a,
            a * s <= m,
            0 <= l,
            1 <= s,
            1 <= m,
    ;
}

/// The buffer bound is invariant under the step relation: a well-formed
/// entity never exceeds its capacity, whatever inputs the step drew.
pub proof fn lemma_stepped_preserves_wf(
    pre: Kazaguruma,
    post: Kazaguruma,
    f: Vec2,
    seed: Vec2,
    seed_angle: u32,
)
    requires
        pre.wf(),
        stepped(pre, post, f, seed, seed_angle),
    ensures
        post.wf(),
        post.points@.len() <= post.capacity,
{
}

/// A full buffer that takes one trajectory step loses exactly its two
/// oldest points when its capacity exceeds two, and is otherwise drained
/// and reseeded to a single point within that same step.
pub proof fn lemma_full_step_shrinks(
    pre: Kazaguruma,
    post: Kazaguruma,
    f: Vec2,
    seed: Vec2,
    seed_angle: u32,
)
    requires
        pre.wf(),
        pre.points@.len() == pre.capacity,
        stepped(pre, post, f, seed, seed_angle),
    ensures
        pre.capacity > 2 ==> post.points@.len() == pre.capacity - 2,
        pre.capacity <= 2 ==> post.points@.len() == 1,
{
}

/// The shrinking phase is sticky: a trail that has reached capacity, or is
/// already draining, loses its two oldest points on every step — growing
/// nothing back — until at most two remain, and that draining step reseeds
/// it within itself.
pub proof fn lemma_shrink_phase_is_sticky(
    pre: Kazaguruma,
    post: Kazaguruma,
    f: Vec2,
    seed: Vec2,
    seed_angle: u32,
)
    requires
        pre.wf(),
        pre.points@.len() > 0,
        pre.shrinking || pre.points@.len() == pre.capacity,
        stepped(pre, post, f, seed, seed_angle),
    ensures
        pre.points@.len() > 2 ==> post.points@.len() == pre.points@.len() - 2 && post.shrinking
            && post.points@ =~= pre.points@.skip(2),
        pre.points@.len() <= 2 ==> post.points@.len() == 1 && reseeded(post, seed, seed_angle),
{
}

/// A buffer that drains within a step is reseeded within that same step:
/// exactly one point again, and back in the growing phase whenever the
/// capacity exceeds one.
pub proof fn lemma_drain_reseeds(
    pre: Kazaguruma,
    post: Kazaguruma,
    f: Vec2,
    seed: Vec2,
    seed_angle: u32,
)
    requires
        pre.wf(),
        0 < pre.points@.len() <= 2,
        pre.shrinking || pre.points@.len() == pre.capacity,
        stepped(pre, post, f, seed, seed_angle),
    ensures
        post.points@.len() == 1,
        reseeded(post, seed, seed_angle),
        pre.capacity > 1 ==> post.phase_spec() == Phase::Growing,
{
}

/// An entity that enters a trajectory step with points never leaves it
/// empty: draining triggers a reseed within the same step.
pub proof fn lemma_no_empty_after_step(
    pre: Kazaguruma,
    post: Kazaguruma,
    f: Vec2,
    seed: Vec2,
    seed_angle: u32,
)
    requires
        pre.wf(),
        pre.points@.len() > 0,
        stepped(pre, post, f, seed, seed_angle),
    ensures
        post.points@.len() > 0,
{
}

} // verus!
