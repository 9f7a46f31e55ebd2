use vstd::prelude::*;
use crate::vec2::Vec2;

verus! {

/// Coordinates the geometric routines accept: small enough that squared
/// distances and interpolation products stay within `i64`/`u64` range.
pub const COORD_LIMIT: i64 = 0x2000_0000;

pub open spec fn in_window(v: Vec2) -> bool {
    -COORD_LIMIT <= v.x <= COORD_LIMIT && -COORD_LIMIT <= v.y <= COORD_LIMIT
}

impl Vec2 {
    /// Componentwise sum.
    pub fn add(self, other: Vec2) -> (r: Vec2)
        requires
            i64::MIN <= self.x + other.x <= i64::MAX,
            i64::MIN <= self.y + other.y <= i64::MAX,
        ensures
            r.x == self.x + other.x,
            r.y == self.y + other.y,
    {
        Vec2 { x: self.x + other.x, y: self.y + other.y }
    }

    /// Componentwise scaling by an integer factor.
    pub fn scale(self, k: i64) -> (r: Vec2)
        requires
            i64::MIN <= self.x * k <= i64::MAX,
            i64::MIN <= self.y * k <= i64::MAX,
        ensures
            r.x == self.x * k,
            r.y == self.y * k,
    {
        Vec2 { x: self.x * k, y: self.y * k }
    }
}

/// `r` is the floor of the nonnegative square root of `n`.
pub open spec fn is_sqrt(n: int, r: int) -> bool {
    0 <= r && r * r <= n && n < (r + 1) * (r + 1)
}

/// The floor of the square root, as a total function on the integers
/// (zero below one).
pub open spec fn sqrt_floor(n: int) -> int
    decreases n,
{
    if n < 1 {
        0
    } else {
        let r = sqrt_floor(n - 1);
        if (r + 1) * (r + 1) <= n {
            r + 1
        } else {
            r
        }
    }
}

pub proof fn lemma_sqrt_floor_is_sqrt(n: int)
    requires
        n >= 0,
    ensures
        is_sqrt(n, sqrt_floor(n)),
    decreases n,
{
    if n == 0 {
        assert(sqrt_floor(0) == 0);
    } else {
        lemma_sqrt_floor_is_sqrt(n - 1);
        let r = sqrt_floor(n - 1);
        if (r + 1) * (r + 1) <= n {
            assert((r + 2) * (r + 2) > n) by (nonlinear_arith)
                requires
                    0 <= r,
                    n - 1 < (r + 1) * (r + 1),
                    (r + 1) * (r + 1) <= n,
            ;
        }
    }
}

pub proof fn lemma_sqrt_unique(n: int, r1: int, r2: int)
    requires
        is_sqrt(n, r1),
        is_sqrt(n, r2),
    ensures
        r1 == r2,
{
    if r1 < r2 {
        assert((r1 + 1) * (r1 + 1) <= r2 * r2) by (nonlinear_arith)
            requires
                0 <= r1,
                0 <= r2,
                r1 < r2,
        ;
    }
    if r2 < r1 {
        assert((r2 + 1) * (r2 + 1) <= r1 * r1) by (nonlinear_arith)
            requires
                0 <= r1,
                0 <= r2,
                r2 < r1,
        ;
    }
}

/// Floor of the square root, by bisection.
pub fn isqrt(n: u64) -> (r: u64)
    requires
        n < 0x4000_0000_0000_0000,
    ensures
        r as int == sqrt_floor(n as int),
        is_sqrt(n as int, r as int),
{
    let mut lo: u64 = 0;
    let mut hi: u64 = 0x8000_0000;
    assert((0x8000_0000 as int) * (0x8000_0000 as int) > n as int) by (nonlinear_arith)
        requires
            n < 0x4000_0000_0000_0000u64,
    ;
    while lo + 1 < hi
        invariant
            lo < hi,
            hi <= 0x8000_0000,
            (lo as int) * (lo as int) <= n as int,
            (n as int) < (hi as int) * (hi as int),
        decreases hi - lo,
    {
        let mid = lo + (hi - lo) / 2;
        assert(lo < mid < hi);
        assert((mid as int) * (mid as int) < 0x8000_0000_0000_0000) by (nonlinear_arith)
            requires
                mid < 0x8000_0000u64,
        ;
        if mid * mid <= n {
            lo = mid;
        } else {
            hi = mid;
        }
    }
    proof {
        lemma_sqrt_floor_is_sqrt(n as int);
        lemma_sqrt_unique(n as int, lo as int, sqrt_floor(n as int));
    }
    lo
}

/// Sign-preserving scale: `c * num / den` with the division truncating
/// toward zero, stated over a nonnegative quotient of the magnitude.
pub open spec fn scaled(c: int, num: int, den: int) -> int {
    if c >= 0 {
        (c * num) / den
    } else {
        -(((-c) * num) / den)
    }
}

/// Scaling shrinks magnitudes when the numerator is at most the denominator.
pub proof fn lemma_scaled_le_c(c: int, num: int, den: int)
    requires
        0 <= num <= den,
        1 <= den,
    ensures
        -abs_int(c) <= scaled(c, num, den) <= abs_int(c),
{
    let m = abs_int(c);
    assert(0 <= (m * num) / den <= m) by (nonlinear_arith)
        requires
            0 <= m,
            0 <= num <= den,
            1 <= den,
    ;
}

pub open spec fn abs_int(c: int) -> int {
    if c >= 0 {
        c
    } else {
        -c
    }
}

/// Executable counterpart of `scaled`.
pub fn scale_div(c: i64, num: i64, den: i64) -> (r: i64)
    requires
        1 <= den,
        0 <= num <= 0x8000_0000,
        -0x8000_0000 <= c <= 0x8000_0000,
    ensures
        r as int == scaled(c as int, num as int, den as int),
{
    let cu: u64 = if c >= 0 {
        c as u64
    } else {
        (-c) as u64
    };
    assert((cu as int) * (num as int) <= 0x8000_0000 * 0x8000_0000) by (nonlinear_arith)
        requires
            cu <= 0x8000_0000u64,
            0 <= num <= 0x8000_0000i64,
    ;
    let q: u64 = (cu * (num as u64)) / (den as u64);
    proof {
        assert(q as int == ((cu as int) * (num as int)) / (den as int));
        assert(q <= cu * (num as u64));
    }
    if c >= 0 {
        q as i64
    } else {
        -(q as i64)
    }
}

/// Squared Euclidean length of the segment from `a` to `b`.
pub open spec fn seg_len_sq(a: Vec2, b: Vec2) -> int {
    (b.x - a.x) * (b.x - a.x) + (b.y - a.y) * (b.y - a.y)
}

/// Arc length contributed by the segment from `a` to `b`, in floor units.
pub open spec fn seg_len(a: Vec2, b: Vec2) -> int {
    sqrt_floor(seg_len_sq(a, b))
}

pub proof fn lemma_seg_len_bounds(a: Vec2, b: Vec2)
    requires
        in_window(a),
        in_window(b),
    ensures
        0 <= seg_len_sq(a, b) <= 0x2000_0000_0000_0000,
        0 <= seg_len(a, b) < 0x8000_0000,
{
    let dx = b.x - a.x;
    let dy = b.y - a.y;
    assert(0 <= dx * dx <= 0x1000_0000_0000_0000 && 0 <= dy * dy <= 0x1000_0000_0000_0000)
        by (nonlinear_arith)
        requires
            -0x4000_0000 <= dx <= 0x4000_0000,
            -0x4000_0000 <= dy <= 0x4000_0000,
    ;
    lemma_sqrt_floor_is_sqrt(seg_len_sq(a, b));
    let r = sqrt_floor(seg_len_sq(a, b));
    if r >= 0x8000_0000 {
        assert(r * r >= 0x8000_0000 * 0x8000_0000) by (nonlinear_arith)
            requires
                r >= 0x8000_0000,
        ;
    }
}

/// Executable segment length.
pub fn seg_len_exec(a: Vec2, b: Vec2) -> (l: i64)
    requires
        in_window(a),
        in_window(b),
    ensures
        l as int == seg_len(a, b),
        0 <= l < 0x8000_0000,
{
    proof {
        lemma_seg_len_bounds(a, b);
    }
    let dxu: u64 = if b.x >= a.x {
        (b.x - a.x) as u64
    } else {
        (a.x - b.x) as u64
    };
    let dyu: u64 = if b.y >= a.y {
        (b.y - a.y) as u64
    } else {
        (a.y - b.y) as u64
    };
    assert(dxu as int * (dxu as int) + dyu as int * (dyu as int) == seg_len_sq(a, b))
        by (nonlinear_arith)
        requires
            dxu as int == b.x - a.x || dxu as int == a.x - b.x,
            dyu as int == b.y - a.y || dyu as int == a.y - b.y,
            seg_len_sq(a, b) == (b.x - a.x) * (b.x - a.x) + (b.y - a.y) * (b.y - a.y),
    ;
    let sq: u64 = dxu * dxu + dyu * dyu;
    let r = isqrt(sq);
    proof {
        lemma_sqrt_floor_is_sqrt(sq as int);
    }
    r as i64
}

} // verus!
