use vstd::prelude::*;
use crate::vec2::Vec2;
use crate::geom::{
    in_window, scaled, seg_len, seg_len_exec, lemma_scaled_le_c, lemma_sqrt_floor_is_sqrt,
    lemma_seg_len_bounds, scale_div,
};

verus! {

/// Total arc length of a polyline, as the sum of its floor segment lengths.
pub open spec fn perimeter(pts: Seq<Vec2>) -> int
    decreases pts.len(),
{
    if pts.len() <= 1 {
        0
    } else {
        seg_len(pts[0], pts[1]) + perimeter(pts.skip(1))
    }
}

/// The point a fraction `d / l` of the way from `a` to `b`.
pub open spec fn lerp(a: Vec2, b: Vec2, d: int, l: int) -> Vec2 {
    Vec2 {
        x: (a.x + scaled(b.x - a.x, d, l)) as i64,
        y: (a.y + scaled(b.y - a.y, d, l)) as i64,
    }
}

/// The point at arc-length offset `d` along the polyline: walk segments
/// until `d` falls inside one, then interpolate; past the end, the last
/// vertex.
pub open spec fn point_at(pts: Seq<Vec2>, d: int) -> Vec2
    decreases pts.len(),
{
    if pts.len() == 0 {
        Vec2 { x: 0, y: 0 }
    } else if pts.len() == 1 {
        pts[0]
    } else {
        let l = seg_len(pts[0], pts[1]);
        if d < l {
            lerp(pts[0], pts[1], d, l)
        } else {
            point_at(pts.skip(1), d - l)
        }
    }
}

pub proof fn lemma_perimeter_nonneg(pts: Seq<Vec2>)
    ensures
        perimeter(pts) >= 0,
    decreases pts.len(),
{
    if pts.len() > 1 {
        let sq = crate::geom::seg_len_sq(pts[0], pts[1]);
        assert(sq >= 0) by (nonlinear_arith)
            requires
                sq == (pts[1].x - pts[0].x) * (pts[1].x - pts[0].x) + (pts[1].y - pts[0].y)
                    * (pts[1].y - pts[0].y),
        ;
        lemma_sqrt_floor_is_sqrt(sq);
        lemma_perimeter_nonneg(pts.skip(1));
    }
}

pub proof fn lemma_perimeter_bound(pts: Seq<Vec2>)
    requires
        forall|i: int| 0 <= i < pts.len() ==> in_window(#[trigger] pts[i]),
    ensures
        perimeter(pts) <= pts.len() * 0x8000_0000,
    decreases pts.len(),
{
    if pts.len() <= 1 {
    } else {
        lemma_seg_len_bounds(pts[0], pts[1]);
        assert(forall|i: int|
            0 <= i < pts.skip(1).len() ==> in_window(#[trigger] pts.skip(1)[i]));
        lemma_perimeter_bound(pts.skip(1));
        assert((pts.len() - 1) * 0x8000_0000 + 0x8000_0000 == pts.len() * 0x8000_0000)
            by (nonlinear_arith);
    }
}

/// Past its full arc length, the walk rests at the final vertex.
pub proof fn lemma_point_at_end(pts: Seq<Vec2>, d: int)
    requires
        pts.len() >= 1,
        d >= perimeter(pts),
    ensures
        point_at(pts, d) == pts[pts.len() - 1],
    decreases pts.len(),
{
    if pts.len() == 1 {
    } else {
        let l = seg_len(pts[0], pts[1]);
        lemma_perimeter_nonneg(pts.skip(1));
        let sq = crate::geom::seg_len_sq(pts[0], pts[1]);
        assert(sq >= 0) by (nonlinear_arith)
            requires
                sq == (pts[1].x - pts[0].x) * (pts[1].x - pts[0].x) + (pts[1].y - pts[0].y)
                    * (pts[1].y - pts[0].y),
        ;
        lemma_sqrt_floor_is_sqrt(sq);
        assert(d >= l);
        lemma_point_at_end(pts.skip(1), d - l);
        assert(pts.skip(1)[pts.skip(1).len() - 1] == pts[pts.len() - 1]);
    }
}

/// Executable interpolation along one segment.
fn lerp_exec(a: Vec2, b: Vec2, d: i64, l: i64) -> (p: Vec2)
    requires
        in_window(a),
        in_window(b),
        0 <= d < l,
        l < 0x8000_0000,
    ensures
        p == lerp(a, b, d as int, l as int),
{
    let ox = scale_div(b.x - a.x, d, l);
    let oy = scale_div(b.y - a.y, d, l);
    proof {
        lemma_scaled_le_c(b.x - a.x, d as int, l as int);
        lemma_scaled_le_c(b.y - a.y, d as int, l as int);
    }
    Vec2 { x: a.x + ox, y: a.y + oy }
}

/// Walk a flattened polyline at a fixed arc-length interval, emitting the
/// point at every offset `0, interval, 2*interval, ...` up to and including
/// the total arc length. The samples are ordered by strictly increasing
/// arc-length position and none lies past the end of the path.
pub fn walk_polyline(pts: &Vec<Vec2>, interval: i64) -> (out: Vec<Vec2>)
    requires
        1 <= interval <= 0x0010_0000_0000_0000,
        pts@.len() <= 0x10_0000,
        forall|i: int| 0 <= i < pts@.len() ==> in_window(#[trigger] pts@[i]),
    ensures
        pts@.len() == 0 ==> out@.len() == 0,
        pts@.len() >= 1 ==> out@.len() == perimeter(pts@) / (interval as int) + 1,
        forall|k: int| 0 <= k < out@.len() ==> out@[k] == point_at(pts@, k * interval),
{
    let n = pts.len();
    let mut out: Vec<Vec2> = Vec::new();
    if n == 0 {
        return out;
    }
    let ghost per = perimeter(pts@);
    proof {
        lemma_perimeter_nonneg(pts@);
        lemma_perimeter_bound(pts@);
        assert(pts@.len() * 0x8000_0000 <= 0x10_0000 * 0x8000_0000) by (nonlinear_arith)
            requires
                pts@.len() <= 0x10_0000,
        ;
        assert(pts@.skip(0) =~= pts@);
        assert(out@.len() == 0);
        assert(0int * interval == 0) by (nonlinear_arith);
    }
    let mut i: usize = 0;
    let mut dist: i64 = 0;
    let mut next: i64 = 0;
    while i + 1 < n
        invariant
            pts@.len() == n,
            1 <= n <= 0x10_0000,
            i < n,
            1 <= interval <= 0x0010_0000_0000_0000,
            forall|j: int| 0 <= j < pts@.len() ==> in_window(#[trigger] pts@[j]),
            per == perimeter(pts@),
            0 <= per <= 0x8_0000_0000_0000,
            0 <= dist,
            dist + perimeter(pts@.skip(i as int)) == per,
            perimeter(pts@.skip(i as int)) >= 0,
            dist <= next,
            next - interval < dist,
            next == out@.len() * interval,
            forall|d: int|
                dist <= d ==> point_at(pts@, d) == point_at(
                    pts@.skip(i as int),
                    d - dist,
                ),
            forall|k: int| 0 <= k < out@.len() ==> out@[k] == point_at(pts@, k * interval),
        decreases n - i,
    {
        let a = pts[i];
        let b = pts[i + 1];
        let l = seg_len_exec(a, b);
        proof {
            assert(pts@.skip(i as int)[0] == pts@[i as int]);
            assert(pts@.skip(i as int)[1] == pts@[i as int + 1]);
            assert(pts@.skip(i as int).len() >= 2);
            assert(perimeter(pts@.skip(i as int)) == l + perimeter(pts@.skip(i as int).skip(1)));
            assert(pts@.skip(i as int).skip(1) =~= pts@.skip(i as int + 1));
            lemma_perimeter_nonneg(pts@.skip(i as int + 1));
        }
        while next < dist + l
            invariant
                pts@.len() == n,
                1 <= n <= 0x10_0000,
                i + 1 < n,
                1 <= interval <= 0x0010_0000_0000_0000,
                forall|j: int| 0 <= j < pts@.len() ==> in_window(#[trigger] pts@[j]),
                per == perimeter(pts@),
                0 <= per <= 0x8_0000_0000_0000,
                0 <= dist,
                a == pts@[i as int],
                b == pts@[i as int + 1],
                l as int == seg_len(a, b),
                0 <= l < 0x8000_0000,
                dist + l <= per,
                dist <= next,
                next - interval < dist + l,
                next == out@.len() * interval,
                forall|d: int|
                    dist <= d ==> point_at(pts@, d) == point_at(
                        pts@.skip(i as int),
                        d - dist,
                    ),
                forall|k: int| 0 <= k < out@.len() ==> out@[k] == point_at(pts@, k * interval),
            decreases per + interval - next,
        {
            let p = lerp_exec(a, b, next - dist, l);
            proof {
                let d = next as int;
                assert(point_at(pts@, d) == point_at(pts@.skip(i as int), d - dist));
                assert(point_at(pts@.skip(i as int), d - dist) == lerp(a, b, d - dist, l as int));
                assert((out@.len() + 1) * interval == out@.len() * interval + interval)
                    by (nonlinear_arith);
            }
            out.push(p);
            next = next + interval;
        }
        proof {
            assert(forall|d: int|
                dist + l <= d ==> point_at(pts@, d) == point_at(
                    pts@.skip(i as int + 1),
                    d - (dist + l),
                )) by {
                assert forall|d: int| dist + l <= d implies point_at(pts@, d) == point_at(
                    pts@.skip(i as int + 1),
                    d - (dist + l),
                ) by {
                    assert(point_at(pts@, d) == point_at(pts@.skip(i as int), d - dist));
                    assert(point_at(pts@.skip(i as int), d - dist) == point_at(
                        pts@.skip(i as int).skip(1),
                        d - dist - l,
                    ));
                    assert(pts@.skip(i as int).skip(1) =~= pts@.skip(i as int + 1));
                }
            }
        }
        dist = dist + l;
        i = i + 1;
    }
    proof {
        assert(i == n - 1);
        assert(pts@.skip(i as int).len() == 1);
        assert(dist == per);
    }
    if next == dist {
        let p = pts[n - 1];
        proof {
            lemma_point_at_end(pts@, per);
            assert(out@.len() * interval == per);
            vstd::arithmetic::div_mod::lemma_fundamental_div_mod_converse(
                per,
                interval as int,
                out@.len() as int,
                0,
            );
        }
        out.push(p);
        proof {
            assert(out@.len() == per / (interval as int) + 1);
            assert(forall|k: int|
                0 <= k < out@.len() - 1 ==> out@[k] == point_at(pts@, k * interval));
            assert(out@[out@.len() - 1] == point_at(pts@, (out@.len() - 1) * interval));
        }
    } else {
        proof {
            let len = out@.len() as int;
            assert(len * interval > per);
            assert(len * interval - interval < per);
            assert(len >= 1);
            assert(per == (len - 1) * interval + (per - (len - 1) * interval));
            assert(0 <= per - (len - 1) * interval < interval) by (nonlinear_arith)
                requires
                    len * interval > per,
                    len * interval - interval < per,
                    interval >= 1,
            ;
            vstd::arithmetic::div_mod::lemma_fundamental_div_mod_converse(
                per,
                interval as int,
                len - 1,
                per - (len - 1) * interval,
            );
        }
    }
    out
}

} // verus!
