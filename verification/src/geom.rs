//! Geometry/collision kernel.
//!
//! Both tests are decided exactly over the fixed-point integers: the
//! segment-circle test compares the squared minimum distance from the
//! clamped projection, and the moving-circle test decides whether the
//! clearance quadratic has a root in the unit turn interval, all by
//! cross-multiplied integer comparisons with no rounding.

use vstd::prelude::*;
use crate::consts::GEOM_BOUND;

verus! {

/// Squared distance between two points.
pub open spec fn dist_sq(ax: int, ay: int, bx: int, by: int) -> int {
    (bx - ax) * (bx - ax) + (by - ay) * (by - ay)
}

/// A coordinate small enough for every geometric test to be exact.
pub open spec fn in_geom_range(v: int) -> bool {
    -(GEOM_BOUND as int) <= v <= GEOM_BOUND as int
}

/// True when the segment from `(sx, sy)` to `(ex, ey)` passes within
/// distance `rr` of the centre `(cx, cy)`: the squared distance from the
/// centre to the nearest point of the segment (the projection parameter
/// clamped to the unit interval) is at most `rr * rr`.
pub open spec fn seg_circle_hit(sx: int, sy: int, ex: int, ey: int, cx: int, cy: int, rr: int) -> bool {
    let vx = ex - sx;
    let vy = ey - sy;
    let wx = cx - sx;
    let wy = cy - sy;
    let dd = vx * vx + vy * vy;
    let nn = vx * wx + vy * wy;
    if nn <= 0 {
        wx * wx + wy * wy <= rr * rr
    } else if nn >= dd {
        dist_sq(ex, ey, cx, cy) <= rr * rr
    } else {
        (wx * wx + wy * wy) * dd - nn * nn <= rr * rr * dd
    }
}

/// True when two circles of combined radius `rr`, one at `(px, py)` moving
/// by `(vx, vy)` over the turn and the other at `(qx, qy)` moving by
/// `(ux, uy)`, come to exactly distance `rr` at some instant of the turn:
/// the clearance quadratic `a t^2 + b t + c` (squared distance minus
/// `rr^2` under linear relative motion) has a root in the unit interval.
/// With no relative velocity it degenerates to the static distance test.
pub open spec fn moving_circles_hit(
    px: int, py: int, vx: int, vy: int,
    qx: int, qy: int, ux: int, uy: int,
    rr: int,
) -> bool {
    let dx = px - qx;
    let dy = py - qy;
    let dvx = vx - ux;
    let dvy = vy - uy;
    let a = dvx * dvx + dvy * dvy;
    let b = 2 * (dx * dvx + dy * dvy);
    let c = dx * dx + dy * dy - rr * rr;
    if a == 0 {
        c <= 0
    } else {
        // the parabola restricted to the unit interval attains every value
        // between its minimum and its maximum, so it has a zero there
        // exactly when the minimum is non-positive and the maximum is
        // non-negative
        (c <= 0 || a + b + c <= 0 || (b <= 0 && -b <= 2 * a && 4 * (a * c) <= b * b))
        && (c >= 0 || a + b + c >= 0)
    }
}

/// Product of values bounded in magnitude is bounded by the product of the bounds.
pub proof fn lemma_mul_bound(x: int, y: int, b1: int, b2: int)
    by (nonlinear_arith)
    requires
        -b1 <= x <= b1,
        -b2 <= y <= b2,
        0 <= b1,
        0 <= b2,
    ensures
        -(b1 * b2) <= x * y <= b1 * b2,
{
}

/// A square is non-negative and bounded by the square of the bound.
pub proof fn lemma_sq_bound(x: int, b: int)
    by (nonlinear_arith)
    requires
        -b <= x <= b,
        0 <= b,
    ensures
        0 <= x * x <= b * b,
{
}

/// Whether the line segment between two points passes within
/// `radius + fudge` of the circle's centre, decided exactly.
pub fn intersect_segment_circle(
    sx: i64, sy: i64, ex: i64, ey: i64,
    cx: i64, cy: i64, radius: i64, fudge: i64,
) -> (hit: bool)
    requires
        in_geom_range(sx as int),
        in_geom_range(sy as int),
        in_geom_range(ex as int),
        in_geom_range(ey as int),
        in_geom_range(cx as int),
        in_geom_range(cy as int),
        0 <= radius,
        0 <= fudge,
        radius + fudge <= GEOM_BOUND as int,
    ensures
        hit == seg_circle_hit(sx as int, sy as int, ex as int, ey as int, cx as int, cy as int, radius + fudge),
{
    let rr: i128 = radius as i128 + fudge as i128;
    let vx: i128 = ex as i128 - sx as i128;
    let vy: i128 = ey as i128 - sy as i128;
    let wx: i128 = cx as i128 - sx as i128;
    let wy: i128 = cy as i128 - sy as i128;
    proof {
        lemma_sq_bound(vx as int, 200_000_000);
        lemma_sq_bound(vy as int, 200_000_000);
        lemma_sq_bound(wx as int, 200_000_000);
        lemma_sq_bound(wy as int, 200_000_000);
        lemma_sq_bound(rr as int, 100_000_000);
        lemma_mul_bound(vx as int, wx as int, 200_000_000, 200_000_000);
        lemma_mul_bound(vy as int, wy as int, 200_000_000, 200_000_000);
    }
    let dd: i128 = vx * vx + vy * vy;
    let nn: i128 = vx * wx + vy * wy;
    let wsq: i128 = wx * wx + wy * wy;
    let rsq: i128 = rr * rr;
    if nn <= 0 {
        wsq <= rsq
    } else if nn >= dd {
        let tx: i128 = cx as i128 - ex as i128;
        let ty: i128 = cy as i128 - ey as i128;
        proof {
            lemma_sq_bound(tx as int, 200_000_000);
            lemma_sq_bound(ty as int, 200_000_000);
        }
        tx * tx + ty * ty <= rsq
    } else {
        proof {
            lemma_mul_bound(wsq as int, dd as int, 80_000_000_000_000_000, 80_000_000_000_000_000);
            lemma_mul_bound(nn as int, nn as int, 80_000_000_000_000_000, 80_000_000_000_000_000);
            lemma_mul_bound(rsq as int, dd as int, 80_000_000_000_000_000, 80_000_000_000_000_000);
        }
        wsq * dd - nn * nn <= rsq * dd
    }
}

/// Whether two uniformly moving circles of combined clearance `rr`
/// touch during the turn, decided exactly from the clearance quadratic.
pub fn check_moving_collision(
    px: i64, py: i64, vx: i64, vy: i64,
    qx: i64, qy: i64, ux: i64, uy: i64,
    rr: i64,
) -> (hit: bool)
    requires
        in_geom_range(px as int),
        in_geom_range(py as int),
        in_geom_range(vx as int),
        in_geom_range(vy as int),
        in_geom_range(qx as int),
        in_geom_range(qy as int),
        in_geom_range(ux as int),
        in_geom_range(uy as int),
        0 <= rr <= GEOM_BOUND as int,
    ensures
        hit == moving_circles_hit(
            px as int, py as int, vx as int, vy as int,
            qx as int, qy as int, ux as int, uy as int, rr as int),
{
    let dx: i128 = px as i128 - qx as i128;
    let dy: i128 = py as i128 - qy as i128;
    let dvx: i128 = vx as i128 - ux as i128;
    let dvy: i128 = vy as i128 - uy as i128;
    proof {
        lemma_sq_bound(dx as int, 200_000_000);
        lemma_sq_bound(dy as int, 200_000_000);
        lemma_sq_bound(dvx as int, 200_000_000);
        lemma_sq_bound(dvy as int, 200_000_000);
        lemma_sq_bound(rr as int, 100_000_000);
        lemma_mul_bound(dx as int, dvx as int, 200_000_000, 200_000_000);
        lemma_mul_bound(dy as int, dvy as int, 200_000_000, 200_000_000);
    }
    let a: i128 = dvx * dvx + dvy * dvy;
    let b: i128 = 2 * (dx * dvx + dy * dvy);
    let c: i128 = dx * dx + dy * dy - rr as i128 * rr as i128;
    if a == 0 {
        c <= 0
    } else {
        proof {
            lemma_mul_bound(a as int, c as int, 160_000_000_000_000_000, 160_000_000_000_000_000);
            lemma_mul_bound(b as int, b as int, 160_000_000_000_000_000, 160_000_000_000_000_000);
        }
        let min_reached: bool = c <= 0 || a + b + c <= 0 || (b <= 0 && -b <= 2 * a && 4 * (a * c) <= b * b);
        let max_reached: bool = c >= 0 || a + b + c >= 0;
        min_reached && max_reached
    }
}

/// Swapping the two moving circles does not change the outcome of the
/// collision test: relative position and relative velocity are both
/// negated, and the quadratic's coefficients only involve their products.
pub proof fn lemma_moving_collision_symmetric(
    px: int, py: int, vx: int, vy: int,
    qx: int, qy: int, ux: int, uy: int,
    rr: int,
)
    ensures
        moving_circles_hit(px, py, vx, vy, qx, qy, ux, uy, rr)
            == moving_circles_hit(qx, qy, ux, uy, px, py, vx, vy, rr),
{
    let dx = px - qx;
    let dy = py - qy;
    let dvx = vx - ux;
    let dvy = vy - uy;
    assert((-dvx) * (-dvx) == dvx * dvx) by (nonlinear_arith);
    assert((-dvy) * (-dvy) == dvy * dvy) by (nonlinear_arith);
    assert((-dx) * (-dx) == dx * dx) by (nonlinear_arith);
    assert((-dy) * (-dy) == dy * dy) by (nonlinear_arith);
    assert((-dx) * (-dvx) == dx * dvx) by (nonlinear_arith);
    assert((-dy) * (-dvy) == dy * dvy) by (nonlinear_arith);
}

/// A segment always intersects a circle centred at its own midpoint,
/// whatever the clearance: the centre lies on the segment itself.
/// The midpoint hypothesis is stated doubled so that it stays integral.
pub proof fn lemma_seg_circle_midpoint_hit(sx: int, sy: int, ex: int, ey: int, cx: int, cy: int, rr: int)
    requires
        2 * cx == sx + ex,
        2 * cy == sy + ey,
        rr >= 0,
    ensures
        seg_circle_hit(sx, sy, ex, ey, cx, cy, rr),
{
    let vx = ex - sx;
    let vy = ey - sy;
    let wx = cx - sx;
    let wy = cy - sy;
    let dd = vx * vx + vy * vy;
    let nn = vx * wx + vy * wy;
    assert(2 * wx == vx);
    assert(2 * wy == vy);
    assert(2 * nn == dd) by (nonlinear_arith)
        requires 2 * wx == vx && 2 * wy == vy && nn == vx * wx + vy * wy && dd == vx * vx + vy * vy;
    assert(dd >= 0) by (nonlinear_arith)
        requires dd == vx * vx + vy * vy;
    assert(rr * rr >= 0) by (nonlinear_arith);
    if nn <= 0 {
        assert(dd <= 0);
        assert(vx * vx >= 0 && vy * vy >= 0) by (nonlinear_arith);
        assert(vx * vx == 0 && vy * vy == 0);
        assert(vx == 0 && vy == 0) by (nonlinear_arith)
            requires vx * vx == 0 && vy * vy == 0;
        assert(wx * wx + wy * wy == 0) by (nonlinear_arith)
            requires 2 * wx == vx && 2 * wy == vy && vx == 0 && vy == 0;
    } else {
        assert(nn < dd);
        // the projection lands at the midpoint: the minimum distance is zero
        assert((wx * wx + wy * wy) * dd - nn * nn == 0) by (nonlinear_arith)
            requires 2 * wx == vx && 2 * wy == vy && nn == vx * wx + vy * wy && dd == vx * vx + vy * vy;
        assert(rr * rr * dd >= 0) by (nonlinear_arith)
            requires rr * rr >= 0 && dd >= 0;
    }
}

/// Lagrange's identity for two plane vectors: the defect of the
/// Cauchy-Schwarz inequality is the square of the cross product.
pub proof fn lemma_lagrange(wx: int, wy: int, vx: int, vy: int)
    ensures
        (wx * wx + wy * wy) * (vx * vx + vy * vy) - (vx * wx + vy * wy) * (vx * wx + vy * wy)
            == (wx * vy - wy * vx) * (wx * vy - wy * vx),
{
    let a = wx * wx;
    let b = wy * wy;
    let c = vx * vx;
    let d = vy * vy;
    let e = vx * wx;
    let f = vy * wy;
    let g = wx * vy;
    let h = wy * vx;
    assert((a + b) * (c + d) == a * c + a * d + b * c + b * d) by (nonlinear_arith);
    assert((e + f) * (e + f) == e * e + 2 * (e * f) + f * f) by (nonlinear_arith);
    assert((g - h) * (g - h) == g * g - 2 * (g * h) + h * h) by (nonlinear_arith);
    assert(e * e == a * c) by (nonlinear_arith)
        requires e == vx * wx && a == wx * wx && c == vx * vx;
    assert(f * f == b * d) by (nonlinear_arith)
        requires f == vy * wy && b == wy * wy && d == vy * vy;
    assert(g * g == a * d) by (nonlinear_arith)
        requires g == wx * vy && a == wx * wx && d == vy * vy;
    assert(h * h == b * c) by (nonlinear_arith)
        requires h == wy * vx && b == wy * wy && c == vx * vx;
    assert(e * f == g * h) by (nonlinear_arith)
        requires e == vx * wx && f == vy * wy && g == wx * vy && h == wy * vx;
}

/// A circle whose centre is farther from the segment's start than the
/// clearance plus the whole segment length cannot intersect the segment.
/// `lb` is any upper bound on the segment length (`lb * lb >= dd`).
#[verifier::rlimit(100)]
pub proof fn lemma_seg_circle_far_miss(sx: int, sy: int, ex: int, ey: int, cx: int, cy: int, rr: int, lb: int)
    requires
        rr >= 0,
        lb >= 0,
        lb * lb >= (ex - sx) * (ex - sx) + (ey - sy) * (ey - sy),
        dist_sq(sx, sy, cx, cy) > (rr + lb) * (rr + lb),
    ensures
        !seg_circle_hit(sx, sy, ex, ey, cx, cy, rr),
{
    let vx = ex - sx;
    let vy = ey - sy;
    let wx = cx - sx;
    let wy = cy - sy;
    let dd = vx * vx + vy * vy;
    let nn = vx * wx + vy * wy;
    let aa = wx * wx + wy * wy;
    assert(aa == dist_sq(sx, sy, cx, cy));
    assert(aa > (rr + lb) * (rr + lb));
    assert((rr + lb) * (rr + lb) >= rr * rr) by (nonlinear_arith)
        requires rr >= 0 && lb >= 0;
    assert(dd >= 0) by (nonlinear_arith)
        requires dd == vx * vx + vy * vy;
    if nn <= 0 {
        assert(aa > rr * rr);
    } else if nn >= dd {
        // Cauchy-Schwarz: nn * nn <= aa * dd, via the Lagrange identity
        lemma_lagrange(wx, wy, vx, vy);
        assert((wx * vy - wy * vx) * (wx * vy - wy * vx) >= 0) by (nonlinear_arith);
        assert(nn * nn <= aa * dd);
        // the distance to the far endpoint exceeds the clearance
        assert((cx - ex) * (cx - ex) + (cy - ey) * (cy - ey) == aa - 2 * nn + dd) by (nonlinear_arith)
            requires aa == wx * wx + wy * wy && dd == vx * vx + vy * vy && nn == vx * wx + vy * wy
                && wx == cx - sx && wy == cy - sy && vx == ex - sx && vy == ey - sy;
        assert(dist_sq(ex, ey, cx, cy) == aa - 2 * nn + dd);
        // aa - dd - rr*rr > 2*rr*lb >= 0, so its square exceeds 4*rr*rr*lb*lb >= 4*dd*rr*rr
        assert(aa - dd - rr * rr > 2 * (rr * lb)) by (nonlinear_arith)
            requires aa > (rr + lb) * (rr + lb) && dd <= lb * lb && rr >= 0 && lb >= 0;
        assert(2 * (rr * lb) >= 0) by (nonlinear_arith)
            requires rr >= 0 && lb >= 0;
        assert((aa - dd - rr * rr) * (aa - dd - rr * rr) > 4 * (dd * (rr * rr))) by (nonlinear_arith)
            requires aa - dd - rr * rr > 2 * (rr * lb) && 2 * (rr * lb) >= 0
                && dd <= lb * lb && dd >= 0 && rr >= 0 && lb >= 0;
        // shifting the square by the cross term turns the bound into one on the sum form
        assert((aa + dd - rr * rr) * (aa + dd - rr * rr)
            == (aa - dd - rr * rr) * (aa - dd - rr * rr) + 4 * (dd * aa) - 4 * (dd * (rr * rr))) by (nonlinear_arith);
        assert((aa + dd - rr * rr) * (aa + dd - rr * rr) > 4 * (dd * aa));
        assert((aa + dd - rr * rr) * (aa + dd - rr * rr) > 4 * (nn * nn)) by (nonlinear_arith)
            requires (aa + dd - rr * rr) * (aa + dd - rr * rr) > 4 * (dd * aa) && nn * nn <= aa * dd;
        assert(aa + dd - rr * rr > 2 * nn) by (nonlinear_arith)
            requires (aa + dd - rr * rr) * (aa + dd - rr * rr) > 4 * (nn * nn)
                && aa - dd - rr * rr > 0 && dd >= 0 && nn > 0;
        assert(aa - 2 * nn + dd > rr * rr);
    } else {
        // interior case: nn < dd, so nn * nn < dd * dd <= dd * lb * lb
        assert(dd > 0);
        assert(nn * nn < dd * dd) by (nonlinear_arith)
            requires 0 < nn < dd;
        assert(aa * dd - nn * nn > rr * rr * dd) by (nonlinear_arith)
            requires aa > (rr + lb) * (rr + lb) && nn * nn < dd * dd && dd <= lb * lb
                && dd > 0 && rr >= 0 && lb >= 0;
    }
}

} // verus!
