//! Plane geometry over scaled integers: points, squared distances, and an
//! exact integer square root.
use vstd::prelude::*;

use crate::COORD_LIMIT;
use crate::DIST_SQ_LIMIT;
use crate::ISQRT_LIMIT;
use crate::SCALE;

verus! {

/// A position in the plane, in model units (display units times `SCALE`).
#[derive(Clone, Copy)]
pub struct Point {
    pub x: i64,
    pub y: i64,
}

/// Squared Euclidean distance between `(ax, ay)` and `(bx, by)`.
pub open spec fn dsq(ax: int, ay: int, bx: int, by: int) -> int {
    (ax - bx) * (ax - bx) + (ay - by) * (ay - by)
}

/// `r` is the floor of the real square root of `n`.
pub open spec fn is_sqrt_floor(r: int, n: int) -> bool {
    &&& 0 <= r
    &&& r * r <= n
    &&& n < (r + 1) * (r + 1)
}

/// Squared distance, computed in executable code.
pub fn dsq_exec(ax: i64, ay: i64, bx: i64, by: i64) -> (r: i64)
    requires
        -2_000_000_000 <= ax - bx <= 2_000_000_000,
        -2_000_000_000 <= ay - by <= 2_000_000_000,
    ensures
        r == dsq(ax as int, ay as int, bx as int, by as int),
{
    let dx = ax - bx;
    let dy = ay - by;
    proof {
        assert(dx * dx <= 4_000_000_000_000_000_000 && dx * dx >= 0) by (nonlinear_arith)
            requires
                -2_000_000_000 <= dx <= 2_000_000_000,
        ;
        assert(dy * dy <= 4_000_000_000_000_000_000 && dy * dy >= 0) by (nonlinear_arith)
            requires
                -2_000_000_000 <= dy <= 2_000_000_000,
        ;
    }
    dx * dx + dy * dy
}

/// Floor of the square root of `n`, by bisection.
pub fn isqrt(n: i64) -> (r: i64)
    requires
        0 <= n <= ISQRT_LIMIT,
    ensures
        is_sqrt_floor(r as int, n as int),
{
    if n == 0 {
        return 0;
    }
    let mut lo: i64 = 0;
    let mut hi: i64 = 400_000_000;
    proof {
        assert(400_000_000 * 400_000_000 > ISQRT_LIMIT) by (nonlinear_arith);
    }
    while hi - lo > 1
        invariant
            0 <= lo < hi <= 400_000_000,
            lo * lo <= n,
            n < hi * hi,
        decreases hi - lo,
    {
        let mid = lo + (hi - lo) / 2;
        proof {
            assert(0 <= mid * mid <= 160_000_000_000_000_000) by (nonlinear_arith)
                requires
                    0 <= mid <= 400_000_000,
            ;
        }
        if mid * mid <= n {
            lo = mid;
        } else {
            hi = mid;
        }
    }
    lo
}

/// `dir * speed / SCALE`, with the division taken on the magnitude so that
/// it rounds toward zero for either sign of `dir`.
pub open spec fn scaled_component(dir: int, speed: int) -> int {
    if dir >= 0 {
        (dir * speed) / (SCALE as int)
    } else {
        -(((-dir) * speed) / (SCALE as int))
    }
}

/// A velocity component never exceeds the scalar speed in magnitude.
pub proof fn lemma_scaled_component_bounded(dir: int, speed: int)
    requires
        -SCALE <= dir <= SCALE,
        0 <= speed,
    ensures
        -speed <= scaled_component(dir, speed) <= speed,
{
    let mag = if dir >= 0 { dir } else { -dir };
    assert(0 <= mag * speed <= SCALE * speed) by (nonlinear_arith)
        requires
            0 <= mag <= SCALE,
            0 <= speed,
    ;
    assert(SCALE * speed == speed * SCALE);
    vstd::arithmetic::div_mod::lemma_div_is_ordered(mag * speed, speed * SCALE, SCALE as int);
    vstd::arithmetic::div_mod::lemma_div_by_multiple(speed, SCALE as int);
    vstd::arithmetic::div_mod::lemma_div_pos_is_pos(mag * speed, SCALE as int);
}

/// Executable form of [`scaled_component`]: one velocity component from a
/// direction component (at most `SCALE` in magnitude) and a scalar speed.
pub fn scaled_component_exec(dir: i64, speed: i64) -> (r: i64)
    requires
        -SCALE <= dir <= SCALE,
        0 <= speed <= 2_000_000_000,
    ensures
        r == scaled_component(dir as int, speed as int),
        -speed <= r <= speed,
{
    let mag = if dir >= 0 { dir } else { -dir };
    proof {
        assert(0 <= mag * speed <= SCALE * speed) by (nonlinear_arith)
            requires
                0 <= mag <= SCALE,
                0 <= speed,
        ;
        assert(SCALE * speed == speed * SCALE);
        vstd::arithmetic::div_mod::lemma_div_is_ordered(mag * speed, speed * SCALE, SCALE as int);
        vstd::arithmetic::div_mod::lemma_div_by_multiple(speed as int, SCALE as int);
        vstd::arithmetic::div_mod::lemma_div_pos_is_pos(mag * speed, SCALE as int);
    }
    let scaled = mag * speed / SCALE;
    if dir >= 0 {
        scaled
    } else {
        -scaled
    }
}

/// The normalized component `delta * SCALE / d`, taken on the magnitude so
/// that it rounds toward zero for either sign of `delta`.
pub open spec fn unit_component(delta: int, d: int) -> int {
    if delta >= 0 {
        (delta * (SCALE as int)) / d
    } else {
        -(((-delta) * (SCALE as int)) / d)
    }
}

/// Executable form of [`unit_component`]: requires `delta*delta <= d*(d+2)`
/// (true of a leg of a right triangle whose floored hypotenuse is `d`), so
/// the result is a direction component of magnitude at most `SCALE`.
pub fn unit_component_exec(delta: i64, d: i64) -> (r: i64)
    requires
        1 <= d <= 400_000_000,
        -2_000_000_000 <= delta <= 2_000_000_000,
        delta * delta < (d + 1) * (d + 1),
    ensures
        r == unit_component(delta as int, d as int),
        -SCALE <= r <= SCALE,
{
    let mag = if delta >= 0 { delta } else { -delta };
    proof {
        assert(mag * mag == delta * delta) by (nonlinear_arith)
            requires
                mag == if delta >= 0 { delta as int } else { -delta as int },
        ;
        assert(mag <= d) by (nonlinear_arith)
            requires
                0 <= mag,
                0 < d,
                mag * mag < (d + 1) * (d + 1),
        ;
        assert(0 <= mag * SCALE <= d * SCALE) by (nonlinear_arith)
            requires
                0 <= mag <= d,
                0 < SCALE,
        ;
        assert(d * SCALE == SCALE * d);
        vstd::arithmetic::div_mod::lemma_div_is_ordered(mag * SCALE, SCALE * d, d as int);
        vstd::arithmetic::div_mod::lemma_div_by_multiple(SCALE as int, d as int);
        vstd::arithmetic::div_mod::lemma_div_pos_is_pos(mag * SCALE, d as int);
    }
    let scaled = mag * SCALE / d;
    if delta >= 0 {
        scaled
    } else {
        -scaled
    }
}

/// `(ux, uy)` is a unit direction on the circle, in model units: either the
/// fallback unit vector along the positive x axis, or the normalization of
/// a nonzero point of the unit disc by the floored length of that point.
pub open spec fn is_unit_dir(ux: int, uy: int) -> bool {
    ||| (ux == SCALE && uy == 0)
    ||| exists|dx: int, dy: int, r: int|
        #![trigger unit_component(dx, r), unit_component(dy, r)]
        {
            &&& -SCALE <= dx <= SCALE
            &&& -SCALE <= dy <= SCALE
            &&& 0 < dx * dx + dy * dy <= SCALE * SCALE
            &&& is_sqrt_floor(r, dx * dx + dy * dy)
            &&& ux == unit_component(dx, r)
            &&& uy == unit_component(dy, r)
        }
}

/// A point whose squared distance from `(cx, cy)` is at most `DIST_SQ_LIMIT`
/// lies within `300_000_000` of it on each axis.
pub proof fn lemma_near_point_bounded(px: int, py: int, cx: int, cy: int)
    requires
        dsq(px, py, cx, cy) <= DIST_SQ_LIMIT,
    ensures
        -300_000_000 <= px - cx <= 300_000_000,
        -300_000_000 <= py - cy <= 300_000_000,
{
    let dx = px - cx;
    let dy = py - cy;
    assert(dx * dx >= 0 && dy * dy >= 0) by (nonlinear_arith);
    if dx > 300_000_000 || dx < -300_000_000 {
        assert(dx * dx > DIST_SQ_LIMIT) by (nonlinear_arith)
            requires
                dx > 300_000_000 || dx < -300_000_000,
        ;
    }
    if dy > 300_000_000 || dy < -300_000_000 {
        assert(dy * dy > DIST_SQ_LIMIT) by (nonlinear_arith)
            requires
                dy > 300_000_000 || dy < -300_000_000,
        ;
    }
}

/// Squared distances between points with coordinates of magnitude at most
/// `2 * COORD_LIMIT` stay within `DIST_SQ_LIMIT`.
pub proof fn lemma_dsq_bounded(ax: int, ay: int, bx: int, by: int)
    requires
        -COORD_LIMIT <= ax <= COORD_LIMIT,
        -COORD_LIMIT <= ay <= COORD_LIMIT,
        -COORD_LIMIT <= bx <= COORD_LIMIT,
        -COORD_LIMIT <= by <= COORD_LIMIT,
    ensures
        0 <= dsq(ax, ay, bx, by) <= DIST_SQ_LIMIT,
{
    let dx = ax - bx;
    let dy = ay - by;
    assert(0 <= dx * dx <= 40_000_000_000_000_000) by (nonlinear_arith)
        requires
            -200_000_000 <= dx <= 200_000_000,
    ;
    assert(0 <= dy * dy <= 40_000_000_000_000_000) by (nonlinear_arith)
        requires
            -200_000_000 <= dy <= 200_000_000,
    ;
}

} // verus!
