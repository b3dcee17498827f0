//! Saturating fixed-point arithmetic: the executable helpers the physics
//! step uses, each proved against an exact integer specification.

use vstd::prelude::*;
use crate::config::{CELL, POS_LIMIT, SCALE, VEL_LIMIT, COORD_MAX};

verus! {

/// `x` clamped to the interval `[-lim, lim]`.
pub open spec fn clamp(x: int, lim: int) -> int {
    if x > lim {
        lim
    } else if x < -lim {
        -lim
    } else {
        x
    }
}

/// Division truncating toward zero, for a positive divisor; this is the
/// rounding Rust's `/` performs on machine integers.
pub open spec fn tdiv(a: int, b: int) -> int {
    if a >= 0 {
        a / b
    } else {
        -((-a) / b)
    }
}

/// Squared Euclidean distance between `(px, py)` and `(tx, ty)`.
pub open spec fn sq_dist(px: int, py: int, tx: int, ty: int) -> int {
    (px - tx) * (px - tx) + (py - ty) * (py - ty)
}

/// Largest squared distance two in-range points can have.
pub const DIST_MAX: i64 = 8_080_200_000_000_000_000;

/// `a + b` saturated to `[-lim, lim]`.
pub fn sat_add(a: i64, b: i64, lim: i64) -> (r: i64)
    requires
        0 <= lim,
    ensures
        r == clamp(a + b, lim as int),
{
    let s: i128 = a as i128 + b as i128;
    if s > lim as i128 {
        lim
    } else if s < -(lim as i128) {
        -lim
    } else {
        s as i64
    }
}

/// `a + 2 * g` saturated to `[-lim, lim]`: one genome force applied to
/// an acceleration accumulator.
pub fn sat_force(a: i64, g: i64, lim: i64) -> (r: i64)
    requires
        0 <= lim,
    ensures
        r == clamp(a + 2 * g, lim as int),
{
    let s: i128 = a as i128 + 2 * (g as i128);
    if s > lim as i128 {
        lim
    } else if s < -(lim as i128) {
        -lim
    } else {
        s as i64
    }
}

/// Squared distance of two bounded points; the bound keeps the result
/// inside `i64`.
pub fn dist_sq(px: i64, py: i64, tx: i64, ty: i64) -> (r: i64)
    requires
        -POS_LIMIT <= px <= POS_LIMIT,
        -POS_LIMIT <= py <= POS_LIMIT,
        -COORD_MAX <= tx <= COORD_MAX,
        -COORD_MAX <= ty <= COORD_MAX,
    ensures
        r == sq_dist(px as int, py as int, tx as int, ty as int),
        0 <= r <= DIST_MAX,
{
    let dx: i128 = px as i128 - tx as i128;
    let dy: i128 = py as i128 - ty as i128;
    assert(0 <= dx * dx <= 4_040_100_000_000_000_000) by (nonlinear_arith)
        requires
            -2_010_000_000 <= dx <= 2_010_000_000,
    ;
    assert(0 <= dy * dy <= 4_040_100_000_000_000_000) by (nonlinear_arith)
        requires
            -2_010_000_000 <= dy <= 2_010_000_000,
    ;
    let s: i128 = dx * dx + dy * dy;
    s as i64
}

/// Squared speed of a bounded velocity vector.
pub fn speed_sq(vx: i64, vy: i64) -> (r: i64)
    requires
        -VEL_LIMIT <= vx <= VEL_LIMIT,
        -VEL_LIMIT <= vy <= VEL_LIMIT,
    ensures
        r == vx * vx + vy * vy,
        0 <= r <= 2_000_000_000_000_000_000,
{
    assert(0 <= (vx as i128) * (vx as i128) <= 1_000_000_000_000_000_000) by (nonlinear_arith)
        requires
            -1_000_000_000 <= vx as i128 <= 1_000_000_000,
    ;
    assert(0 <= (vy as i128) * (vy as i128) <= 1_000_000_000_000_000_000) by (nonlinear_arith)
        requires
            -1_000_000_000 <= vy as i128 <= 1_000_000_000,
    ;
    let s: i128 = (vx as i128) * (vx as i128) + (vy as i128) * (vy as i128);
    s as i64
}

/// Euclidean quotient of two nonnegative numbers, for the velocity
/// limiter's excess ratio.
pub fn ratio_of(speed: i64, maxv: i64) -> (r: i64)
    requires
        0 <= speed,
        1 <= maxv,
    ensures
        r == speed / maxv,
        0 <= r <= speed,
{
    let q: u64 = (speed as u64) / (maxv as u64);
    q as i64
}

/// One velocity component scaled by `ratio / SCALE`, truncating toward
/// zero and saturating to the velocity bound.
pub fn scale_comp(v: i64, ratio: i64) -> (r: i64)
    requires
        -VEL_LIMIT <= v <= VEL_LIMIT,
        0 <= ratio,
    ensures
        r == clamp(tdiv(v * ratio, SCALE as int), VEL_LIMIT as int),
{
    let neg: bool = v < 0;
    let mag: u64 = if neg {
        (-v) as u64
    } else {
        v as u64
    };
    assert((mag as int) * (ratio as int) <= 9_223_372_036_854_775_807_000_000_000) by (nonlinear_arith)
        requires
            0 <= mag as int <= 1_000_000_000,
            0 <= ratio as int <= 9_223_372_036_854_775_807,
    ;
    let p: u128 = (mag as u128) * (ratio as u128);
    let q: u128 = p / (SCALE as u128);
    let qc: i64 = if q > VEL_LIMIT as u128 {
        VEL_LIMIT
    } else {
        q as i64
    };
    proof {
        if neg {
            assert(v * ratio == -(mag as int * ratio)) by (nonlinear_arith)
                requires
                    mag == -v,
                    0 <= ratio,
            ;
        } else {
            assert(v * ratio == mag as int * ratio) by (nonlinear_arith)
                requires
                    mag == v,
            ;
        }
        assert(p == mag as int * ratio);
        assert(q == p as int / SCALE as int);
    }
    if neg {
        -qc
    } else {
        qc
    }
}

/// The obstacle cell a model coordinate falls in: world units truncated
/// toward zero, then snapped down to a multiple of `CELL`.
pub open spec fn snap_spec(x: int) -> int {
    CELL * tdiv(tdiv(x, SCALE as int), CELL as int)
}

/// Executable form of `snap_spec`.
pub fn snap_coord(x: i64) -> (r: i64)
    requires
        -POS_LIMIT <= x <= POS_LIMIT,
    ensures
        r == snap_spec(x as int),
        r % CELL == 0,
{
    if x >= 0 {
        let w: u64 = (x as u64) / (SCALE as u64);
        let c: u64 = w / (CELL as u64) * (CELL as u64);
        assert(c as int == CELL * ((x as int / SCALE as int) / CELL as int));
        c as i64
    } else {
        let w: u64 = ((-x) as u64) / (SCALE as u64);
        let c: u64 = w / (CELL as u64) * (CELL as u64);
        assert(c as int == CELL * (((-x) as int / SCALE as int) / CELL as int));
        -(c as i64)
    }
}

} // verus!
