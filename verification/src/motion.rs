use vstd::prelude::*;
use vstd::arithmetic::div_mod::lemma_div_is_ordered;

use crate::math::{
    is_isqrt, isqrt, lemma_isqrt_exists, lemma_sdiv_bounds, scaled, sdiv, sdiv_exec,
    spec_isqrt, spec_scaled,
};
use crate::vec2::Vec2;
use crate::{
    ACCEL_LIMIT, CANVAS_HEIGHT, CANVAS_WIDTH, COLS, DT_LIMIT, FIELD_LEN, FIELD_MAG, ROWS,
    SPEED_BOUND, SPEED_BOUND_SQ, SPEED_LIMIT, SPEED_LIMIT_SQ,
};

verus! {

/// Wraparound of one coordinate at the canvas edges: a coordinate that left
/// through one side reappears at the opposite side. A negative coordinate
/// becomes the far edge itself; one at or past the far edge becomes zero;
/// anything strictly inside the canvas is untouched.
pub open spec fn spec_wrap(c: int, extent: int) -> int {
    if c < 0 {
        extent
    } else if c >= extent {
        0
    } else {
        c
    }
}

/// Apply the wraparound rule to one coordinate.
pub fn wrap_coord(c: i64, extent: i64) -> (r: i64)
    requires
        0 < extent,
    ensures
        r == spec_wrap(c as int, extent as int),
        0 <= r <= extent,
{
    if c < 0 {
        extent
    } else if c >= extent {
        0
    } else {
        c
    }
}

/// The flat field index of a canvas position: the grid x coordinate is the
/// position scaled into `[0, ROWS - 1]`, the grid y coordinate into
/// `[0, COLS - 1]`, and the flat index is their sum with a stride of `ROWS`,
/// truncated to a whole number only at the end. The canvas is square, so
/// both axes share the denominator.
pub open spec fn spec_flat_index(px: int, py: int) -> int {
    (px * (ROWS - 1) + py * ((COLS - 1) * ROWS)) / (CANVAS_WIDTH as int)
}

/// Map a canvas position to the flat index of the field cell it falls in.
/// Positions up to and including the far edge (where a wrapped coordinate
/// may momentarily rest) stay within the field.
pub fn flat_index(p: Vec2) -> (i: usize)
    requires
        0 <= p.x <= CANVAS_WIDTH,
        0 <= p.y <= CANVAS_HEIGHT,
    ensures
        i == spec_flat_index(p.x as int, p.y as int),
        i < FIELD_LEN,
{
    let xcoef: u64 = (ROWS - 1) as u64;
    let ycoef: u64 = ((COLS - 1) * ROWS) as u64;
    assert(xcoef == 49 && ycoef == 2450);
    let xs = (p.x as u64) * xcoef;
    let ys = (p.y as u64) * ycoef;
    let i = ((xs + ys) / (CANVAS_WIDTH as u64)) as usize;
    proof {
        lemma_div_is_ordered(
            xs + ys,
            (CANVAS_WIDTH as int) * (FIELD_LEN - 1),
            CANVAS_WIDTH as int,
        );
        assert((CANVAS_WIDTH as int) * (FIELD_LEN - 1) / (CANVAS_WIDTH as int) == FIELD_LEN - 1)
            by (nonlinear_arith)
            requires
                CANVAS_WIDTH == 900_000,
                FIELD_LEN == 2500,
        ;
    }
    i
}

/// The velocity clamp: a velocity whose squared magnitude is below the
/// squared speed limit passes unchanged; any other is rescaled onto the
/// limit, each component rounded toward zero, which preserves the direction
/// up to one fixed-point unit per axis.
pub open spec fn spec_clamp(vx: int, vy: int) -> (int, int) {
    let m2 = vx * vx + vy * vy;
    if m2 < SPEED_LIMIT_SQ {
        (vx, vy)
    } else {
        let m = spec_isqrt(m2);
        (sdiv(vx * (SPEED_LIMIT as int), m), sdiv(vy * (SPEED_LIMIT as int), m))
    }
}

/// One rescaled component keeps `(m * c)^2 <= (SPEED_LIMIT * v)^2`.
proof fn lemma_rescaled_component(v: int, m: int)
    requires
        10_000 <= m,
    ensures
        ({
            let c = sdiv(v * 10_000, m);
            (m * m) * (c * c) <= (10_000 * 10_000) * (v * v)
        }),
{
    let n = v * 10_000;
    let c = sdiv(n, m);
    lemma_sdiv_bounds(n, m);
    if 0 <= n {
        assert(0 <= m * c) by (nonlinear_arith)
            requires
                1 <= m,
                0 <= c,
        ;
    } else {
        assert(m * c <= 0) by (nonlinear_arith)
            requires
                1 <= m,
                c <= 0,
        ;
    }
    assert((m * c) * (m * c) <= n * n) by (nonlinear_arith)
        requires
            (0 <= m * c && m * c <= n) || (n <= m * c && m * c <= 0),
    ;
    assert((m * c) * (m * c) == (m * m) * (c * c)) by (nonlinear_arith);
    assert(n * n == (10_000 * 10_000) * (v * v)) by (nonlinear_arith)
        requires
            n == v * 10_000,
    ;
}

/// The clamp bounds the speed: afterwards the squared magnitude is at most
/// `SPEED_BOUND_SQ`, one fixed-point unit per axis above the exact limit,
/// and each component lies within `SPEED_BOUND`.
pub proof fn lemma_clamp_bounded(vx: int, vy: int)
    ensures
        ({
            let (cx, cy) = spec_clamp(vx, vy);
            cx * cx + cy * cy <= SPEED_BOUND_SQ && -SPEED_BOUND <= cx <= SPEED_BOUND
                && -SPEED_BOUND <= cy <= SPEED_BOUND
        }),
{
    let m2 = vx * vx + vy * vy;
    assert(vx * vx >= 0 && vy * vy >= 0) by (nonlinear_arith);
    if m2 < SPEED_LIMIT_SQ {
        crate::math::lemma_sq_within(vx, SPEED_BOUND as int);
        crate::math::lemma_sq_within(vy, SPEED_BOUND as int);
    } else {
        lemma_isqrt_exists(m2);
        let m = spec_isqrt(m2);
        assert(10_000 <= m) by (nonlinear_arith)
            requires
                0 <= m,
                100_000_000 <= m2,
                m2 < (m + 1) * (m + 1),
        ;
        lemma_rescaled_component(vx, m);
        lemma_rescaled_component(vy, m);
        let cx = sdiv(vx * 10_000, m);
        let cy = sdiv(vy * 10_000, m);
        assert((m * m) * (cx * cx + cy * cy) <= (10_000 * 10_000) * m2) by (nonlinear_arith)
            requires
                (m * m) * (cx * cx) <= (10_000 * 10_000) * (vx * vx),
                (m * m) * (cy * cy) <= (10_000 * 10_000) * (vy * vy),
                m2 == vx * vx + vy * vy,
        ;
        assert((10_000 * 10_000) * ((m + 1) * (m + 1)) <= (10_001 * 10_001) * (m * m))
            by (nonlinear_arith)
            requires
                10_000 <= m,
        ;
        assert(cx * cx + cy * cy <= 10_001 * 10_001) by (nonlinear_arith)
            requires
                10_000 <= m,
                (m * m) * (cx * cx + cy * cy) <= (10_000 * 10_000) * m2,
                m2 < (m + 1) * (m + 1),
                (10_000 * 10_000) * ((m + 1) * (m + 1)) <= (10_001 * 10_001) * (m * m),
        ;
        assert(cx * cx >= 0 && cy * cy >= 0) by (nonlinear_arith);
        crate::math::lemma_sq_within(cx, SPEED_BOUND as int);
        crate::math::lemma_sq_within(cy, SPEED_BOUND as int);
    }
}

/// Apply the velocity clamp.
pub fn clamp_velocity(v: Vec2) -> (r: Vec2)
    requires
        -1_000_000 <= v.x <= 1_000_000,
        -1_000_000 <= v.y <= 1_000_000,
    ensures
        ({
            let (cx, cy) = spec_clamp(v.x as int, v.y as int);
            r.x == cx && r.y == cy
        }),
        r.mag_sq() <= SPEED_BOUND_SQ,
        -SPEED_BOUND <= r.x <= SPEED_BOUND,
        -SPEED_BOUND <= r.y <= SPEED_BOUND,
{
    proof {
        lemma_clamp_bounded(v.x as int, v.y as int);
        assert(0 <= v.x * v.x <= 1_000_000_000_000 && 0 <= v.y * v.y <= 1_000_000_000_000)
            by (nonlinear_arith)
            requires
                -1_000_000 <= v.x <= 1_000_000,
                -1_000_000 <= v.y <= 1_000_000,
        ;
    }
    let m2 = v.x * v.x + v.y * v.y;
    if m2 < SPEED_LIMIT_SQ {
        v
    } else {
        let m = isqrt(m2 as u64) as i64;
        assert(10_000 <= m) by (nonlinear_arith)
            requires
                0 <= m,
                100_000_000 <= m2,
                is_isqrt(m2 as int, m as int),
        ;
        proof {
            assert(-10_000_000_000 <= v.x * 10_000 <= 10_000_000_000 && -10_000_000_000 <= v.y
                * 10_000 <= 10_000_000_000) by (nonlinear_arith)
                requires
                    -1_000_000 <= v.x <= 1_000_000,
                    -1_000_000 <= v.y <= 1_000_000,
            ;
        }
        let nx = sdiv_exec(v.x * SPEED_LIMIT, m);
        let ny = sdiv_exec(v.y * SPEED_LIMIT, m);
        Vec2 { x: nx, y: ny }
    }
}

/// The acceleration after the field's force was consumed: the cell vector,
/// scaled by the time step, accumulates onto it.
pub open spec fn spec_step_accel(ax: int, ay: int, fx: int, fy: int, dt: int) -> (int, int) {
    (ax + spec_scaled(fx, dt), ay + spec_scaled(fy, dt))
}

/// The velocity after one step: the accumulated acceleration, scaled by the
/// time step, is added, and the result is clamped to the speed limit.
pub open spec fn spec_step_velocity(vx: int, vy: int, ax1: int, ay1: int, dt: int) -> (int, int) {
    spec_clamp(vx + spec_scaled(ax1, dt), vy + spec_scaled(ay1, dt))
}

/// The position after one step: the clamped velocity, scaled by the time
/// step, is added, and each coordinate wraps at its canvas edge.
pub open spec fn spec_step_position(px: int, py: int, vx2: int, vy2: int, dt: int) -> (int, int) {
    (
        spec_wrap(px + spec_scaled(vx2, dt), CANVAS_WIDTH as int),
        spec_wrap(py + spec_scaled(vy2, dt), CANVAS_HEIGHT as int),
    )
}

/// Advance a single particle by one step under the force `f`: returns the
/// new position and the new velocity; the acceleration is consumed and the
/// caller resets it to zero.
pub fn step_one(p: Vec2, v: Vec2, a: Vec2, f: Vec2, dt: i64) -> (r: (Vec2, Vec2))
    requires
        0 <= p.x <= CANVAS_WIDTH,
        0 <= p.y <= CANVAS_HEIGHT,
        v.mag_sq() <= SPEED_BOUND_SQ,
        -ACCEL_LIMIT <= a.x <= ACCEL_LIMIT,
        -ACCEL_LIMIT <= a.y <= ACCEL_LIMIT,
        -FIELD_MAG <= f.x <= FIELD_MAG,
        -FIELD_MAG <= f.y <= FIELD_MAG,
        0 <= dt <= DT_LIMIT,
    ensures
        ({
            let (ax1, ay1) = spec_step_accel(
                a.x as int,
                a.y as int,
                f.x as int,
                f.y as int,
                dt as int,
            );
            let (vx2, vy2) = spec_step_velocity(v.x as int, v.y as int, ax1, ay1, dt as int);
            let (px2, py2) = spec_step_position(p.x as int, p.y as int, vx2, vy2, dt as int);
            r.0.x == px2 && r.0.y == py2 && r.1.x == vx2 && r.1.y == vy2
        }),
        0 <= r.0.x <= CANVAS_WIDTH,
        0 <= r.0.y <= CANVAS_HEIGHT,
        r.1.mag_sq() <= SPEED_BOUND_SQ,
        -SPEED_BOUND <= r.1.x <= SPEED_BOUND,
        -SPEED_BOUND <= r.1.y <= SPEED_BOUND,
{
    proof {
        assert(v.x * v.x >= 0 && v.y * v.y >= 0) by (nonlinear_arith);
        crate::math::lemma_sq_within(v.x as int, SPEED_BOUND as int);
        crate::math::lemma_sq_within(v.y as int, SPEED_BOUND as int);
    }
    let ax1 = a.x + scaled(f.x, dt);
    let ay1 = a.y + scaled(f.y, dt);
    let vx1 = v.x + scaled(ax1, dt);
    let vy1 = v.y + scaled(ay1, dt);
    let v2 = clamp_velocity(Vec2 { x: vx1, y: vy1 });
    let px1 = p.x + scaled(v2.x, dt);
    let py1 = p.y + scaled(v2.y, dt);
    let p2 = Vec2 { x: wrap_coord(px1, CANVAS_WIDTH), y: wrap_coord(py1, CANVAS_HEIGHT) };
    (p2, v2)
}

} // verus!
