//! Per-tick motion: rotation, thrust, drag, the speed cap, and toroidal
//! position wrap for players and asteroids; straight finite-range motion for
//! bullets.

use vstd::prelude::*;
use crate::torus::{Vec2, in_world, in_wrap_range, spec_wrap, wrap_position, WORLD_WIDTH,
    WORLD_HEIGHT, milli_scale};
use crate::math::{is_isqrt, isqrt};
use crate::angle::{spec_dir_vec, dir_vec};
use crate::entities::{THRUST_DV, DRAG_MILLI, MAX_SPEED, SPEED_BOOST_MILLI, PLAYER_VEL_BOUND};

verus! {

/// Squared magnitude of a velocity.
pub open spec fn speed_sq(v: Vec2) -> int {
    v.x * v.x + v.y * v.y
}

/// `v * num / den`, rounded toward zero.
pub open spec fn spec_mul_div(v: int, num: int, den: int) -> int {
    if v >= 0 {
        v * num / den
    } else {
        -((-v) * num / den)
    }
}

/// `v * num / den` in executable form, rounding toward zero.
pub fn mul_div(v: i64, num: i64, den: i64) -> (r: i64)
    requires
        -1_000_000_000 <= v <= 1_000_000_000,
        0 <= num <= 1_000_000,
        0 < den,
    ensures
        r == spec_mul_div(v as int, num as int, den as int),
{
    let neg = v < 0;
    let mag: i64 = if neg { -v } else { v };
    proof {
        assert(mag * num <= 1_000_000_000 * 1_000_000i64) by (nonlinear_arith)
            requires 0 <= mag <= 1_000_000_000 && 0 <= num <= 1_000_000;
        assert(mag * num >= 0) by (nonlinear_arith)
            requires mag >= 0 && num >= 0;
    }
    let q = (mag * num) / den;
    if neg { -q } else { q }
}

/// The velocity rescaled onto the speed cap when it exceeds it: each
/// component is multiplied by `cap` and divided by one more than the integer
/// square root of the squared speed, which keeps the magnitude at or below
/// the cap while preserving the direction up to rounding.
pub open spec fn clamped_to_cap(v: Vec2, cap: int, r: Vec2) -> bool {
    if speed_sq(v) <= cap * cap {
        r == v
    } else {
        exists|s: int|
            #[trigger] is_isqrt(speed_sq(v), s)
            && r.x == spec_mul_div(v.x as int, cap, s + 1)
            && r.y == spec_mul_div(v.y as int, cap, s + 1)
    }
}

/// Rescale a velocity to the speed cap when it exceeds it; leave it alone
/// otherwise. Never rescales the components independently.
pub fn clamp_speed(v: Vec2, cap: i64) -> (r: Vec2)
    requires
        1 <= cap <= 100_000,
        -100_000 <= v.x <= 100_000,
        -100_000 <= v.y <= 100_000,
    ensures
        clamped_to_cap(v, cap as int, r),
        -cap <= r.x <= cap,
        -cap <= r.y <= cap,
{
    proof {
        assert(v.x * v.x + v.y * v.y <= 2 * 100_000 * 100_000i64) by (nonlinear_arith)
            requires -100_000 <= v.x <= 100_000 && -100_000 <= v.y <= 100_000;
        assert(v.x * v.x >= 0 && v.y * v.y >= 0) by (nonlinear_arith);
        assert(cap * cap <= 100_000 * 100_000i64) by (nonlinear_arith)
            requires 1 <= cap <= 100_000;
    }
    let ssq: i64 = v.x * v.x + v.y * v.y;
    if ssq <= cap * cap {
        proof {
            assert(-cap <= v.x <= cap && -cap <= v.y <= cap) by (nonlinear_arith)
                requires v.x * v.x + v.y * v.y <= cap * cap && cap >= 1;
        }
        v
    } else {
        let s: u64 = isqrt(ssq as u64);
        proof {
            assert(s <= 100_000 * 2) by {
                assert(is_isqrt(ssq as int, s as int));
                assert(ssq <= 200_000 * 200_000i64) by (nonlinear_arith)
                    requires ssq <= 2 * 100_000 * 100_000i64;
                if s > 200_000 {
                    assert(s * s > 200_000 * 200_000i64) by (nonlinear_arith)
                        requires s > 200_000;
                }
            }
            let mx = if v.x >= 0 { v.x as int } else { -v.x as int };
            let my = if v.y >= 0 { v.y as int } else { -v.y as int };
            assert(mx * mx + my * my == ssq) by (nonlinear_arith)
                requires
                    (mx == v.x || mx == -v.x) && (my == v.y || my == -v.y)
                    && ssq == v.x * v.x + v.y * v.y;
            assert(mx <= s && my <= s) by (nonlinear_arith)
                requires
                    is_isqrt(mx * mx + my * my, s as int),
                    mx >= 0,
                    my >= 0;
            assert(mx * cap / (s + 1) <= cap) by (nonlinear_arith)
                requires 0 <= mx <= s && cap >= 1;
            assert(my * cap / (s + 1) <= cap) by (nonlinear_arith)
                requires 0 <= my <= s && cap >= 1;
            assert(mx * cap / (s + 1) >= 0) by (nonlinear_arith)
                requires mx >= 0 && cap >= 0 && s >= 0;
            assert(my * cap / (s + 1) >= 0) by (nonlinear_arith)
                requires my >= 0 && cap >= 0 && s >= 0;
        }
        let den: i64 = (s as i64) + 1;
        let rx = mul_div(v.x, cap, den);
        let ry = mul_div(v.y, cap, den);
        Vec2 { x: rx, y: ry }
    }
}

/// A vector rotated by `a` twenty-fourths of a turn, in fixed-point
/// arithmetic: the usual rotation matrix scaled by the trig tables, divided
/// back and rounded toward zero.
pub open spec fn spec_rotate_vec(v: Vec2, a: int) -> Vec2 {
    let c = crate::angle::spec_cos_milli(a);
    let s = crate::angle::spec_sin_milli(a);
    Vec2 {
        x: spec_mul_div(v.x * c - v.y * s, 1, 1000) as i64,
        y: spec_mul_div(v.x * s + v.y * c, 1, 1000) as i64,
    }
}

/// Rotate a vector by `a` twenty-fourths of a turn. Each result component is
/// bounded by the sum of the input components' magnitudes.
pub fn rotate_vec(v: Vec2, a: u64) -> (r: Vec2)
    requires
        a < 24,
        -1_000_000 <= v.x <= 1_000_000,
        -1_000_000 <= v.y <= 1_000_000,
    ensures
        r == spec_rotate_vec(v, a as int),
        -2_000_000 <= r.x <= 2_000_000,
        -2_000_000 <= r.y <= 2_000_000,
{
    let c = crate::angle::cos_milli(a);
    let s = crate::angle::sin_milli(a);
    proof {
        assert(-1_000_000_000 <= v.x * c <= 1_000_000_000) by (nonlinear_arith)
            requires -1_000_000 <= v.x <= 1_000_000 && -1000 <= c <= 1000;
        assert(-1_000_000_000 <= v.y * s <= 1_000_000_000) by (nonlinear_arith)
            requires -1_000_000 <= v.y <= 1_000_000 && -1000 <= s <= 1000;
        assert(-1_000_000_000 <= v.x * s <= 1_000_000_000) by (nonlinear_arith)
            requires -1_000_000 <= v.x <= 1_000_000 && -1000 <= s <= 1000;
        assert(-1_000_000_000 <= v.y * c <= 1_000_000_000) by (nonlinear_arith)
            requires -1_000_000 <= v.y <= 1_000_000 && -1000 <= c <= 1000;
    }
    let tx: i64 = v.x * c - v.y * s;
    let ty: i64 = v.x * s + v.y * c;
    proof {
        lemma_trunc_thousandth_bound(tx as int);
        lemma_trunc_thousandth_bound(ty as int);
    }
    let rx = if tx >= 0 { tx / 1000 } else { -((-tx) / 1000) };
    let ry = if ty >= 0 { ty / 1000 } else { -((-ty) / 1000) };
    Vec2 { x: rx, y: ry }
}

/// Truncating division by 1000 shrinks the magnitude a thousandfold.
proof fn lemma_trunc_thousandth_bound(t: int)
    requires
        -2_000_000_000 <= t <= 2_000_000_000,
    ensures
        -2_000_000 <= spec_mul_div(t, 1, 1000) <= 2_000_000,
        t >= 0 ==> 0 <= spec_mul_div(t, 1, 1000) <= t,
        t < 0 ==> t <= spec_mul_div(t, 1, 1000) <= 0,
{
    if t >= 0 {
        assert(t * 1 == t);
        assert(0 <= t / 1000 <= t) by (nonlinear_arith)
            requires t >= 0;
        assert(t / 1000 <= 2_000_000) by (nonlinear_arith)
            requires 0 <= t <= 2_000_000_000;
    } else {
        let u = -t;
        assert(u * 1 == u);
        assert(0 <= u / 1000 <= u) by (nonlinear_arith)
            requires u >= 0;
        assert(u / 1000 <= 2_000_000) by (nonlinear_arith)
            requires 0 <= u <= 2_000_000_000;
    }
}

/// Per-component magnitude bound after rescaling a rotated vector: when
/// each input component is at most `2 * den` in magnitude, the result is at
/// most `2 * num`.
pub proof fn lemma_mul_div_scale_bound(v: int, num: int, den: int)
    requires
        0 < den,
        0 <= num,
        -2 * den <= v <= 2 * den,
    ensures
        -2 * num <= spec_mul_div(v, num, den) <= 2 * num,
{
    if v >= 0 {
        assert(v * num <= 2 * den * num) by (nonlinear_arith)
            requires 0 <= v <= 2 * den && num >= 0;
        assert(v * num / den <= 2 * den * num / den) by (nonlinear_arith)
            requires v * num <= 2 * den * num && den > 0;
        assert(2 * den * num / den == 2 * num) by (nonlinear_arith)
            requires den > 0;
        assert(v * num >= 0) by (nonlinear_arith)
            requires v >= 0 && num >= 0;
        assert(v * num / den >= 0) by (nonlinear_arith)
            requires v * num >= 0 && den > 0;
    } else {
        let u = -v;
        assert(u * num <= 2 * den * num) by (nonlinear_arith)
            requires 0 <= u <= 2 * den && num >= 0;
        assert(u * num / den <= 2 * den * num / den) by (nonlinear_arith)
            requires u * num <= 2 * den * num && den > 0;
        assert(2 * den * num / den == 2 * num) by (nonlinear_arith)
            requires den > 0;
        assert(u * num >= 0) by (nonlinear_arith)
            requires u >= 0 && num >= 0;
        assert(u * num / den >= 0) by (nonlinear_arith)
            requires u * num >= 0 && den > 0;
    }
}

/// One tick of velocity integration: add thrust along the heading if held,
/// apply multiplicative drag, then cap the speed. The thrust and the cap are
/// raised while speed boost is active.
pub open spec fn stepped_velocity(vel: Vec2, angle: int, thrust: bool, boost: bool, r: Vec2) -> bool {
    let dv = if boost { 45int } else { 30int };
    let cap = if boost { 1875int } else { 1250int };
    let dir = spec_dir_vec(angle, dv);
    let v1x = if thrust { vel.x + dir.x } else { vel.x as int };
    let v1y = if thrust { vel.y + dir.y } else { vel.y as int };
    let v2 = Vec2 {
        x: milli_scale(v1x, DRAG_MILLI as int) as i64,
        y: milli_scale(v1y, DRAG_MILLI as int) as i64,
    };
    clamped_to_cap(v2, cap, r)
}

/// Integrate a player's velocity for one tick.
pub fn step_velocity(vel: Vec2, angle: u64, thrust: bool, boost: bool) -> (r: Vec2)
    requires
        angle < 24,
        -PLAYER_VEL_BOUND <= vel.x <= PLAYER_VEL_BOUND,
        -PLAYER_VEL_BOUND <= vel.y <= PLAYER_VEL_BOUND,
    ensures
        stepped_velocity(vel, angle as int, thrust, boost, r),
        -PLAYER_VEL_BOUND <= r.x <= PLAYER_VEL_BOUND,
        -PLAYER_VEL_BOUND <= r.y <= PLAYER_VEL_BOUND,
{
    let dv: i64 = if boost { 45 } else { 30 };
    let cap: i64 = if boost { 1875 } else { 1250 };
    let v1 = if thrust { vel.add(dir_vec(angle, dv)) } else { vel };
    let v2 = v1.scale(DRAG_MILLI);
    clamp_speed(v2, cap)
}

/// One tick of position integration with toroidal wrap: the velocity is the
/// displacement per tick.
pub fn step_position(pos: Vec2, vel: Vec2) -> (r: Vec2)
    requires
        in_world(pos),
        -10_000 <= vel.x <= 10_000,
        -10_000 <= vel.y <= 10_000,
    ensures
        r == spec_wrap(Vec2 { x: (pos.x + vel.x) as i64, y: (pos.y + vel.y) as i64 }),
        in_world(r),
{
    wrap_position(Vec2 { x: pos.x + vel.x, y: pos.y + vel.y })
}

} // verus!
