//! Headings in twenty-fourths of a turn (15-degree steps) with fixed-point
//! trigonometry scaled by 1000.
//!
//! The eight firing sectors of the game are the multiples of three steps
//! (45-degree increments); a heading is snapped to the nearest sector by
//! adding half a sector before flooring.

use vstd::prelude::*;
use crate::torus::{Vec2, mul_div_milli, milli_scale};

verus! {

/// Number of heading steps in a full turn.
pub const ANGLE_STEPS: u64 = 24;

/// Heading steps per firing sector (45 degrees).
pub const SECTOR_STEPS: u64 = 3;

/// Fixed-point scale of the trigonometric tables.
pub const TRIG_SCALE: i64 = 1000;

/// `sin` of `a` twenty-fourths of a turn, scaled by 1000 and rounded to the
/// nearest integer.
pub open spec fn spec_sin_milli(a: int) -> int {
    if a == 0 { 0 }
    else if a == 1 { 259 }
    else if a == 2 { 500 }
    else if a == 3 { 707 }
    else if a == 4 { 866 }
    else if a == 5 { 966 }
    else if a == 6 { 1000 }
    else if a == 7 { 966 }
    else if a == 8 { 866 }
    else if a == 9 { 707 }
    else if a == 10 { 500 }
    else if a == 11 { 259 }
    else if a == 12 { 0 }
    else if a == 13 { -259 }
    else if a == 14 { -500 }
    else if a == 15 { -707 }
    else if a == 16 { -866 }
    else if a == 17 { -966 }
    else if a == 18 { -1000 }
    else if a == 19 { -966 }
    else if a == 20 { -866 }
    else if a == 21 { -707 }
    else if a == 22 { -500 }
    else { -259 }
}

/// `cos` of `a` twenty-fourths of a turn is `sin` a quarter turn later.
pub open spec fn spec_cos_milli(a: int) -> int {
    spec_sin_milli((a + 6) % 24)
}

/// Scaled sine of a heading.
pub fn sin_milli(a: u64) -> (r: i64)
    requires
        a < 24,
    ensures
        r == spec_sin_milli(a as int),
        -1000 <= r <= 1000,
{
    match a {
        0 => 0,
        1 => 259,
        2 => 500,
        3 => 707,
        4 => 866,
        5 => 966,
        6 => 1000,
        7 => 966,
        8 => 866,
        9 => 707,
        10 => 500,
        11 => 259,
        12 => 0,
        13 => -259,
        14 => -500,
        15 => -707,
        16 => -866,
        17 => -966,
        18 => -1000,
        19 => -966,
        20 => -866,
        21 => -707,
        22 => -500,
        _ => -259,
    }
}

/// Scaled cosine of a heading.
pub fn cos_milli(a: u64) -> (r: i64)
    requires
        a < 24,
    ensures
        r == spec_cos_milli(a as int),
        -1000 <= r <= 1000,
{
    sin_milli((a + 6) % 24)
}

/// The velocity vector of magnitude close to `speed` milli-units pointing
/// along heading `a`: each component is the scaled cosine or sine times
/// `speed`, divided back by the trig scale and rounded toward zero.
pub open spec fn spec_dir_vec(a: int, speed: int) -> Vec2 {
    Vec2 {
        x: milli_scale(spec_cos_milli(a), speed) as i64,
        y: milli_scale(spec_sin_milli(a), speed) as i64,
    }
}

/// Velocity vector along heading `a` with magnitude close to `speed`.
pub fn dir_vec(a: u64, speed: i64) -> (r: Vec2)
    requires
        a < 24,
        0 <= speed <= 1_000_000,
    ensures
        r == spec_dir_vec(a as int, speed as int),
        -speed <= r.x <= speed,
        -speed <= r.y <= speed,
{
    let c = cos_milli(a);
    let s = sin_milli(a);
    let x = mul_div_milli(c, speed);
    let y = mul_div_milli(s, speed);
    proof {
        lemma_milli_scale_by_trig(c as int, speed as int);
        lemma_milli_scale_by_trig(s as int, speed as int);
    }
    Vec2 { x, y }
}

/// Scaling a trig value in `[-1000, 1000]` by `speed / 1000` stays within
/// `[-speed, speed]`.
proof fn lemma_milli_scale_by_trig(t: int, speed: int)
    requires
        -1000 <= t <= 1000,
        0 <= speed,
    ensures
        -speed <= milli_scale(t, speed) <= speed,
{
    if t >= 0 {
        assert(t * speed <= 1000 * speed) by (nonlinear_arith)
            requires 0 <= t <= 1000 && speed >= 0;
        assert(t * speed >= 0) by (nonlinear_arith)
            requires t >= 0 && speed >= 0;
        assert(t * speed / 1000 <= 1000 * speed / 1000) by (nonlinear_arith)
            requires t * speed <= 1000 * speed;
        assert(1000 * speed / 1000 == speed) by (nonlinear_arith);
        assert(t * speed / 1000 >= 0) by (nonlinear_arith)
            requires t * speed >= 0;
    } else {
        let u = -t;
        assert(u * speed <= 1000 * speed) by (nonlinear_arith)
            requires 0 <= u <= 1000 && speed >= 0;
        assert(u * speed >= 0) by (nonlinear_arith)
            requires u >= 0 && speed >= 0;
        assert(u * speed / 1000 <= 1000 * speed / 1000) by (nonlinear_arith)
            requires u * speed <= 1000 * speed;
        assert(1000 * speed / 1000 == speed) by (nonlinear_arith);
        assert(u * speed / 1000 >= 0) by (nonlinear_arith)
            requires u * speed >= 0;
    }
}

/// The heading one rotation step away, staying in `[0, 24)`.
/// `rotate` is the signed unit from the player's input.
pub open spec fn spec_step_angle(a: int, rotate: int) -> int {
    (a + 24 + rotate) % 24
}

/// Apply one tick of rotation to a heading.
pub fn step_angle(a: u64, rotate: i8) -> (r: u64)
    requires
        a < 24,
        -1 <= rotate <= 1,
    ensures
        r == spec_step_angle(a as int, rotate as int),
        r < 24,
{
    let shifted: u64 = if rotate < 0 {
        a + 23
    } else if rotate > 0 {
        a + 25
    } else {
        a + 24
    };
    shifted % 24
}

/// The nearest firing sector start: the multiple of three steps closest to
/// `a`, computed by adding half a sector before flooring.
pub open spec fn spec_snap_sector(a: int) -> int {
    ((a + 1) / 3 % 8) * 3
}

/// Snap a heading to the nearest of the eight firing sectors.
pub fn snap_sector(a: u64) -> (r: u64)
    requires
        a < 24,
    ensures
        r == spec_snap_sector(a as int),
        r < 24,
        r % 3 == 0,
{
    ((a + 1) / 3 % 8) * 3
}

} // verus!
