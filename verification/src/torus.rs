//! Toroidal (wraparound) geometry on the fixed rectangular world.
//!
//! Coordinates are milli-units: the world is `WORLD_WIDTH` by `WORLD_HEIGHT`
//! milli-units and wraps at both edges, so the distance between two points is
//! measured along the shorter of the direct and the wrapped path on each axis.

use vstd::prelude::*;

verus! {

/// World width in milli-units (240 world units).
pub const WORLD_WIDTH: i64 = 240_000;

/// World height in milli-units (80 world units).
pub const WORLD_HEIGHT: i64 = 80_000;

/// A 2D vector in milli-units.
#[derive(Clone, Copy, Debug, PartialEq, Eq, Structural)]
pub struct Vec2 {
    pub x: i64,
    pub y: i64,
}

impl Vec2 {
    pub fn new(x: i64, y: i64) -> (r: Vec2)
        ensures
            r.x == x,
            r.y == y,
    {
        Vec2 { x, y }
    }

    /// Component-wise sum.
    pub fn add(self, other: Vec2) -> (r: Vec2)
        requires
            -0x4000_0000_0000_0000 < self.x + other.x < 0x4000_0000_0000_0000,
            -0x4000_0000_0000_0000 < self.y + other.y < 0x4000_0000_0000_0000,
        ensures
            r.x == self.x + other.x,
            r.y == self.y + other.y,
    {
        Vec2 { x: self.x + other.x, y: self.y + other.y }
    }

    /// Scale by a milli-factor: each component becomes `c * num / 1000`,
    /// rounded toward zero.
    pub fn scale(self, num: i64) -> (r: Vec2)
        requires
            -1_000_000_000 <= self.x <= 1_000_000_000,
            -1_000_000_000 <= self.y <= 1_000_000_000,
            0 <= num <= 1_000_000,
        ensures
            r.x == milli_scale(self.x as int, num as int),
            r.y == milli_scale(self.y as int, num as int),
    {
        Vec2 { x: mul_div_milli(self.x, num), y: mul_div_milli(self.y, num) }
    }
}

/// `v * num / 1000`, rounded toward zero (the sign of the result is the sign
/// of `v`).
pub open spec fn milli_scale(v: int, num: int) -> int {
    if v >= 0 {
        v * num / 1000
    } else {
        -((-v) * num / 1000)
    }
}

proof fn lemma_milli_scale_bound(v: int, num: int)
    requires
        0 <= num <= 1000,
    ensures
        v >= 0 ==> 0 <= milli_scale(v, num) <= v,
        v < 0 ==> v <= milli_scale(v, num) <= 0,
{
    if v >= 0 {
        assert(v * num <= v * 1000) by (nonlinear_arith)
            requires 0 <= num <= 1000 && v >= 0;
        assert(v * num / 1000 <= v * 1000 / 1000) by (nonlinear_arith)
            requires v * num <= v * 1000;
        assert(v * 1000 / 1000 == v) by (nonlinear_arith);
        assert(v * num >= 0) by (nonlinear_arith)
            requires v >= 0 && num >= 0;
        assert(v * num / 1000 >= 0) by (nonlinear_arith)
            requires v * num >= 0;
    } else {
        let w = -v;
        assert(w * num <= w * 1000) by (nonlinear_arith)
            requires 0 <= num <= 1000 && w >= 0;
        assert(w * num / 1000 <= w * 1000 / 1000) by (nonlinear_arith)
            requires w * num <= w * 1000;
        assert(w * 1000 / 1000 == w) by (nonlinear_arith);
        assert(w * num >= 0) by (nonlinear_arith)
            requires w >= 0 && num >= 0;
        assert(w * num / 1000 >= 0) by (nonlinear_arith)
            requires w * num >= 0;
    }
}

/// `v * num / 1000` in executable form, rounding toward zero.
pub fn mul_div_milli(v: i64, num: i64) -> (r: i64)
    requires
        -1_000_000_000 <= v <= 1_000_000_000,
        0 <= num <= 1_000_000,
    ensures
        r == milli_scale(v as int, num as int),
        0 <= num <= 1000 && v >= 0 ==> 0 <= r <= v,
        0 <= num <= 1000 && v < 0 ==> v <= r <= 0,
{
    proof {
        if num <= 1000 {
            lemma_milli_scale_bound(v as int, num as int);
        }
    }
    proof {
        assert(v * num <= 1_000_000_000 * 1_000_000i64) by (nonlinear_arith)
            requires -1_000_000_000 <= v <= 1_000_000_000 && 0 <= num <= 1_000_000;
        assert(v * num >= -1_000_000_000 * 1_000_000i64) by (nonlinear_arith)
            requires -1_000_000_000 <= v <= 1_000_000_000 && 0 <= num <= 1_000_000;
    }
    if v >= 0 {
        let prod: i64 = v * num;
        prod / 1000
    } else {
        let mag: i64 = -v;
        proof {
            assert(mag * num <= 1_000_000_000 * 1_000_000i64) by (nonlinear_arith)
                requires 0 <= mag <= 1_000_000_000 && 0 <= num <= 1_000_000;
            assert(mag * num >= 0) by (nonlinear_arith)
                requires mag >= 0 && num >= 0;
        }
        let prod: i64 = mag * num;
        -(prod / 1000)
    }
}

/// A coordinate that lies within one extent of the valid range, so a single
/// conditional shift brings it back into `[0, extent)`.
pub open spec fn in_wrap_range(v: int, extent: int) -> bool {
    -extent <= v < 2 * extent
}

/// The wrapped coordinate: shifted by at most one extent into `[0, extent)`.
pub open spec fn spec_wrap_coord(v: int, extent: int) -> int {
    if v < 0 {
        v + extent
    } else if v >= extent {
        v - extent
    } else {
        v
    }
}

/// A position inside the world rectangle.
pub open spec fn in_world(p: Vec2) -> bool {
    0 <= p.x < WORLD_WIDTH && 0 <= p.y < WORLD_HEIGHT
}

/// A position inside the world rectangle, boundary included; bullets are
/// kept up to the closed boundary because they do not wrap.
pub open spec fn in_world_closed(p: Vec2) -> bool {
    0 <= p.x <= WORLD_WIDTH && 0 <= p.y <= WORLD_HEIGHT
}

/// The wrapped position, both axes brought back into the world rectangle.
pub open spec fn spec_wrap(p: Vec2) -> Vec2 {
    Vec2 {
        x: spec_wrap_coord(p.x as int, WORLD_WIDTH as int) as i64,
        y: spec_wrap_coord(p.y as int, WORLD_HEIGHT as int) as i64,
    }
}

fn wrap_coord(v: i64, extent: i64) -> (r: i64)
    requires
        0 < extent,
        in_wrap_range(v as int, extent as int),
    ensures
        r == spec_wrap_coord(v as int, extent as int),
        0 <= r < extent,
{
    if v < 0 {
        v + extent
    } else if v >= extent {
        v - extent
    } else {
        v
    }
}

/// Wrap a position back into the world rectangle. Each axis is shifted by at
/// most one extent, which suffices because every per-tick displacement is far
/// smaller than the world.
pub fn wrap_position(p: Vec2) -> (r: Vec2)
    requires
        in_wrap_range(p.x as int, WORLD_WIDTH as int),
        in_wrap_range(p.y as int, WORLD_HEIGHT as int),
    ensures
        r == spec_wrap(p),
        in_world(r),
{
    Vec2 { x: wrap_coord(p.x, WORLD_WIDTH), y: wrap_coord(p.y, WORLD_HEIGHT) }
}

/// Wrapping leaves an in-world position unchanged; hence wrapping twice is
/// the same as wrapping once.
pub proof fn lemma_wrap_idempotent(p: Vec2)
    requires
        in_wrap_range(p.x as int, WORLD_WIDTH as int),
        in_wrap_range(p.y as int, WORLD_HEIGHT as int),
    ensures
        in_world(spec_wrap(p)),
        spec_wrap(spec_wrap(p)) == spec_wrap(p),
{
}

/// The signed per-axis displacement from `b` to `a` along the shorter of the
/// direct and the wrapped path.
pub open spec fn spec_shortest_delta(a: int, b: int, extent: int) -> int {
    let d = a - b;
    if d > extent / 2 {
        d - extent
    } else if d < -(extent / 2) {
        d + extent
    } else {
        d
    }
}

/// Shortest toroidal displacement from `b` to `a` on one axis.
pub fn shortest_delta(a: i64, b: i64, extent: i64) -> (r: i64)
    requires
        0 < extent,
        0 <= a <= extent,
        0 <= b <= extent,
    ensures
        r == spec_shortest_delta(a as int, b as int, extent as int),
        -(extent / 2) <= r <= extent / 2,
{
    proof {
        lemma_shortest_delta_props(a as int, b as int, extent as int);
    }
    let d = a - b;
    let half = extent / 2;
    if d > half {
        d - extent
    } else if d < -half {
        d + extent
    } else {
        d
    }
}

/// The shortest delta never exceeds half the extent in magnitude, and
/// `a - delta` is congruent to `b` modulo the extent.
pub proof fn lemma_shortest_delta_props(a: int, b: int, extent: int)
    requires
        0 < extent,
        0 <= a <= extent,
        0 <= b <= extent,
    ensures
        -(extent / 2) <= spec_shortest_delta(a, b, extent) <= extent / 2,
        (a - b - spec_shortest_delta(a, b, extent)) % extent == 0,
{
    let d = a - b;
    let h = extent / 2;
    assert(extent == 2 * h || extent == 2 * h + 1);
    if d > h {
        assert((a - b - (d - extent)) % extent == 0) by {
            assert(a - b - (d - extent) == extent);
            assert(extent % extent == 0) by (nonlinear_arith)
                requires extent > 0;
        }
    } else if d < -h {
        assert((a - b - (d + extent)) % extent == 0) by {
            assert(a - b - (d + extent) == -extent);
            assert((-extent) % extent == 0) by (nonlinear_arith)
                requires extent > 0;
        }
    } else {
        assert((a - b - d) % extent == 0) by {
            assert(a - b - d == 0);
            assert(0int % extent == 0) by (nonlinear_arith)
                requires extent > 0;
        }
    }
}

/// Squared toroidal distance between two in-world points, in squared
/// milli-units. Collision tests compare this against a squared radius sum;
/// no square root is ever taken for a distance.
pub fn distance_squared_wrapped(a: Vec2, b: Vec2) -> (r: i64)
    requires
        in_world_closed(a),
        in_world_closed(b),
    ensures
        r == spec_distance_squared(a, b),
        0 <= r <= 0x4_0000_0000_0000,
{
    let dx = shortest_delta(a.x, b.x, WORLD_WIDTH);
    let dy = shortest_delta(a.y, b.y, WORLD_HEIGHT);
    proof {
        assert(dx * dx <= 120_000 * 120_000) by (nonlinear_arith)
            requires -120_000 <= dx <= 120_000;
        assert(dy * dy <= 40_000 * 40_000) by (nonlinear_arith)
            requires -40_000 <= dy <= 40_000;
        assert(dx * dx >= 0) by (nonlinear_arith);
        assert(dy * dy >= 0) by (nonlinear_arith);
    }
    dx * dx + dy * dy
}

/// Squared toroidal distance over the per-axis shortest deltas.
pub open spec fn spec_distance_squared(a: Vec2, b: Vec2) -> int {
    let dx = spec_shortest_delta(a.x as int, b.x as int, WORLD_WIDTH as int);
    let dy = spec_shortest_delta(a.y as int, b.y as int, WORLD_HEIGHT as int);
    dx * dx + dy * dy
}

} // verus!
