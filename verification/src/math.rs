//! Small arithmetic helpers: saturating additions for clocks and scores, and
//! an exact integer square root used where a velocity must be rescaled to a
//! speed cap.

use vstd::prelude::*;

verus! {

/// `a + b`, saturating at `u64::MAX`.
pub open spec fn spec_sat_add(a: u64, b: u64) -> u64 {
    if a + b <= u64::MAX {
        (a + b) as u64
    } else {
        u64::MAX
    }
}

/// Saturating addition on simulation clocks and expiry instants.
pub fn sat_add(a: u64, b: u64) -> (r: u64)
    ensures
        r == spec_sat_add(a, b),
{
    if a > u64::MAX - b {
        u64::MAX
    } else {
        a + b
    }
}

/// `a + b`, saturating at `u32::MAX`.
pub open spec fn spec_sat_add32(a: u32, b: u32) -> u32 {
    if a + b <= u32::MAX {
        (a + b) as u32
    } else {
        u32::MAX
    }
}

/// Saturating addition on scores and counters.
pub fn sat_add32(a: u32, b: u32) -> (r: u32)
    ensures
        r == spec_sat_add32(a, b),
{
    if a > u32::MAX - b {
        u32::MAX
    } else {
        a + b
    }
}

/// `s` is the integer square root of `n`.
pub open spec fn is_isqrt(n: int, s: int) -> bool {
    0 <= s && s * s <= n < (s + 1) * (s + 1)
}

/// Integer square root by bisection, exact: `r * r <= n < (r + 1) * (r + 1)`.
pub fn isqrt(n: u64) -> (r: u64)
    requires
        n < 0x1_0000_0000_0000,
    ensures
        is_isqrt(n as int, r as int),
{
    let mut lo: u64 = 0;
    let mut hi: u64 = 0x100_0000;
    proof {
        assert((0x100_0000u64 + 1) * (0x100_0000u64 + 1) > 0x1_0000_0000_0000) by (nonlinear_arith);
    }
    while lo < hi
        invariant
            lo <= hi <= 0x100_0000,
            lo * lo <= n,
            n < (hi + 1) * (hi + 1),
        decreases hi - lo,
    {
        let mid = lo + (hi - lo + 1) / 2;
        proof {
            assert(mid * mid <= 0x100_0000 * 0x100_0000) by (nonlinear_arith)
                requires 0 <= mid <= 0x100_0000;
        }
        if mid * mid <= n {
            lo = mid;
        } else {
            hi = mid - 1;
        }
    }
    lo
}

} // verus!
