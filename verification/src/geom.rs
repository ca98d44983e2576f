//! Shared geometric value types and the integer distance / rounding helpers
//! used to rasterize line segments between two points.

use vstd::prelude::*;

verus! {

/// The single failure signal of the region detectors: no plausible region
/// was located, a scan exhausted its range, or a border reached the image
/// edge before stabilizing.
#[derive(Clone, Copy, PartialEq, Eq, Structural, Debug)]
pub struct RegionNotFound;

/// A pixel position in image space.
#[derive(Clone, Copy, PartialEq, Eq, Structural, Debug)]
pub struct Point {
    pub x: i32,
    pub y: i32,
}

/// An ordered four-corner approximation of a symbol's outer boundary.
/// `top` and `bottom` are opposite corners on one diagonal, `left` and
/// `right` on the other.
#[derive(Clone, Copy, PartialEq, Eq, Structural, Debug)]
pub struct Quadrilateral {
    pub top: Point,
    pub left: Point,
    pub right: Point,
    pub bottom: Point,
}

/// Halving that truncates toward zero, matching `/ 2` on machine integers.
pub open spec fn half_trunc(n: int) -> int {
    if n >= 0 {
        n / 2
    } else {
        -((-n) / 2)
    }
}

/// Exec counterpart of `half_trunc`.
pub fn half_trunc32(n: i32) -> (r: i32)
    ensures
        r == half_trunc(n as int),
{
    if n >= 0 {
        ((n as u32) / 2) as i32
    } else {
        let m: i64 = -(n as i64);
        -((((m as u64) / 2) as i64) as i32)
    }
}

/// Rounding of the quotient `p / q` to the nearest integer, halves away
/// from zero; `q` must be positive.
pub open spec fn round_div(p: int, q: int) -> int
    recommends
        q > 0,
{
    if p >= 0 {
        (2 * p + q) / (2 * q)
    } else {
        -((2 * (-p) + q) / (2 * q))
    }
}

/// The integer square root, rounded down.
pub open spec fn sqrt_floor(n: int) -> int
    decreases n,
{
    if n <= 0 {
        0
    } else {
        let r = sqrt_floor(n - 1);
        if (r + 1) * (r + 1) <= n {
            r + 1
        } else {
            r
        }
    }
}

/// The square root of `n` rounded to the nearest integer.
pub open spec fn sqrt_round(n: int) -> int {
    let r = sqrt_floor(n);
    if n - r * r > r {
        r + 1
    } else {
        r
    }
}

pub proof fn lemma_sqrt_floor_bounds(n: int)
    requires
        n >= 0,
    ensures
        0 <= sqrt_floor(n),
        sqrt_floor(n) * sqrt_floor(n) <= n,
        n < (sqrt_floor(n) + 1) * (sqrt_floor(n) + 1),
    decreases n,
{
    if n > 0 {
        lemma_sqrt_floor_bounds(n - 1);
        let r = sqrt_floor(n - 1);
        if (r + 1) * (r + 1) <= n {
            assert(n < (r + 2) * (r + 2)) by (nonlinear_arith)
                requires
                    n - 1 < (r + 1) * (r + 1),
                    r >= 0,
            ;
        }
    }
}

/// The floored square root is unique: any `r` squeezed the same way equals it.
pub proof fn lemma_sqrt_floor_unique(n: int, r: int)
    requires
        0 <= r,
        r * r <= n,
        n < (r + 1) * (r + 1),
    ensures
        r == sqrt_floor(n),
{
    lemma_sqrt_floor_bounds(n);
    let s = sqrt_floor(n);
    assert(r == s) by (nonlinear_arith)
        requires
            0 <= r,
            0 <= s,
            r * r <= n,
            n < (r + 1) * (r + 1),
            s * s <= n,
            n < (s + 1) * (s + 1),
    ;
}

/// Floored integer square root over `i64`, by upward search.
pub fn isqrt64(n: i64) -> (r: i64)
    requires
        0 <= n <= 0x20_0000_0000,
    ensures
        r == sqrt_floor(n as int),
        0 <= r <= 0x6_0000,
{
    let mut r: i64 = 0;
    let mut done = false;
    while !done
        invariant
            0 <= r <= 0x6_0000,
            r <= n,
            r * r <= n,
            n <= 0x20_0000_0000,
            done ==> n < (r + 1) * (r + 1),
        decreases
                n - r,
                (if done {
                    0int
                } else {
                    1int
                }),
    {
        let next = r + 1;
        proof {
            assert(0 <= next * next <= 0x40_0000_0000) by (nonlinear_arith)
                requires
                    0 <= next <= 0x6_0001,
            ;
        }
        if next * next <= n {
            proof {
                assert(next <= 0x6_0000 && next <= n) by (nonlinear_arith)
                    requires
                        next * next <= n,
                        n <= 0x20_0000_0000,
                        1 <= next,
                ;
            }
            r = next;
        } else {
            done = true;
        }
    }
    proof {
        lemma_sqrt_floor_unique(n as int, r as int);
    }
    r
}

/// The Euclidean distance between `(ax, ay)` and `(bx, by)`, rounded to the
/// nearest integer.
pub open spec fn spec_distance_round(ax: int, ay: int, bx: int, by: int) -> int {
    sqrt_round((bx - ax) * (bx - ax) + (by - ay) * (by - ay))
}

pub fn distance_round(ax: i32, ay: i32, bx: i32, by: i32) -> (r: i64)
    requires
        -0x2_0000 <= ax <= 0x2_0000,
        -0x2_0000 <= ay <= 0x2_0000,
        -0x2_0000 <= bx <= 0x2_0000,
        -0x2_0000 <= by <= 0x2_0000,
    ensures
        r == spec_distance_round(ax as int, ay as int, bx as int, by as int),
        0 <= r <= 0x8_0000,
{
    let dx: i64 = (bx as i64) - (ax as i64);
    let dy: i64 = (by as i64) - (ay as i64);
    proof {
        assert(0 <= dx * dx <= 0x10_0000_0000 && 0 <= dy * dy <= 0x10_0000_0000)
            by (nonlinear_arith)
            requires
                -0x4_0000 <= dx <= 0x4_0000,
                -0x4_0000 <= dy <= 0x4_0000,
        ;
    }
    let n: i64 = dx * dx + dy * dy;
    let s = isqrt64(n);
    proof {
        assert(0 <= s * s <= 0x40_0000_0000) by (nonlinear_arith)
            requires
                0 <= s <= 0x6_0000,
        ;
    }
    if n - s * s > s {
        s + 1
    } else {
        s
    }
}

/// Rounded division over `i64`, halves away from zero.
pub fn round_div64(p: i64, q: i64) -> (r: i64)
    requires
        0 < q <= 0x1000_0000_0000,
        -0x1000_0000_0000_0000 <= p <= 0x1000_0000_0000_0000,
    ensures
        r == round_div(p as int, q as int),
{
    if p >= 0 {
        (2 * p + q) / (2 * q)
    } else {
        -((2 * (-p) + q) / (2 * q))
    }
}

/// `round_div` never leaves an interval that brackets its argument.
pub proof fn lemma_round_div_between(p: int, q: int, lo: int, hi: int)
    requires
        q > 0,
        lo * q <= p <= hi * q,
    ensures
        lo <= round_div(p, q) <= hi,
{
    if p >= 0 {
        let d = (2 * p + q) / (2 * q);
        assert(lo <= d <= hi) by (nonlinear_arith)
            requires
                q > 0,
                lo * q <= p <= hi * q,
                p >= 0,
                d == (2 * p + q) / (2 * q),
        ;
    } else {
        let d = (2 * (-p) + q) / (2 * q);
        assert(lo <= -d <= hi) by (nonlinear_arith)
            requires
                q > 0,
                lo * q <= p <= hi * q,
                p < 0,
                d == (2 * (-p) + q) / (2 * q),
        ;
    }
}

} // verus!

