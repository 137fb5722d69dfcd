//! Positions in the plane and the distance between them.

use vstd::prelude::*;
use crate::interpolator::{
    Endpoint, FRACTION_ONE, Interpolatable, InterpolationFunction, lerp_int, lemma_lerp_int_bounds,
};

verus! {

/// A position in the plane, in whole length units.
#[derive(Debug, Clone, Copy, PartialEq, Eq, Structural)]
pub struct Position {
    pub x: i32,
    pub y: i32,
}

/// Linear interpolation of an `i32` between two values, rounded towards `from`.
fn lerp_i32(from: i32, to: i32, p: u64) -> (r: i32)
    requires
        p <= FRACTION_ONE,
    ensures
        r == lerp_int(from as int, to as int, p as int),
{
    proof {
        lemma_lerp_int_bounds(from as int, to as int, p as int);
    }
    let d: u64 = if from <= to {
        (to as i64 - from as i64) as u64
    } else {
        (from as i64 - to as i64) as u64
    };
    assert(d * p <= 0x1_0000_0000 * 1048576) by (nonlinear_arith)
        requires
            d <= 0x1_0000_0000,
            p <= 1048576,
    ;
    let step = (d * p / FRACTION_ONE) as i64;
    if from <= to {
        (from as i64 + step) as i32
    } else {
        (from as i64 - step) as i32
    }
}

impl Interpolatable for i32 {
    open spec fn spec_lerp(from: i32, to: i32, p: int) -> i32 {
        lerp_int(from as int, to as int, p) as i32
    }

    fn lerp(from: i32, to: i32, p: u64) -> (r: i32) {
        lerp_i32(from, to, p)
    }

    proof fn lemma_lerp_ends(from: i32, to: i32) {
        lemma_lerp_int_bounds(from as int, to as int, 0);
    }
}

impl Interpolatable for Position {
    open spec fn spec_lerp(from: Position, to: Position, p: int) -> Position {
        Position {
            x: lerp_int(from.x as int, to.x as int, p) as i32,
            y: lerp_int(from.y as int, to.y as int, p) as i32,
        }
    }

    fn lerp(from: Position, to: Position, p: u64) -> (r: Position) {
        Position { x: lerp_i32(from.x, to.x, p), y: lerp_i32(from.y, to.y, p) }
    }

    proof fn lemma_lerp_ends(from: Position, to: Position) {
        lemma_lerp_int_bounds(from.x as int, to.x as int, 0);
        lemma_lerp_int_bounds(from.y as int, to.y as int, 0);
    }
}

/// The integer square root: the largest `r` with `r * r <= n`.
pub open spec fn floor_sqrt(n: nat) -> nat
    decreases n,
{
    if n == 0 {
        0
    } else {
        let r = floor_sqrt((n - 1) as nat);
        if (r + 1) * (r + 1) <= n {
            r + 1
        } else {
            r
        }
    }
}

/// `floor_sqrt(n)` is the one `r` with `r * r <= n < (r + 1) * (r + 1)`.
pub proof fn lemma_floor_sqrt(n: nat)
    ensures
        floor_sqrt(n) * floor_sqrt(n) <= n,
        n < (floor_sqrt(n) + 1) * (floor_sqrt(n) + 1),
    decreases n,
{
    if n > 0 {
        lemma_floor_sqrt((n - 1) as nat);
        let r = floor_sqrt((n - 1) as nat);
        if (r + 1) * (r + 1) <= n {
            assert(floor_sqrt(n) == r + 1);
            assert((r + 1) * (r + 1) == n);
            let s = r + 1;
            assert(n < (s + 1) * (s + 1)) by (nonlinear_arith)
                requires
                    s * s == n,
                    s >= 1,
            ;
        } else {
            assert(floor_sqrt(n) == r);
        }
    } else {
        assert((floor_sqrt(n) + 1) * (floor_sqrt(n) + 1) == 1);
    }
}

/// Any `r` with `r * r <= n < (r + 1) * (r + 1)` is `floor_sqrt(n)`.
pub proof fn lemma_floor_sqrt_unique(n: nat, r: nat)
    requires
        r * r <= n < (r + 1) * (r + 1),
    ensures
        r == floor_sqrt(n),
{
    lemma_floor_sqrt(n);
    let s = floor_sqrt(n);
    if r < s {
        assert((r + 1) * (r + 1) <= s * s) by (nonlinear_arith)
            requires
                r + 1 <= s,
                r >= 0,
        ;
    } else if s < r {
        assert((s + 1) * (s + 1) <= r * r) by (nonlinear_arith)
            requires
                s + 1 <= r,
                s >= 0,
        ;
    }
}

/// The integer square root of `n`.
pub fn isqrt(n: u128) -> (r: u64)
    ensures
        r == floor_sqrt(n as nat),
{
    // Binary search for the largest `lo` with `lo * lo <= n`.
    let mut lo: u128 = 0;
    let mut hi: u128 = 0x1_0000_0000_0000_0000;
    assert(hi * hi > n) by (nonlinear_arith)
        requires
            hi == 0x1_0000_0000_0000_0000,
            n <= 0xffff_ffff_ffff_ffff_ffff_ffff_ffff_ffff,
    ;
    while hi - lo > 1
        invariant
            lo < hi <= 0x1_0000_0000_0000_0000,
            lo * lo <= n,
            n < hi * hi,
        decreases hi - lo,
    {
        let mid = lo + (hi - lo) / 2;
        assert(mid * mid <= 0xffff_ffff_ffff_ffff * 0xffff_ffff_ffff_ffff) by (nonlinear_arith)
            requires
                mid <= 0xffff_ffff_ffff_ffff,
        ;
        if mid * mid <= n {
            lo = mid;
        } else {
            hi = mid;
        }
    }
    proof {
        lemma_floor_sqrt_unique(n as nat, lo as nat);
    }
    lo as u64
}

/// The squared Euclidean distance between two positions.
pub open spec fn distance_squared(a: Position, b: Position) -> nat {
    ((a.x - b.x) * (a.x - b.x) + (a.y - b.y) * (a.y - b.y)) as nat
}

/// The Euclidean distance between two positions, rounded down to whole units.
pub open spec fn spec_distance(a: Position, b: Position) -> nat {
    floor_sqrt(distance_squared(a, b))
}

/// The squared Euclidean distance between two positions.
pub fn squared_distance(a: Position, b: Position) -> (r: u128)
    ensures
        r == distance_squared(a, b),
        r <= 0x2_0000_0000_0000_0000,
{
    let dx = a.x as i64 - b.x as i64;
    let dy = a.y as i64 - b.y as i64;
    let ux: u128 = if dx < 0 { (-dx) as u128 } else { dx as u128 };
    let uy: u128 = if dy < 0 { (-dy) as u128 } else { dy as u128 };
    assert(ux * ux <= 0x1_0000_0000 * 0x1_0000_0000 && uy * uy <= 0x1_0000_0000 * 0x1_0000_0000)
        by (nonlinear_arith)
        requires
            ux <= 0x1_0000_0000,
            uy <= 0x1_0000_0000,
    ;
    assert(ux * ux == dx * dx && uy * uy == dy * dy) by (nonlinear_arith)
        requires
            ux == dx || ux == -dx,
            uy == dy || uy == -dy,
    ;
    ux * ux + uy * uy
}

/// The Euclidean distance between two positions, rounded down to whole units.
pub fn distance(a: Position, b: Position) -> (r: u64)
    ensures
        r == spec_distance(a, b),
        r <= 0x2_0000_0000,
{
    let n = squared_distance(a, b);
    let r = isqrt(n);
    proof {
        lemma_floor_sqrt(n as nat);
        assert(r <= 0x2_0000_0000) by (nonlinear_arith)
            requires
                r * r <= n,
                n <= 0x2_0000_0000_0000_0000,
        ;
    }
    r
}


/// The coordinate a share `s / d` of the way from `from` to `to`, rounded
/// towards `from`; `to` when `d` is `0`.
pub open spec fn along(from: int, to: int, s: int, d: int) -> int {
    if d == 0 {
        to
    } else if from <= to {
        from + (to - from) * s / d
    } else {
        from - (from - to) * s / d
    }
}

/// `s` clamped to `[0, d]`.
pub open spec fn clamp_progress(s: int, d: int) -> int {
    if s < 0 {
        0
    } else if s > d {
        d
    } else {
        s
    }
}

/// Lifts a scalar interpolation function `I` to positions by moving along the
/// straight line from `from` to `to`: `I` interpolates the distance covered
/// (kept within the segment), and the point that far along the line is
/// returned.
pub struct Diagonal<I>(pub I);

/// One coordinate `s / d` of the way from `from` to `to`.
fn along_i32(from: i32, to: i32, s: u64, d: u64) -> (r: i32)
    requires
        s <= d,
    ensures
        r == along(from as int, to as int, s as int, d as int),
{
    if d == 0 {
        return to;
    }
    let delta: u128 = if from <= to {
        (to as i64 - from as i64) as u128
    } else {
        (from as i64 - to as i64) as u128
    };
    assert(delta * (s as u128) <= 0x1_0000_0000 * 0xffff_ffff_ffff_ffff) by (nonlinear_arith)
        requires
            delta <= 0x1_0000_0000,
            s <= 0xffff_ffff_ffff_ffff,
    ;
    let step = delta * (s as u128) / (d as u128);
    assert(step <= delta) by (nonlinear_arith)
        requires
            step == (delta * s) / (d as int),
            s <= d,
            d > 0,
            delta >= 0,
    ;
    if from <= to {
        (from as i64 + step as i64) as i32
    } else {
        (from as i64 - step as i64) as i32
    }
}

impl<I: InterpolationFunction<i64>> InterpolationFunction<Position> for Diagonal<I> {
    open spec fn spec_endpoint() -> Endpoint {
        I::spec_endpoint()
    }

    open spec fn spec_interpolate(p: int, from: Position, to: Position) -> Position {
        let d = spec_distance(from, to) as int;
        let s = clamp_progress(I::spec_interpolate(p, 0i64, d as i64) as int, d);
        Position {
            x: along(from.x as int, to.x as int, s, d) as i32,
            y: along(from.y as int, to.y as int, s, d) as i32,
        }
    }

    fn endpoint() -> (e: Endpoint) {
        I::endpoint()
    }

    fn interpolate(p: u64, from: Position, to: Position) -> (r: Position) {
        let d = distance(from, to);
        let s = I::interpolate(p, 0, d as i64);
        let s: u64 = if s < 0 {
            0
        } else if s as u64 > d {
            d
        } else {
            s as u64
        };
        Position { x: along_i32(from.x, to.x, s, d), y: along_i32(from.y, to.y, s, d) }
    }
}

} // verus!
