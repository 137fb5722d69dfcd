//! Constant-jerk motion: an alternative to the kinematic move duration, and
//! the lifts of scalar motions to the plane.
//!
//! A move under constant jerk magnitude that starts and ends at rest and is
//! symmetric about its midpoint follows `s(f) = from + (to - from)(3f^2 - 2f^3)`
//! for progress `f`, whichever quantity (the jerk, the peak velocity or the
//! average velocity) is fixed; the variants differ in how long the move takes.

use vstd::prelude::*;
use crate::interpolator::{Endpoint, FRACTION_ONE, Interpolatable, InterpolationFunction};
use crate::movement::{ceil_div, lemma_ceil_div};
use crate::position::{Diagonal, Position, distance, spec_distance};

verus! {

/// The constant-jerk curve `3f^2 - 2f^3` on a fixed-point fraction.
pub open spec fn smoothstep(p: int) -> int {
    let one = FRACTION_ONE as int;
    (3 * one * p * p - 2 * p * p * p) / (one * one)
}

/// `smoothstep` maps `[0, FRACTION_ONE]` into itself and keeps both ends.
pub proof fn lemma_smoothstep_bounds(p: int)
    requires
        0 <= p <= FRACTION_ONE,
    ensures
        0 <= smoothstep(p) <= FRACTION_ONE,
        smoothstep(0) == 0,
        smoothstep(FRACTION_ONE as int) == FRACTION_ONE,
{
    let one = FRACTION_ONE as int;
    let n = 3 * one * p * p - 2 * p * p * p;
    assert(0 <= n <= one * one * one) by (nonlinear_arith)
        requires
            n == 3 * one * p * p - 2 * p * p * p,
            0 <= p <= one,
    ;
    assert(n / (one * one) <= one) by (nonlinear_arith)
        requires
            0 <= n <= one * one * one,
            one > 0,
    ;
    assert(0 <= n / (one * one)) by (nonlinear_arith)
        requires
            0 <= n,
            one > 0,
    ;
    assert((3 * one * one * one - 2 * one * one * one) / (one * one) == one) by (nonlinear_arith)
        requires
            one > 0,
    ;
}

/// Evaluates `smoothstep`.
fn smoothstep_exec(p: u64) -> (r: u64)
    requires
        p <= FRACTION_ONE,
    ensures
        r == smoothstep(p as int),
        r <= FRACTION_ONE,
{
    proof {
        lemma_smoothstep_bounds(p as int);
    }
    let q = p as u128;
    let one = FRACTION_ONE as u128;
    assert(3 * one * q * q <= 3 * 1048576 * 1048576 * 1048576 && 2 * q * q * q <= 2 * 1048576
        * 1048576 * 1048576 && 3 * one * q <= 3 * 1048576 * 1048576 && 2 * q * q <= 2 * 1048576
        * 1048576) by (nonlinear_arith)
        requires
            q <= 1048576,
            one == 1048576,
    ;
    assert(2 * q * q * q <= 3 * one * q * q) by (nonlinear_arith)
        requires
            q <= one,
    ;
    ((3 * one * q * q - 2 * q * q * q) / (one * one)) as u64
}

/// A move whose duration follows from the distance covered.
pub trait DurationCalculable {
    /// The parameters allow computing durations.
    spec fn spec_valid(&self) -> bool;

    /// The time a move over `distance` takes.
    spec fn spec_duration(&self, distance: int) -> int;

    /// The time a move over `distance` takes.
    fn duration(&self, distance: u64) -> (r: i64)
        requires
            self.spec_valid(),
            distance <= 0x2_0000_0000,
        ensures
            r == self.spec_duration(distance as int),
            r >= 0,
            distance > 0 ==> r > 0,
    ;
}

/// The integer cube root: the largest `r` with `r * r * r <= n`.
pub open spec fn floor_cbrt(n: nat) -> nat
    decreases n,
{
    if n == 0 {
        0
    } else {
        let r = floor_cbrt((n - 1) as nat);
        if (r + 1) * (r + 1) * (r + 1) <= n {
            r + 1
        } else {
            r
        }
    }
}

/// `floor_cbrt(n)` is the one `r` with `r^3 <= n < (r + 1)^3`.
pub proof fn lemma_floor_cbrt(n: nat)
    ensures
        floor_cbrt(n) * floor_cbrt(n) * floor_cbrt(n) <= n,
        n < (floor_cbrt(n) + 1) * (floor_cbrt(n) + 1) * (floor_cbrt(n) + 1),
    decreases n,
{
    if n > 0 {
        lemma_floor_cbrt((n - 1) as nat);
        let r = floor_cbrt((n - 1) as nat);
        if (r + 1) * (r + 1) * (r + 1) <= n {
            assert(floor_cbrt(n) == r + 1);
            let s = r + 1;
            assert(s * s * s == n);
            assert(n < (s + 1) * (s + 1) * (s + 1)) by (nonlinear_arith)
                requires
                    s * s * s == n,
                    s >= 1,
            ;
        } else {
            assert(floor_cbrt(n) == r);
        }
    } else {
        assert((floor_cbrt(n) + 1) * (floor_cbrt(n) + 1) * (floor_cbrt(n) + 1) == 1);
    }
}

/// Any `r` with `r^3 <= n < (r + 1)^3` is `floor_cbrt(n)`.
pub proof fn lemma_floor_cbrt_unique(n: nat, r: nat)
    requires
        r * r * r <= n < (r + 1) * (r + 1) * (r + 1),
    ensures
        r == floor_cbrt(n),
{
    lemma_floor_cbrt(n);
    let s = floor_cbrt(n);
    if r < s {
        assert((r + 1) * (r + 1) * (r + 1) <= s * s * s) by (nonlinear_arith)
            requires
                r + 1 <= s,
                r >= 0,
        ;
    } else if s < r {
        assert((s + 1) * (s + 1) * (s + 1) <= r * r * r) by (nonlinear_arith)
            requires
                s + 1 <= r,
                s >= 0,
        ;
    }
}

/// The smallest `r` with `r * r * r >= n`.
pub open spec fn ceil_cbrt(n: nat) -> nat {
    if floor_cbrt(n) * floor_cbrt(n) * floor_cbrt(n) == n {
        floor_cbrt(n)
    } else {
        floor_cbrt(n) + 1
    }
}

/// The integer cube root of `n`, for `n < 2^63`.
pub fn icbrt(n: u64) -> (r: u64)
    requires
        n < 0x8000_0000_0000_0000,
    ensures
        r == floor_cbrt(n as nat),
{
    let mut lo: u64 = 0;
    let mut hi: u64 = 0x20_0000;
    assert(hi * hi * hi > n) by (nonlinear_arith)
        requires
            hi == 0x20_0000,
            n < 0x8000_0000_0000_0000,
    ;
    while hi - lo > 1
        invariant
            lo < hi <= 0x20_0000,
            lo * lo * lo <= n,
            n < hi * hi * hi,
        decreases hi - lo,
    {
        let mid = lo + (hi - lo) / 2;
        assert(mid * mid <= 0x20_0000 * 0x20_0000 && mid * mid * mid <= 0x20_0000 * 0x20_0000
            * 0x20_0000) by (nonlinear_arith)
            requires
                mid <= 0x20_0000,
        ;
        if mid * mid * mid <= n {
            lo = mid;
        } else {
            hi = mid;
        }
    }
    proof {
        lemma_floor_cbrt_unique(n as nat, lo as nat);
    }
    lo
}

/// Constant-jerk motion with a fixed jerk: a move over `d` takes
/// `cbrt(12 d / jerk)`, rounded up.
#[derive(Debug, Clone, Copy, PartialEq, Eq, Structural)]
pub struct ConstantJerk {
    pub jerk: u64,
}

impl ConstantJerk {
    /// Constant-jerk motion with jerk magnitude `jerk`.
    pub fn new(jerk: u64) -> (r: Self)
        ensures
            r.jerk == jerk,
    {
        ConstantJerk { jerk }
    }
}

/// Constant-jerk motion with a fixed peak velocity `v`: a move over `d` takes
/// `3 d / (2 v)`, rounded up.
#[derive(Debug, Clone, Copy, PartialEq, Eq, Structural)]
pub struct ConstantJerkFixedMaxVelocity {
    pub max_velocity: u64,
}

impl ConstantJerkFixedMaxVelocity {
    /// Constant-jerk motion with peak velocity `max_velocity`.
    pub fn new(max_velocity: u64) -> (r: Self)
        ensures
            r.max_velocity == max_velocity,
    {
        ConstantJerkFixedMaxVelocity { max_velocity }
    }
}

/// Constant-jerk motion with a fixed average velocity `v`: a move over `d`
/// takes `d / v`, rounded up.
#[derive(Debug, Clone, Copy, PartialEq, Eq, Structural)]
pub struct ConstantJerkFixedAverageVelocity {
    pub average_velocity: u64,
}

impl ConstantJerkFixedAverageVelocity {
    /// Constant-jerk motion with average velocity `average_velocity`.
    pub fn new(average_velocity: u64) -> (r: Self)
        ensures
            r.average_velocity == average_velocity,
    {
        ConstantJerkFixedAverageVelocity { average_velocity }
    }
}

impl DurationCalculable for ConstantJerk {
    open spec fn spec_valid(&self) -> bool {
        self.jerk > 0
    }

    open spec fn spec_duration(&self, distance: int) -> int {
        ceil_cbrt(ceil_div(12 * distance, self.jerk as int) as nat) as int
    }

    fn duration(&self, distance: u64) -> (r: i64) {
        let x = 12 * distance as u128;
        let j = self.jerk as u128;
        let q = (x + j - 1) / j;
        proof {
            lemma_ceil_div(x as int, j as int);
            assert(q <= x) by (nonlinear_arith)
                requires
                    (q - 1) * j < x,
                    j >= 1,
            ;
        }
        let n = q as u64;
        let f = icbrt(n);
        proof {
            lemma_floor_cbrt(n as nat);
            assert(f <= n) by (nonlinear_arith)
                requires
                    f * f * f <= n,
                    f >= 0,
            ;
        }
        assert(f * f <= n && f * f * f <= n) by (nonlinear_arith)
            requires
                f * f * f <= n,
                f <= n,
        ;
        if f * f * f == n {
            assert(distance > 0 ==> f >= 1) by (nonlinear_arith)
                requires
                    f * f * f == n,
                    distance > 0 ==> n >= 1,
            ;
            f as i64
        } else {
            (f + 1) as i64
        }
    }
}

impl DurationCalculable for ConstantJerkFixedMaxVelocity {
    open spec fn spec_valid(&self) -> bool {
        self.max_velocity > 0
    }

    open spec fn spec_duration(&self, distance: int) -> int {
        ceil_div(3 * distance, 2 * self.max_velocity as int)
    }

    fn duration(&self, distance: u64) -> (r: i64) {
        let v = self.max_velocity as u128;
        let x = 3 * distance as u128;
        let r = (x + 2 * v - 1) / (2 * v);
        proof {
            lemma_ceil_div(x as int, 2 * v as int);
            assert(r <= x) by (nonlinear_arith)
                requires
                    (r - 1) * (2 * v) < x,
                    v >= 1,
            ;
        }
        r as i64
    }
}

impl DurationCalculable for ConstantJerkFixedAverageVelocity {
    open spec fn spec_valid(&self) -> bool {
        self.average_velocity > 0
    }

    open spec fn spec_duration(&self, distance: int) -> int {
        ceil_div(distance, self.average_velocity as int)
    }

    fn duration(&self, distance: u64) -> (r: i64) {
        let v = self.average_velocity as u128;
        let x = distance as u128;
        let r = (x + v - 1) / v;
        proof {
            lemma_ceil_div(x as int, v as int);
            assert(r <= x) by (nonlinear_arith)
                requires
                    (r - 1) * v < x,
                    v >= 1,
            ;
        }
        r as i64
    }
}

impl<T: Interpolatable> InterpolationFunction<T> for ConstantJerk {
    open spec fn spec_endpoint() -> Endpoint {
        Endpoint::TO
    }

    open spec fn spec_interpolate(p: int, from: T, to: T) -> T {
        T::spec_lerp(from, to, smoothstep(p))
    }

    fn endpoint() -> (e: Endpoint) {
        Endpoint::TO
    }

    fn interpolate(p: u64, from: T, to: T) -> (r: T) {
        T::lerp(from, to, smoothstep_exec(p))
    }
}

impl<T: Interpolatable> InterpolationFunction<T> for ConstantJerkFixedMaxVelocity {
    open spec fn spec_endpoint() -> Endpoint {
        Endpoint::TO
    }

    open spec fn spec_interpolate(p: int, from: T, to: T) -> T {
        T::spec_lerp(from, to, smoothstep(p))
    }

    fn endpoint() -> (e: Endpoint) {
        Endpoint::TO
    }

    fn interpolate(p: u64, from: T, to: T) -> (r: T) {
        T::lerp(from, to, smoothstep_exec(p))
    }
}

impl<T: Interpolatable> InterpolationFunction<T> for ConstantJerkFixedAverageVelocity {
    open spec fn spec_endpoint() -> Endpoint {
        Endpoint::TO
    }

    open spec fn spec_interpolate(p: int, from: T, to: T) -> T {
        T::spec_lerp(from, to, smoothstep(p))
    }

    fn endpoint() -> (e: Endpoint) {
        Endpoint::TO
    }

    fn interpolate(p: u64, from: T, to: T) -> (r: T) {
        T::lerp(from, to, smoothstep_exec(p))
    }
}

impl<I: DurationCalculable> Diagonal<I> {
    /// The time the move along the straight line from `from` to `to` takes.
    pub fn duration(&self, from: Position, to: Position) -> (r: i64)
        requires
            self.0.spec_valid(),
        ensures
            r == self.0.spec_duration(spec_distance(from, to) as int),
    {
        self.0.duration(distance(from, to))
    }
}

/// The distance between two coordinates.
pub open spec fn axis_distance(a: i32, b: i32) -> int {
    if a <= b {
        b - a
    } else {
        a - b
    }
}

/// The progress of an axis whose move takes `axis` when the longer one takes
/// `longest`: stretched so that both finish together, at most one.
pub open spec fn axis_progress(p: int, longest: int, axis: int) -> int {
    if axis > 0 {
        let q = p * longest / axis;
        if q < FRACTION_ONE {
            q
        } else {
            FRACTION_ONE as int
        }
    } else {
        FRACTION_ONE as int
    }
}

/// Lifts a scalar motion `I` to positions by moving x and y independently,
/// slowing the shorter axis so that both finish together.
pub struct ComponentWise<I>(pub I);

impl<I: DurationCalculable + InterpolationFunction<i32>> ComponentWise<I> {
    /// The position at progress `p` of the move from `from` to `to`.
    pub open spec fn spec_interpolate(&self, p: int, from: Position, to: Position) -> Position {
        let tx = self.0.spec_duration(axis_distance(from.x, to.x));
        let ty = self.0.spec_duration(axis_distance(from.y, to.y));
        let longest = if tx > ty {
            tx
        } else {
            ty
        };
        Position {
            x: I::spec_interpolate(axis_progress(p, longest, tx), from.x, to.x),
            y: I::spec_interpolate(axis_progress(p, longest, ty), from.y, to.y),
        }
    }

    /// The time the move takes: the longer of the two axes.
    pub fn duration(&self, from: Position, to: Position) -> (r: i64)
        requires
            self.0.spec_valid(),
        ensures
            r == if self.0.spec_duration(axis_distance(from.x, to.x)) > self.0.spec_duration(
                axis_distance(from.y, to.y),
            ) {
                self.0.spec_duration(axis_distance(from.x, to.x))
            } else {
                self.0.spec_duration(axis_distance(from.y, to.y))
            },
    {
        let tx = self.0.duration(axis_delta(from.x, to.x));
        let ty = self.0.duration(axis_delta(from.y, to.y));
        if tx > ty {
            tx
        } else {
            ty
        }
    }

    /// The position at progress `p` (of `FRACTION_ONE`) of the move from `from` to `to`.
    pub fn interpolate(&self, p: u64, from: Position, to: Position) -> (r: Position)
        requires
            self.0.spec_valid(),
            p <= FRACTION_ONE,
        ensures
            r == self.spec_interpolate(p as int, from, to),
    {
        let tx = self.0.duration(axis_delta(from.x, to.x));
        let ty = self.0.duration(axis_delta(from.y, to.y));
        let longest = if tx > ty {
            tx
        } else {
            ty
        };
        let px = stretch(p, longest, tx);
        let py = stretch(p, longest, ty);
        Position { x: I::interpolate(px, from.x, to.x), y: I::interpolate(py, from.y, to.y) }
    }
}

/// The distance between two coordinates.
fn axis_delta(a: i32, b: i32) -> (r: u64)
    ensures
        r == axis_distance(a, b),
        r <= 0x1_0000_0000,
{
    if a <= b {
        (b as i64 - a as i64) as u64
    } else {
        (a as i64 - b as i64) as u64
    }
}

/// Evaluates `axis_progress`.
fn stretch(p: u64, longest: i64, axis: i64) -> (r: u64)
    requires
        p <= FRACTION_ONE,
        longest >= axis >= 0,
    ensures
        r == axis_progress(p as int, longest as int, axis as int),
{
    if axis > 0 {
        assert(p * longest <= 1048576 * 0x7fff_ffff_ffff_ffff) by (nonlinear_arith)
            requires
                p <= 1048576,
                0 <= longest <= 0x7fff_ffff_ffff_ffff,
        ;
        let q = (p as u128) * (longest as u128) / (axis as u128);
        if q < FRACTION_ONE as u128 {
            q as u64
        } else {
            FRACTION_ONE
        }
    } else {
        FRACTION_ONE
    }
}

} // verus!
