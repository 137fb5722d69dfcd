//! Interpolation functions: strategies that map a progress fraction and two
//! endpoint values to an intermediate value.

use vstd::prelude::*;

verus! {

/// The fixed-point value that stands for a progress fraction of `1`.
/// A fraction `p` with `0 <= p <= FRACTION_ONE` stands for `p / FRACTION_ONE`.
pub const FRACTION_ONE: u64 = 1048576;

/// The endpoint of an interpolation function.
#[derive(Debug, Clone, Copy, PartialEq, Eq, Structural)]
pub enum Endpoint {
    /// The interpolation function ends back at the from-point
    FROM,
    /// The interpolation function ends at the to-point (most interpolation functions)
    TO,
}

impl Endpoint {
    /// The value that `get` selects.
    pub open spec fn spec_get<T>(self, from: T, to: T) -> T {
        match self {
            Endpoint::FROM => from,
            Endpoint::TO => to,
        }
    }

    /// Gets the passed argument based on the value of this [Endpoint]
    pub fn get<T>(self, from: T, to: T) -> (r: T)
        ensures
            r == self.spec_get(from, to),
    {
        match self {
            Endpoint::FROM => from,
            Endpoint::TO => to,
        }
    }
}

/// Linear interpolation of integers, rounded towards `from`.
pub open spec fn lerp_int(from: int, to: int, p: int) -> int {
    if from <= to {
        from + (to - from) * p / (FRACTION_ONE as int)
    } else {
        from - (from - to) * p / (FRACTION_ONE as int)
    }
}

/// `lerp_int` stays between its endpoints and reaches them at `0` and `FRACTION_ONE`.
pub proof fn lemma_lerp_int_bounds(from: int, to: int, p: int)
    requires
        0 <= p <= FRACTION_ONE,
    ensures
        from <= to ==> from <= lerp_int(from, to, p) <= to,
        to < from ==> to <= lerp_int(from, to, p) <= from,
        lerp_int(from, to, 0) == from,
        lerp_int(from, to, FRACTION_ONE as int) == to,
{
    let one = FRACTION_ONE as int;
    if from <= to {
        let d = to - from;
        assert(0 <= d * p <= d * one) by (nonlinear_arith)
            requires
                0 <= d,
                0 <= p <= one,
        ;
        assert(d * p / one <= d * one / one) by (nonlinear_arith)
            requires
                0 <= d * p <= d * one,
                one > 0,
        ;
        assert(d * one / one == d) by (nonlinear_arith)
            requires
                one > 0,
        ;
        assert(0 <= d * p / one) by (nonlinear_arith)
            requires
                0 <= d * p,
                one > 0,
        ;
    } else {
        let d = from - to;
        assert(0 <= d * p <= d * one) by (nonlinear_arith)
            requires
                0 <= d,
                0 <= p <= one,
        ;
        assert(d * p / one <= d * one / one) by (nonlinear_arith)
            requires
                0 <= d * p <= d * one,
                one > 0,
        ;
        assert(d * one / one == d) by (nonlinear_arith)
            requires
                one > 0,
        ;
        assert(0 <= d * p / one) by (nonlinear_arith)
            requires
                0 <= d * p,
                one > 0,
        ;
    }
}

/// `lerp_int` does not decrease in `p` when `from <= to`.
pub proof fn lemma_lerp_int_monotonic(from: int, to: int, pa: int, pb: int)
    requires
        from <= to,
        0 <= pa <= pb,
    ensures
        lerp_int(from, to, pa) <= lerp_int(from, to, pb),
{
    let one = FRACTION_ONE as int;
    let d = to - from;
    assert(d * pa <= d * pb) by (nonlinear_arith)
        requires
            0 <= d,
            pa <= pb,
    ;
    lemma_div_monotonic(d * pa, d * pb, one);
}

/// Integer division by a positive number does not decrease.
pub proof fn lemma_div_monotonic(a: int, b: int, d: int)
    requires
        a <= b,
        d > 0,
    ensures
        a / d <= b / d,
{
    assert(a / d <= b / d) by (nonlinear_arith)
        requires
            a <= b,
            d > 0,
    ;
}

/// Linear interpolation of a `u64` between two values, rounded towards `from`.
fn lerp_u64(from: u64, to: u64, p: u64) -> (r: u64)
    requires
        p <= FRACTION_ONE,
    ensures
        r == lerp_int(from as int, to as int, p as int),
{
    proof {
        lemma_lerp_int_bounds(from as int, to as int, p as int);
    }
    if from <= to {
        let d = (to - from) as u128;
        assert(d * (p as u128) <= 0xffff_ffff_ffff_ffff * 1048576) by (nonlinear_arith)
            requires
                d <= 0xffff_ffff_ffff_ffff,
                p <= 1048576,
        ;
        let step = d * (p as u128) / (FRACTION_ONE as u128);
        (from as u128 + step) as u64
    } else {
        let d = (from - to) as u128;
        assert(d * (p as u128) <= 0xffff_ffff_ffff_ffff * 1048576) by (nonlinear_arith)
            requires
                d <= 0xffff_ffff_ffff_ffff,
                p <= 1048576,
        ;
        let step = d * (p as u128) / (FRACTION_ONE as u128);
        (from as u128 - step) as u64
    }
}


/// Linear interpolation of an `i64` between two values, rounded towards `from`.
pub fn lerp_i64(from: i64, to: i64, p: u64) -> (r: i64)
    requires
        p <= FRACTION_ONE,
    ensures
        r == lerp_int(from as int, to as int, p as int),
{
    proof {
        lemma_lerp_int_bounds(from as int, to as int, p as int);
    }
    if from <= to {
        let d = (to as i128 - from as i128) as u128;
        assert(d * (p as u128) <= 0xffff_ffff_ffff_ffff * 1048576) by (nonlinear_arith)
            requires
                d <= 0xffff_ffff_ffff_ffff,
                p <= 1048576,
        ;
        let step = (d * (p as u128) / (FRACTION_ONE as u128)) as i128;
        (from as i128 + step) as i64
    } else {
        let d = (from as i128 - to as i128) as u128;
        assert(d * (p as u128) <= 0xffff_ffff_ffff_ffff * 1048576) by (nonlinear_arith)
            requires
                d <= 0xffff_ffff_ffff_ffff,
                p <= 1048576,
        ;
        let step = (d * (p as u128) / (FRACTION_ONE as u128)) as i128;
        (from as i128 - step) as i64
    }
}

/// Linear interpolation of a `u8` between two values, rounded towards `from`.
pub fn lerp_u8(from: u8, to: u8, p: u64) -> (r: u8)
    requires
        p <= FRACTION_ONE,
    ensures
        r == lerp_int(from as int, to as int, p as int),
{
    proof {
        lemma_lerp_int_bounds(from as int, to as int, p as int);
    }
    lerp_u64(from as u64, to as u64, p) as u8
}

/// A value that can be interpolated linearly.
pub trait Interpolatable: Copy + Sized {
    /// The value a fraction `p` (of `FRACTION_ONE`) of the way from `from` to `to`.
    spec fn spec_lerp(from: Self, to: Self, p: int) -> Self;

    /// Interpolates linearly from `from` to `to` by the fraction `p`.
    fn lerp(from: Self, to: Self, p: u64) -> (r: Self)
        requires
            p <= FRACTION_ONE,
        ensures
            r == Self::spec_lerp(from, to, p as int),
    ;
    /// At progress `0` the value is `from`, at progress one it is `to`.
    proof fn lemma_lerp_ends(from: Self, to: Self)
        ensures
            Self::spec_lerp(from, to, 0) == from,
            Self::spec_lerp(from, to, FRACTION_ONE as int) == to,
    ;
}

impl Interpolatable for i64 {
    open spec fn spec_lerp(from: i64, to: i64, p: int) -> i64 {
        lerp_int(from as int, to as int, p) as i64
    }

    fn lerp(from: i64, to: i64, p: u64) -> (r: i64) {
        lerp_i64(from, to, p)
    }

    proof fn lemma_lerp_ends(from: i64, to: i64) {
        lemma_lerp_int_bounds(from as int, to as int, 0);
    }
}

/// An interpolation function which can interpolate values of type `T`.
pub trait InterpolationFunction<T> {
    /// The [Endpoint] of this function (whether it loops back to the start value).
    spec fn spec_endpoint() -> Endpoint;

    /// The value at progress `p` (of `FRACTION_ONE`) from `from` to `to`.
    spec fn spec_interpolate(p: int, from: T, to: T) -> T;

    /// The [Endpoint] of this function.
    fn endpoint() -> (e: Endpoint)
        ensures
            e == Self::spec_endpoint(),
    ;

    /// Interpolates between two values based on the progress `p` (of `FRACTION_ONE`).
    fn interpolate(p: u64, from: T, to: T) -> (r: T)
        requires
            p <= FRACTION_ONE,
        ensures
            r == Self::spec_interpolate(p as int, from, to),
    ;
}

/// Constant interpolation: always the `to`-value.
#[derive(Debug, Clone, Copy, PartialEq, Eq, Structural)]
pub struct Constant();

impl<T> InterpolationFunction<T> for Constant {
    open spec fn spec_endpoint() -> Endpoint {
        Endpoint::TO
    }

    open spec fn spec_interpolate(p: int, from: T, to: T) -> T {
        to
    }

    fn endpoint() -> (e: Endpoint) {
        Endpoint::TO
    }

    fn interpolate(p: u64, from: T, to: T) -> (r: T) {
        to
    }
}

/// Linear interpolation from `from` to `to`.
#[derive(Debug, Clone, Copy, PartialEq, Eq, Structural)]
pub struct Linear();

impl<T: Interpolatable> InterpolationFunction<T> for Linear {
    open spec fn spec_endpoint() -> Endpoint {
        Endpoint::TO
    }

    open spec fn spec_interpolate(p: int, from: T, to: T) -> T {
        T::spec_lerp(from, to, p)
    }

    fn endpoint() -> (e: Endpoint) {
        Endpoint::TO
    }

    fn interpolate(p: u64, from: T, to: T) -> (r: T) {
        T::lerp(from, to, p)
    }
}

/// The triangle fold of a progress fraction: up from `0` to `FRACTION_ONE`
/// over the first half, and back down to `0` over the second half.
pub open spec fn triangle_fold(p: int) -> int {
    if 2 * p < FRACTION_ONE {
        2 * p
    } else {
        2 * FRACTION_ONE - 2 * p
    }
}

/// Triangle interpolation: linearly from `from` to `to` in the first half,
/// then back from `to` to `from` in the second half.
#[derive(Debug, Clone, Copy, PartialEq, Eq, Structural)]
pub struct Triangle();

impl<T: Interpolatable> InterpolationFunction<T> for Triangle {
    open spec fn spec_endpoint() -> Endpoint {
        Endpoint::FROM
    }

    open spec fn spec_interpolate(p: int, from: T, to: T) -> T {
        T::spec_lerp(from, to, triangle_fold(p))
    }

    fn endpoint() -> (e: Endpoint) {
        Endpoint::FROM
    }

    fn interpolate(p: u64, from: T, to: T) -> (r: T) {
        let folded = if 2 * p < FRACTION_ONE {
            2 * p
        } else {
            2 * FRACTION_ONE - 2 * p
        };
        T::lerp(from, to, folded)
    }
}

/// The easeInOutCubic curve on a fixed-point fraction:
/// `4p^3` below one half, `1 - 4(1-p)^3` from one half on.
pub open spec fn ease_in_out_cubic(p: int) -> int {
    let one = FRACTION_ONE as int;
    if 2 * p < one {
        4 * p * p * p / (one * one)
    } else {
        one - 4 * (one - p) * (one - p) * (one - p) / (one * one)
    }
}

/// `ease_in_out_cubic` maps `[0, FRACTION_ONE]` into itself and keeps both ends.
pub proof fn lemma_ease_bounds(p: int)
    requires
        0 <= p <= FRACTION_ONE,
    ensures
        0 <= ease_in_out_cubic(p) <= FRACTION_ONE,
        2 * p < FRACTION_ONE ==> 2 * ease_in_out_cubic(p) <= FRACTION_ONE,
        2 * p >= FRACTION_ONE ==> 2 * ease_in_out_cubic(p) >= FRACTION_ONE,
        ease_in_out_cubic(0) == 0,
        ease_in_out_cubic(FRACTION_ONE as int) == FRACTION_ONE,
{
    let one = FRACTION_ONE as int;
    let h = one / 2;
    assert(one == 2 * h);
    if 2 * p < one {
        assert(0 <= 4 * p * p * p <= 4 * h * h * h) by (nonlinear_arith)
            requires
                0 <= p <= h,
        ;
        lemma_div_monotonic(4 * p * p * p, 4 * h * h * h, one * one);
        assert(4 * h * h * h / (one * one) == h) by (nonlinear_arith)
            requires
                one == 2 * h,
                h > 0,
        ;
        assert(0 <= 4 * p * p * p / (one * one)) by (nonlinear_arith)
            requires
                0 <= 4 * p * p * p,
                one > 0,
        ;
    } else {
        let q = one - p;
        assert(0 <= 4 * q * q * q <= 4 * h * h * h) by (nonlinear_arith)
            requires
                0 <= q <= h,
        ;
        lemma_div_monotonic(4 * q * q * q, 4 * h * h * h, one * one);
        assert(4 * h * h * h / (one * one) == h) by (nonlinear_arith)
            requires
                one == 2 * h,
                h > 0,
        ;
        assert(0 <= 4 * q * q * q / (one * one)) by (nonlinear_arith)
            requires
                0 <= 4 * q * q * q,
                one > 0,
        ;
    }
}

/// `ease_in_out_cubic` does not decrease on `[0, FRACTION_ONE]`.
pub proof fn lemma_ease_monotonic(pa: int, pb: int)
    requires
        0 <= pa <= pb <= FRACTION_ONE,
    ensures
        ease_in_out_cubic(pa) <= ease_in_out_cubic(pb),
{
    let one = FRACTION_ONE as int;
    lemma_ease_bounds(pa);
    lemma_ease_bounds(pb);
    if 2 * pb < one {
        assert(4 * pa * pa * pa <= 4 * pb * pb * pb) by (nonlinear_arith)
            requires
                0 <= pa <= pb,
        ;
        lemma_div_monotonic(4 * pa * pa * pa, 4 * pb * pb * pb, one * one);
    } else if 2 * pa >= one {
        let q1 = one - pa;
        let q2 = one - pb;
        assert(4 * q2 * q2 * q2 <= 4 * q1 * q1 * q1) by (nonlinear_arith)
            requires
                0 <= q2 <= q1,
        ;
        lemma_div_monotonic(4 * q2 * q2 * q2, 4 * q1 * q1 * q1, one * one);
    }
}

/// A cubic (easeInOutCubic) interpolation from `from` to `to`.
#[derive(Debug, Clone, Copy, PartialEq, Eq, Structural)]
pub struct Cubic();

impl<T: Interpolatable> InterpolationFunction<T> for Cubic {
    open spec fn spec_endpoint() -> Endpoint {
        Endpoint::TO
    }

    open spec fn spec_interpolate(p: int, from: T, to: T) -> T {
        T::spec_lerp(from, to, ease_in_out_cubic(p))
    }

    fn endpoint() -> (e: Endpoint) {
        Endpoint::TO
    }

    fn interpolate(p: u64, from: T, to: T) -> (r: T) {
        proof {
            lemma_ease_bounds(p as int);
        }
        let one = FRACTION_ONE;
        assert(one * one == 1099511627776);
        let eased = if 2 * p < one {
            assert(4 * p <= 4 * 1048576 && 4 * p * p <= 4 * 1048576 * 1048576 && 4 * p * p * p <= 4
                * 1048576 * 1048576 * 1048576) by (nonlinear_arith)
                requires
                    p <= 1048576,
            ;
            4 * p * p * p / (one * one)
        } else {
            let q = one - p;
            assert(4 * q <= 4 * 1048576 && 4 * q * q <= 4 * 1048576 * 1048576 && 4 * q * q * q <= 4
                * 1048576 * 1048576 * 1048576) by (nonlinear_arith)
                requires
                    q <= 1048576,
            ;
            one - 4 * q * q * q / (one * one)
        };
        T::lerp(from, to, eased)
    }
}

} // verus!
