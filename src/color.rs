//! RGBA colors.

use vstd::prelude::*;
use crate::interpolator::{FRACTION_ONE, Interpolatable, lerp_int, lerp_u8, lemma_lerp_int_bounds};

verus! {

/// A color, consisting of an `r`, `g`, `b`, and `a` component
#[derive(Debug, Clone, Copy, PartialEq, Eq)]
pub struct Color(pub [u8; 4]);

/// The alpha of `s` composited over a base with alpha `b`.
pub open spec fn over_alpha(s: int, b: int) -> int {
    s + b * (255 - s) / 255
}

/// One color channel of `sc` (alpha `sa`) composited over `bc` (alpha `ba`):
/// the mean of the two weighted by `sa` and by `ba (1 - sa)`, rounded down.
pub open spec fn over_channel(sc: int, sa: int, bc: int, ba: int) -> int {
    (255 * sa * sc + ba * (255 - sa) * bc) / (255 * sa + ba * (255 - sa))
}

/// A mean weighted by `w1` and `w2`, rounded down, lies between its two values.
pub proof fn lemma_weighted_mean_between(x: int, y: int, w1: int, w2: int)
    requires
        0 <= w1,
        0 <= w2,
        w1 + w2 > 0,
    ensures
        x <= y ==> x <= (w1 * x + w2 * y) / (w1 + w2) <= y,
        y < x ==> y <= (w1 * x + w2 * y) / (w1 + w2) <= x,
{
    let d = w1 + w2;
    let n = w1 * x + w2 * y;
    if x <= y {
        assert(x * d <= n <= y * d) by (nonlinear_arith)
            requires
                d == w1 + w2,
                n == w1 * x + w2 * y,
                x <= y,
                0 <= w1,
                0 <= w2,
        ;
    } else {
        assert(y * d <= n <= x * d) by (nonlinear_arith)
            requires
                d == w1 + w2,
                n == w1 * x + w2 * y,
                y < x,
                0 <= w1,
                0 <= w2,
        ;
    }
    assert((x * d) / d == x && (y * d) / d == y) by (nonlinear_arith)
        requires
            d > 0,
    ;
    assert(x * d <= n ==> (x * d) / d <= n / d) by (nonlinear_arith)
        requires
            d > 0,
    ;
    assert(y * d <= n ==> (y * d) / d <= n / d) by (nonlinear_arith)
        requires
            d > 0,
    ;
    assert(n <= y * d ==> n / d <= (y * d) / d) by (nonlinear_arith)
        requires
            d > 0,
    ;
    assert(n <= x * d ==> n / d <= (x * d) / d) by (nonlinear_arith)
        requires
            d > 0,
    ;
}

impl Color {
    /// The color `self` mixed over `base`: transparent black where the
    /// composited alpha is `0`, otherwise each channel is the alpha-weighted
    /// mean of the two colors' channels.
    pub open spec fn spec_over(self, base: Color) -> Color {
        let sa = self.0[3] as int;
        let ba = base.0[3] as int;
        let a = over_alpha(sa, ba);
        if a == 0 {
            Color([0u8, 0u8, 0u8, 0u8])
        } else {
            Color(
                [
                    over_channel(self.0[0] as int, sa, base.0[0] as int, ba) as u8,
                    over_channel(self.0[1] as int, sa, base.0[1] as int, ba) as u8,
                    over_channel(self.0[2] as int, sa, base.0[2] as int, ba) as u8,
                    a as u8,
                ],
            )
        }
    }

    /// Mixes this color over the `base`-color
    pub fn over(&self, base: &Self) -> (r: Self)
        ensures
            r == self.spec_over(*base),
            over_alpha(self.0[3] as int, base.0[3] as int) > 0 ==> forall|c: int|
                0 <= c < 3 ==> (self.0[c] <= base.0[c] ==> self.0[c] <= #[trigger] r.0[c]
                    <= base.0[c]) && (base.0[c] < self.0[c] ==> base.0[c] <= r.0[c]
                    <= self.0[c]),
    {
        let sa: u32 = self.0[3] as u32;
        let ba: u32 = base.0[3] as u32;
        assert(ba * (255 - sa) <= 255 * 255) by (nonlinear_arith)
            requires
                ba <= 255,
                sa <= 255,
        ;
        assert(ba * (255 - sa) / 255 <= 255 - sa) by (nonlinear_arith)
            requires
                ba <= 255,
                sa <= 255,
        ;
        let a = sa + (ba * (255 - sa) / 255);
        if a == 0 {
            return Color([0, 0, 0, 0]);
        }
        let w1 = 255 * sa;
        let w2 = ba * (255 - sa);
        assert(w1 + w2 > 0) by (nonlinear_arith)
            requires
                a == sa + w2 / 255,
                a > 0,
                w1 == 255 * sa,
                w2 >= 0,
        ;
        let r = mix_channel(self.0[0], base.0[0], w1, w2);
        let g = mix_channel(self.0[1], base.0[1], w1, w2);
        let b = mix_channel(self.0[2], base.0[2], w1, w2);
        let result = Color([r, g, b, a as u8]);
        assert(forall|c: int| 0 <= c < 3 ==> #[trigger] result.0[c] == over_channel(self.0[c] as int, sa as int, base.0[c] as int, ba as int));
        result
    }
}

/// A channel mixed from `x` and `y` with the weights `w1` and `w2`.
fn mix_channel(x: u8, y: u8, w1: u32, w2: u32) -> (r: u8)
    requires
        w1 <= 255 * 255,
        w2 <= 255 * 255,
        w1 + w2 > 0,
    ensures
        r == (w1 * x + w2 * y) / (w1 + w2),
        x <= y ==> x <= r <= y,
        y < x ==> y <= r <= x,
{
    proof {
        lemma_weighted_mean_between(x as int, y as int, w1 as int, w2 as int);
    }
    assert(w1 * (x as u32) <= 255 * 255 * 255 && w2 * (y as u32) <= 255 * 255 * 255)
        by (nonlinear_arith)
        requires
            w1 <= 255 * 255,
            w2 <= 255 * 255,
            x <= 255,
            y <= 255,
    ;
    ((w1 * (x as u32) + w2 * (y as u32)) / (w1 + w2)) as u8
}

impl Color {
    /// The channel-wise sum of two colors, each channel saturating at `255`.
    pub fn saturating_add(self, rhs: Color) -> (r: Color)
        ensures
            forall|i: int|
                0 <= i < 4 ==> r.0[i] as int == if self.0[i] + rhs.0[i] > 255 {
                    255
                } else {
                    self.0[i] + rhs.0[i]
                },
    {
        Color(
            [
                self.0[0].saturating_add(rhs.0[0]),
                self.0[1].saturating_add(rhs.0[1]),
                self.0[2].saturating_add(rhs.0[2]),
                self.0[3].saturating_add(rhs.0[3]),
            ],
        )
    }
}

impl Interpolatable for Color {
    open spec fn spec_lerp(from: Color, to: Color, p: int) -> Color {
        Color(
            [
                lerp_int(from.0[0] as int, to.0[0] as int, p) as u8,
                lerp_int(from.0[1] as int, to.0[1] as int, p) as u8,
                lerp_int(from.0[2] as int, to.0[2] as int, p) as u8,
                lerp_int(from.0[3] as int, to.0[3] as int, p) as u8,
            ],
        )
    }

    fn lerp(from: Color, to: Color, p: u64) -> (r: Color) {
        Color(
            [
                lerp_u8(from.0[0], to.0[0], p),
                lerp_u8(from.0[1], to.0[1], p),
                lerp_u8(from.0[2], to.0[2], p),
                lerp_u8(from.0[3], to.0[3], p),
            ],
        )
    }

    proof fn lemma_lerp_ends(from: Color, to: Color) {
        lemma_lerp_int_bounds(from.0[0] as int, to.0[0] as int, 0);
        lemma_lerp_int_bounds(from.0[1] as int, to.0[1] as int, 0);
        lemma_lerp_int_bounds(from.0[2] as int, to.0[2] as int, 0);
        lemma_lerp_int_bounds(from.0[3] as int, to.0[3] as int, 0);
        assert(Color::spec_lerp(from, to, 0).0 =~= from.0);
        assert(Color::spec_lerp(from, to, FRACTION_ONE as int).0 =~= to.0);
    }
}

} // verus!
