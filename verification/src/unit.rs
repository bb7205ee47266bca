//! Geometry and units: points, sizes, rectangles, density-independent pixels
//! and their conversion to physical pixels.
//!
//! All quantities are integers. Scale factors (a display density, an alignment
//! bias) are fixed-point numbers counted in thousandths.

use vstd::prelude::*;

verus! {

/// A position on a two-dimensional grid.
#[derive(Clone, Copy, Debug, PartialEq, Eq)]
pub struct Point<T = i32> {
    pub x: T,
    pub y: T,
}

/// A width and a height.
#[derive(Clone, Copy, Debug, PartialEq, Eq)]
pub struct Size<T = i32> {
    pub width: T,
    pub height: T,
}

/// Four edges, or one quantity per edge.
#[derive(Clone, Copy, Debug, PartialEq, Eq)]
pub struct Rect<T = i32> {
    pub left: T,
    pub right: T,
    pub top: T,
    pub bottom: T,
}

/// The scale of thousandths in which fixed-point factors are counted.
pub const SCALE: i32 = 1000;

/// The nearest `i32` to `v`.
pub open spec fn clamp_i32(v: int) -> int {
    if v < i32::MIN {
        i32::MIN as int
    } else if v > i32::MAX {
        i32::MAX as int
    } else {
        v
    }
}

/// `n / d` rounded to the nearest integer, halves away from zero.
pub open spec fn round_div(n: int, d: int) -> int
    recommends
        d > 0,
{
    if n >= 0 {
        (2 * n + d) / (2 * d)
    } else {
        -((2 * (-n) + d) / (2 * d))
    }
}

/// Saturating conversion to `i32`.
pub fn saturate(v: i128) -> (r: i32)
    ensures
        r == clamp_i32(v as int),
{
    if v < i32::MIN as i128 {
        i32::MIN
    } else if v > i32::MAX as i128 {
        i32::MAX
    } else {
        v as i32
    }
}

/// Rounded division: computes [`round_div`].
pub fn rounded_div(n: i128, d: i128) -> (r: i128)
    requires
        0 < d <= 0x1_0000_0000,
        -0x1_0000_0000_0000_0000_0000_0000_0000 <= n <= 0x1_0000_0000_0000_0000_0000_0000_0000,
    ensures
        r == round_div(n as int, d as int),
{
    if n >= 0 {
        (2 * n + d) / (2 * d)
    } else {
        -((2 * (-n) + d) / (2 * d))
    }
}

/// Whole multiples of `n / d` lie where they should: `round_div(k * d, d) == k`.
pub proof fn lemma_round_div_exact(k: int, d: int)
    requires
        d > 0,
    ensures
        round_div(k * d, d) == k,
{
    if k >= 0 {
        assert(k * d >= 0) by (nonlinear_arith)
            requires
                k >= 0,
                d > 0,
        ;
        assert((2 * (k * d) + d) / (2 * d) == k) by (nonlinear_arith)
            requires
                d > 0,
                k >= 0,
        ;
    } else {
        assert(k * d < 0) by (nonlinear_arith)
            requires
                k < 0,
                d > 0,
        ;
        assert((2 * (-(k * d)) + d) / (2 * d) == -k) by (nonlinear_arith)
            requires
                d > 0,
                k < 0,
        ;
    }
}

/// Rounded division is bounded by its numerator when the divisor is at least 1.
pub proof fn lemma_round_div_bounds(n: int, d: int)
    requires
        d >= 1,
    ensures
        n >= 0 ==> 0 <= round_div(n, d) <= n,
        n <= 0 ==> n <= round_div(n, d) <= 0,
{
    if n >= 0 {
        assert(0 <= (2 * n + d) / (2 * d) <= n) by (nonlinear_arith)
            requires
                d >= 1,
                n >= 0,
        ;
    } else {
        let m = -n;
        assert(0 <= (2 * m + d) / (2 * d) <= m) by (nonlinear_arith)
            requires
                d >= 1,
                m >= 0,
        ;
    }
}

/// Scaling numerator and denominator alike leaves a rounded quotient alone.
pub proof fn lemma_round_div_scaled(n: int, d: int, k: int)
    requires
        d > 0,
        k > 0,
    ensures
        round_div(n * k, d * k) == round_div(n, d),
{
    if n >= 0 {
        assert(n * k >= 0) by (nonlinear_arith)
            requires
                n >= 0,
                k > 0,
        ;
        assert((2 * (n * k) + d * k) == (2 * n + d) * k) by (nonlinear_arith);
        assert(2 * (d * k) == (2 * d) * k) by (nonlinear_arith);
        vstd::arithmetic::div_mod::lemma_div_multiples_vanish_quotient(k, 2 * n + d, 2 * d);
        assert(((2 * n + d) * k) / ((2 * d) * k) == (2 * n + d) / (2 * d)) by {
            assert(k * (2 * n + d) == (2 * n + d) * k) by (nonlinear_arith);
            assert(k * (2 * d) == (2 * d) * k) by (nonlinear_arith);
        }
    } else {
        let m: int = -n;
        assert(n * k < 0) by (nonlinear_arith)
            requires
                n < 0,
                k > 0,
        ;
        assert(-(n * k) == m * k) by (nonlinear_arith)
            requires
                m == -n,
        ;
        assert((2 * (m * k) + d * k) == (2 * m + d) * k) by (nonlinear_arith);
        assert(2 * (d * k) == (2 * d) * k) by (nonlinear_arith);
        vstd::arithmetic::div_mod::lemma_div_multiples_vanish_quotient(k, 2 * m + d, 2 * d);
        assert(((2 * m + d) * k) / ((2 * d) * k) == (2 * m + d) / (2 * d)) by {
            assert(k * (2 * m + d) == (2 * m + d) * k) by (nonlinear_arith);
            assert(k * (2 * d) == (2 * d) * k) by (nonlinear_arith);
        }
    }
}

/// A rounded quotient of a product, taken apart: the whole multiples of
/// `d` in `room` go through unrounded.
pub proof fn lemma_round_div_split(room: int, factor: int, d: int)
    requires
        room >= 0,
        factor >= 0,
        d > 0,
    ensures
        round_div(room * factor, d) == (room / d) * factor + round_div((room % d) * factor, d),
        round_div(room * (-factor), d) == -round_div(room * factor, d),
{
    let q: int = room / d;
    let r: int = room % d;
    let a: int = q * factor;
    let n: int = r * factor;
    vstd::arithmetic::div_mod::lemma_fundamental_div_mod(room, d);
    assert(0 <= r < d) by {
        vstd::arithmetic::div_mod::lemma_mod_bound(room, d);
    }
    assert(q >= 0) by {
        vstd::arithmetic::div_mod::lemma_div_pos_is_pos(room, d);
    }
    assert(room * factor == a * d + n) by (nonlinear_arith)
        requires
            room == d * q + r,
            a == q * factor,
            n == r * factor,
    ;
    assert(a >= 0 && n >= 0) by (nonlinear_arith)
        requires
            a == q * factor,
            n == r * factor,
            q >= 0,
            r >= 0,
            factor >= 0,
    ;
    let inner: int = 2 * n + d;
    let dd: int = 2 * d;
    vstd::arithmetic::div_mod::lemma_fundamental_div_mod(inner, dd);
    vstd::arithmetic::div_mod::lemma_mod_bound(inner, dd);
    assert(2 * (a * d + n) + d == (a + inner / dd) * dd + inner % dd) by (nonlinear_arith)
        requires
            inner == 2 * n + d,
            dd == 2 * d,
            inner == dd * (inner / dd) + inner % dd,
    ;
    vstd::arithmetic::div_mod::lemma_fundamental_div_mod_converse(
        2 * (a * d + n) + d,
        dd,
        a + inner / dd,
        inner % dd,
    );
    assert(round_div(room * factor, d) == a + round_div(n, d));
    let product: int = room * factor;
    assert(room * (-factor) == -product) by (nonlinear_arith)
        requires
            product == room * factor,
    ;
    if product == 0 {
        lemma_round_div_exact(0, d);
        assert(0 * d == 0);
    }
}

/// A length in density-independent pixels.
#[derive(Clone, Copy, Debug, PartialEq, Eq)]
pub struct Dp(pub i32);

impl Dp {
    /// No length at all.
    pub fn zero() -> (dp: Dp)
        ensures
            dp == Dp(0),
    {
        Dp(0)
    }
}

/// How many physical pixels make up a [`Dp`], in thousandths: `Density(1000)`
/// maps one dp to one pixel, `Density(1500)` to one and a half.
#[derive(Clone, Copy, Debug, PartialEq, Eq)]
pub struct Density(pub u32);

impl Density {
    /// The pixel length of `dp`, rounded to the nearest pixel (halves away
    /// from zero) and saturated to `i32`.
    pub open spec fn spec_round_to_pixels(self, dp: Dp) -> int {
        clamp_i32(round_div(dp.0 * self.0, SCALE as int))
    }

    /// The dp length of `pixels` physical pixels, rounded to the nearest dp
    /// and saturated to `i32`.
    pub open spec fn spec_dp(self, pixels: int) -> int
        recommends
            self.0 > 0,
    {
        clamp_i32(round_div(pixels * SCALE, self.0 as int))
    }

    /// The exact pixel length of `dp`, in thousandths of a pixel.
    pub fn pixels(&self, dp: Dp) -> (thousandths: i64)
        ensures
            thousandths == dp.0 * self.0,
    {
        proof {
            assert(-0x8000_0000 * 0xFFFF_FFFF <= (dp.0 as int) * (self.0 as int) <= 0x7FFF_FFFF
                * 0xFFFF_FFFF) by (nonlinear_arith)
                requires
                    -0x8000_0000 <= dp.0 <= 0x7FFF_FFFF,
                    0 <= self.0 <= 0xFFFF_FFFF,
            ;
        }
        (dp.0 as i64) * (self.0 as i64)
    }

    /// The pixel length of `dp`, rounded to the nearest pixel.
    pub fn round_to_pixels(&self, dp: Dp) -> (px: i32)
        ensures
            px == self.spec_round_to_pixels(dp),
    {
        proof {
            assert(-0x8000_0000 * 0x1_0000_0000 <= (dp.0 as int) * (self.0 as int) <= 0x8000_0000
                * 0x1_0000_0000) by (nonlinear_arith)
                requires
                    -0x8000_0000 <= dp.0 < 0x8000_0000,
                    0 <= self.0 < 0x1_0000_0000,
            ;
        }
        let product: i128 = (dp.0 as i128) * (self.0 as i128);
        saturate(rounded_div(product, SCALE as i128))
    }

    /// Converts a pixel length back to density-independent pixels.
    pub fn dp<P: IntoDp>(&self, pixels: P) -> (dp: Dp)
        requires
            self.0 > 0,
        ensures
            dp.0 == self.spec_dp(pixels.spec_dp().0 as int),
    {
        let px: Dp = pixels.dp();
        let scaled: i128 = (px.0 as i128) * 1000;
        Dp(saturate(rounded_div(scaled, self.0 as i128)))
    }
}

/// Values that can be read as a length in density-independent pixels.
pub trait IntoDp {
    spec fn spec_dp(self) -> Dp;

    fn dp(self) -> (dp: Dp)
        ensures
            dp == self.spec_dp(),
    ;
}

impl IntoDp for i32 {
    open spec fn spec_dp(self) -> Dp {
        Dp(self)
    }

    fn dp(self) -> (dp: Dp) {
        Dp(self)
    }
}

impl IntoDp for Dp {
    open spec fn spec_dp(self) -> Dp {
        self
    }

    fn dp(self) -> (dp: Dp) {
        self
    }
}

} // verus!
