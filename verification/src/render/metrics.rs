//! Sub-pixel arithmetic. Positions and sizes are whole numbers of 1/64
//! pixel; sums that leave the 64-bit range stay at its nearest end.

use vstd::prelude::*;

verus! {

/// How many position units make one pixel.
pub const SUBPIXELS: i64 = 64;

/// `v` kept inside the 64-bit range.
pub open spec fn sat(v: int) -> int {
    if v < i64::MIN {
        i64::MIN as int
    } else if v > i64::MAX {
        i64::MAX as int
    } else {
        v
    }
}

/// `n / d` rounded to the nearest whole number, halves away from zero.
pub open spec fn div_round(n: int, d: int) -> int
    recommends
        d > 0,
{
    if n >= 0 {
        (2 * n + d) / (2 * d)
    } else {
        -((2 * (-n) + d) / (2 * d))
    }
}

/// The position `v` moved to the nearest whole pixel, halves away from zero.
pub open spec fn round_px(v: int) -> int {
    64 * div_round(v, 64)
}

/// The largest whole pixel that is not right of `v`.
pub open spec fn floor_px(v: int) -> int {
    if v >= 0 {
        v / 64
    } else {
        -((-v + 63) / 64)
    }
}

/// The smallest whole pixel that is not left of `v`.
pub open spec fn ceil_px(v: int) -> int {
    -floor_px(-v)
}

/// A length in font units brought to 1/64 pixel for a font whose height
/// (ascent minus descent) is `height` units and is drawn `px` units high.
/// A font without a positive height scales everything to zero.
pub open spec fn scale_units(units: int, px: int, height: int) -> int {
    if height <= 0 {
        0
    } else {
        div_round(units * px, height)
    }
}

/// Keeps a wide value inside the 64-bit range.
pub fn saturate(v: i128) -> (r: i64)
    ensures
        r == sat(v as int),
{
    if v < i64::MIN as i128 {
        i64::MIN
    } else if v > i64::MAX as i128 {
        i64::MAX
    } else {
        v as i64
    }
}

/// The saturating sum of two positions.
pub fn sat_add(a: i64, b: i64) -> (r: i64)
    ensures
        r == sat(a + b),
{
    saturate(a as i128 + b as i128)
}

/// The saturating difference of two positions.
pub fn sat_sub(a: i64, b: i64) -> (r: i64)
    ensures
        r == sat(a - b),
{
    saturate(a as i128 - b as i128)
}

/// Computes `div_round` for a positive divisor.
pub fn div_rounded(n: i128, d: i128) -> (r: i128)
    requires
        d > 0,
        -0x4000_0000_0000_0000_0000_0000 <= n <= 0x4000_0000_0000_0000_0000_0000,
        d <= 0x4000_0000_0000_0000_0000_0000,
    ensures
        r == div_round(n as int, d as int),
        n >= 0 ==> 0 <= r <= n,
        n <= 0 ==> n <= r <= 0,
{
    if n >= 0 {
        let q: i128 = (2 * n + d) / (2 * d);
        proof {
            lemma_div_round_bound(n as int, d as int);
        }
        q
    } else {
        let q: i128 = (2 * (-n) + d) / (2 * d);
        proof {
            lemma_div_round_bound(-n as int, d as int);
        }
        -q
    }
}

/// Rounding a non-negative quotient never leaves the range of the dividend.
pub proof fn lemma_div_round_bound(n: int, d: int)
    requires
        n >= 0,
        d > 0,
    ensures
        0 <= (2 * n + d) / (2 * d) <= n,
{
    assert(0 <= (2 * n + d) / (2 * d) <= n) by (nonlinear_arith)
        requires
            n >= 0,
            d > 0,
    ;
}

/// Computes `round_px`, saturating.
pub fn round_to_pixel(v: i64) -> (r: i64)
    ensures
        r == sat(round_px(v as int)),
{
    let q: i128 = div_rounded(v as i128, 64);
    saturate(64 * q)
}

/// Computes `floor_px`.
pub fn floor_to_pixel(v: i64) -> (r: i64)
    ensures
        r == floor_px(v as int),
        -0x200_0000_0000_0000 <= r <= 0x200_0000_0000_0000,
{
    if v >= 0 {
        v / 64
    } else {
        let n: i128 = -(v as i128);
        let q: i128 = (n + 63) / 64;
        (-q) as i64
    }
}

/// Computes `ceil_px`.
pub fn ceil_to_pixel(v: i64) -> (r: i64)
    ensures
        r == ceil_px(v as int),
        -0x200_0000_0000_0000 <= r <= 0x200_0000_0000_0000,
{
    if v > 0 {
        let n: i128 = v as i128;
        let q: i128 = (n + 63) / 64;
        q as i64
    } else {
        let n: i128 = -(v as i128);
        let q: i128 = n / 64;
        (-q) as i64
    }
}

/// Computes `scale_units`, saturating.
pub fn scaled(units: i32, px: u32, height: i32) -> (r: i64)
    ensures
        r == sat(scale_units(units as int, px as int, height as int)),
{
    if height <= 0 {
        return 0;
    }
    assert(-0x8000_0000 * 0x1_0000_0000 <= (units as int) * (px as int) <= 0x8000_0000
        * 0x1_0000_0000) by (nonlinear_arith)
        requires
            -0x8000_0000 <= units as int <= 0x8000_0000,
            0 <= px as int <= 0x1_0000_0000,
    ;
    let n: i128 = (units as i128) * (px as i128);
    saturate(div_rounded(n, height as i128))
}

/// A larger dividend never rounds to a smaller quotient.
pub proof fn lemma_div_round_monotone(a: int, b: int, d: int)
    requires
        0 <= a <= b,
        d > 0,
    ensures
        div_round(a, d) <= div_round(b, d),
{
    vstd::arithmetic::div_mod::lemma_div_is_ordered(2 * a + d, 2 * b + d, 2 * d);
}

/// A dividend that is larger by the divisor or more rounds to a larger
/// quotient.
pub proof fn lemma_div_round_grows(a: int, b: int, d: int)
    requires
        0 <= a,
        a + d <= b,
        d > 0,
    ensures
        div_round(a, d) < div_round(b, d),
{
    vstd::arithmetic::div_mod::lemma_div_is_ordered(2 * a + d + 2 * d, 2 * b + d, 2 * d);
    vstd::arithmetic::div_mod::lemma_div_plus_one(2 * a + d, 2 * d);
}

/// A length never gets shorter when the font gets larger.
pub proof fn lemma_scale_units_monotone(units: int, small: int, large: int, height: int)
    requires
        units >= 0,
        0 <= small <= large,
        height > 0,
    ensures
        scale_units(units, small, height) <= scale_units(units, large, height),
{
    assert(0 <= units * small <= units * large) by (nonlinear_arith)
        requires
            units >= 0,
            0 <= small <= large,
    ;
    lemma_div_round_monotone(units * small, units * large, height);
}

/// At twice the size, every length of at least one position unit is
/// longer: text of some width is wider at twice the size.
pub proof fn lemma_twice_the_size_is_longer(units: int, px: int, height: int)
    requires
        units >= 0,
        px >= 0,
        height > 0,
        units * px >= height,
    ensures
        scale_units(units, px, height) < scale_units(units, 2 * px, height),
{
    assert(units * (2 * px) == 2 * (units * px)) by (nonlinear_arith);
    lemma_div_round_grows(units * px, units * (2 * px), height);
}

} // verus!
