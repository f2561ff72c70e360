//! Fixed-point scalars: saturation, rounding division, scaling and integer
//! square roots.

use vstd::prelude::*;

verus! {

/// Number of fixed-point steps in one whole unit.
pub const UNIT: i32 = 1000;

/// Largest magnitude of a sum that [`scaled`] accepts: what `usize::MAX`
/// differences of two stored coordinates can add up to.
pub const SUM_LIMIT: i128 = 0xFFFF_FFFF_FFFF_FFFF_0000_0000;

/// Largest argument of [`isqrt`]: above every squared length of a difference of
/// two stored vectors.
pub const SQUARE_LIMIT: i128 = 0x4_0000_0000_0000_0000;

/// `v` clamped into the range of a stored scalar.
pub open spec fn saturate(v: int) -> int {
    if v < i32::MIN {
        i32::MIN as int
    } else if v > i32::MAX {
        i32::MAX as int
    } else {
        v
    }
}

/// The quotient of `a` by a positive `b`, rounded toward zero.
pub open spec fn div_toward_zero(a: int, b: int) -> int {
    if a >= 0 {
        a / b
    } else {
        -((-a) / b)
    }
}

/// The quotient of `a` by a positive `b`, rounded away from zero.
pub open spec fn div_away_from_zero(a: int, b: int) -> int {
    if a >= 0 {
        (a + b - 1) / b
    } else {
        -((-a + b - 1) / b)
    }
}

/// `a` multiplied by the fixed-point factor `factor`.
pub open spec fn scale(a: int, factor: int) -> int {
    div_toward_zero(a * factor, UNIT as int)
}

/// Whether `r` is the integer square root of `n`, rounded down.
pub open spec fn is_floor_sqrt(n: int, r: int) -> bool {
    0 <= r && r * r <= n < (r + 1) * (r + 1)
}

/// The integer square root of `n`, rounded down.
pub open spec fn floor_sqrt(n: int) -> int {
    choose|r: int| is_floor_sqrt(n, r)
}

/// The integer square root of `n`, rounded up.
pub open spec fn ceil_sqrt(n: int) -> int {
    if floor_sqrt(n) * floor_sqrt(n) == n {
        floor_sqrt(n)
    } else {
        floor_sqrt(n) + 1
    }
}

/// A product is bounded by the product of the bounds of its factors.
pub proof fn lemma_product_bound(a: int, b: int, la: int, lb: int)
    by (nonlinear_arith)
    requires
        -la <= a <= la,
        -lb <= b <= lb,
    ensures
        -(la * lb) <= a * b <= la * lb,
{
}

/// Squaring is strictly monotone on the non-negative integers.
pub proof fn lemma_square_monotone(a: int, b: int)
    by (nonlinear_arith)
    requires
        0 <= a,
        0 <= b,
    ensures
        a <= b <==> a * a <= b * b,
        a < b <==> a * a < b * b,
{
}

/// An integer has at most one floor square root.
pub proof fn lemma_floor_sqrt_unique(n: int, r: int)
    requires
        is_floor_sqrt(n, r),
    ensures
        floor_sqrt(n) == r,
{
    let c = floor_sqrt(n);
    assert(is_floor_sqrt(n, c));
    lemma_square_monotone(c, r);
    lemma_square_monotone(r, c);
    lemma_square_monotone(c + 1, r);
    lemma_square_monotone(r + 1, c);
}

/// Rounding toward zero never increases the magnitude and keeps the sign.
pub proof fn lemma_div_toward_zero_bounds(a: int, b: int)
    by (nonlinear_arith)
    requires
        b > 0,
    ensures
        a >= 0 ==> 0 <= div_toward_zero(a, b) <= a,
        a <= 0 ==> a <= div_toward_zero(a, b) <= 0,
        a >= 0 ==> div_toward_zero(a, b) * b <= a < (div_toward_zero(a, b) + 1) * b,
        a <= 0 ==> (div_toward_zero(a, b) - 1) * b < a <= div_toward_zero(a, b) * b,
{
}

/// Rounding away from zero never decreases the scaled magnitude.
pub proof fn lemma_div_away_from_zero_bounds(a: int, b: int)
    by (nonlinear_arith)
    requires
        b > 0,
    ensures
        a >= 0 ==> 0 <= div_away_from_zero(a, b) <= a,
        a <= 0 ==> a <= div_away_from_zero(a, b) <= 0,
        a >= 0 ==> (div_away_from_zero(a, b) - 1) * b < a <= div_away_from_zero(a, b) * b,
        a <= 0 ==> div_away_from_zero(a, b) * b <= a < (div_away_from_zero(a, b) + 1) * b,
{
}

/// The mean of values between `lo` and `hi` lies between `lo` and `hi`.
pub proof fn lemma_mean_bounds(sum: int, count: int, lo: int, hi: int)
    by (nonlinear_arith)
    requires
        count > 0,
        lo <= 0 <= hi,
        count * lo <= sum <= count * hi,
    ensures
        lo <= div_toward_zero(sum, count) <= hi,
{
    lemma_div_toward_zero_bounds(sum, count);
}

/// Clamps a wide value into a stored scalar.
pub fn saturate_i32(v: i128) -> (r: i32)
    ensures
        r == saturate(v as int),
{
    if v < i32::MIN as i128 {
        i32::MIN
    } else if v > i32::MAX as i128 {
        i32::MAX
    } else {
        v as i32
    }
}

/// Divides by a positive number, rounding toward zero.
pub fn quotient(a: i128, b: i128) -> (q: i128)
    requires
        b > 0,
    ensures
        q == div_toward_zero(a as int, b as int),
        a >= 0 ==> 0 <= q <= a,
        a <= 0 ==> a <= q <= 0,
{
    proof {
        lemma_div_toward_zero_bounds(a as int, b as int);
    }
    a / b
}

/// Divides by a positive number, rounding away from zero.
pub fn quotient_up(a: i128, b: i128) -> (q: i128)
    requires
        b > 0,
        -i128::MAX + b <= a <= i128::MAX - b,
    ensures
        q == div_away_from_zero(a as int, b as int),
        a >= 0 ==> 0 <= q <= a,
        a <= 0 ==> a <= q <= 0,
{
    proof {
        lemma_div_away_from_zero_bounds(a as int, b as int);
    }
    if a >= 0 {
        (a + b - 1) / b
    } else {
        -((-a + b - 1) / b)
    }
}

/// Multiplies a wide value by a fixed-point factor.
pub fn scaled(a: i128, factor: i32) -> (r: i128)
    requires
        -SUM_LIMIT <= a <= SUM_LIMIT,
    ensures
        r == scale(a as int, factor as int),
        -SUM_LIMIT * 0x8000_0000 <= r <= SUM_LIMIT * 0x8000_0000,
        -0x1_0000_0000 <= a <= 0x1_0000_0000 ==> -0x8000_0000_0000_0000 <= r
            <= 0x8000_0000_0000_0000,
{
    proof {
        lemma_product_bound(a as int, factor as int, SUM_LIMIT as int, 0x8000_0000);
        if -0x1_0000_0000 <= a <= 0x1_0000_0000 {
            lemma_product_bound(a as int, factor as int, 0x1_0000_0000, 0x8000_0000);
        }
        lemma_div_toward_zero_bounds(a * factor, UNIT as int);
    }
    quotient(a * (factor as i128), UNIT as i128)
}

/// The integer square root of `n`, rounded down.
pub fn isqrt(n: i128) -> (r: i128)
    requires
        0 <= n < SQUARE_LIMIT,
    ensures
        r == floor_sqrt(n as int),
        is_floor_sqrt(n as int, r as int),
        0 <= r < 0x2_0000_0000,
{
    let mut lo: i128 = 0;
    let mut hi: i128 = 0x2_0000_0000;
    assert(0x2_0000_0000 * 0x2_0000_0000 == SQUARE_LIMIT);
    while hi - lo > 1
        invariant
            0 <= lo < hi <= 0x2_0000_0000,
            lo * lo <= n < hi * hi,
        decreases hi - lo,
    {
        let mid = lo + (hi - lo) / 2;
        proof {
            lemma_product_bound(mid as int, mid as int, 0x2_0000_0000, 0x2_0000_0000);
        }
        if mid * mid <= n {
            lo = mid;
        } else {
            hi = mid;
        }
    }
    proof {
        lemma_floor_sqrt_unique(n as int, lo as int);
    }
    lo
}

/// The integer square root of `n`, rounded up.
pub fn isqrt_up(n: i128) -> (r: i128)
    requires
        0 <= n < SQUARE_LIMIT,
    ensures
        r == ceil_sqrt(n as int),
        0 <= r <= 0x2_0000_0000,
        (r as int) * (r as int) >= n,
        n > 0 ==> r > 0 && (r - 1) * (r - 1) < n,
{
    let f = isqrt(n);
    proof {
        lemma_product_bound(f as int, f as int, 0x2_0000_0000, 0x2_0000_0000);
        lemma_square_monotone(f as int, f + 1);
        if f >= 1 {
            lemma_square_monotone(f - 1, f as int);
        } else {
            assert(f * f == 0) by (nonlinear_arith)
                requires
                    f == 0,
            ;
        }
        assert((f + 1 - 1) * (f + 1 - 1) == f * f);
    }
    if f * f == n {
        f
    } else {
        f + 1
    }
}

} // verus!
