//! Integer square root and small division facts shared by the liquidity and
//! fee computations.
//!
//! Every square root in the engine is the floor of the true root: initial
//! liquidity issuance anchors the liquidity-token unit to the geometric mean
//! of the first deposit, and protocol-fee skimming measures reserve growth
//! between checkpoints by comparing roots. Over- or under-estimating a root
//! by one would change fee amounts, so exactness matters.

use vstd::prelude::*;
use vstd::arithmetic::div_mod::{
    lemma_fundamental_div_mod, lemma_mod_division_less_than_divisor, lemma_multiply_divide_le,
    lemma_multiply_divide_lt,
};
use vstd::arithmetic::mul::lemma_mul_inequality;

verus! {

/// `r` is the square root of `x`, rounded down to an integer.
pub open spec fn is_isqrt(x: int, r: int) -> bool {
    0 <= r && r * r <= x && x < (r + 1) * (r + 1)
}

/// The square root of `x`, rounded down to an integer.
pub open spec fn isqrt(x: int) -> int {
    choose|r: int| #[trigger] is_isqrt(x, r)
}

proof fn lemma_isqrt_exists(x: int)
    requires
        0 <= x,
    ensures
        exists|r: int| #[trigger] is_isqrt(x, r),
    decreases x,
{
    if x == 0 {
        assert(is_isqrt(0, 0));
    } else {
        lemma_isqrt_exists(x - 1);
        let r = choose|r: int| #[trigger] is_isqrt(x - 1, r);
        if x < (r + 1) * (r + 1) {
            assert(is_isqrt(x, r));
        } else {
            assert(x == (r + 1) * (r + 1));
            assert((r + 1) * (r + 1) < (r + 2) * (r + 2)) by (nonlinear_arith)
                requires 0 <= r;
            assert(is_isqrt(x, r + 1));
        }
    }
}

/// The rounded-down square root of `x` satisfies its defining inequalities.
pub proof fn lemma_isqrt_is_isqrt(x: int)
    requires
        0 <= x,
    ensures
        is_isqrt(x, isqrt(x)),
{
    lemma_isqrt_exists(x);
}

/// Only one integer satisfies the defining inequalities of the rounded-down
/// square root.
pub proof fn lemma_isqrt_unique(x: int, r: int)
    requires
        is_isqrt(x, r),
    ensures
        isqrt(x) == r,
{
    assert(0 <= x) by (nonlinear_arith)
        requires 0 <= r && r * r <= x;
    lemma_isqrt_is_isqrt(x);
    let s = isqrt(x);
    assert(r == s) by (nonlinear_arith)
        requires is_isqrt(x, r) && is_isqrt(x, s);
}

/// A value below a square `b * b` has its rounded-down root below `b`.
pub proof fn lemma_isqrt_below_square(x: int, b: int)
    requires
        0 <= x,
        0 <= b,
        x < b * b,
    ensures
        isqrt(x) < b,
{
    lemma_isqrt_is_isqrt(x);
    assert(isqrt(x) < b) by (nonlinear_arith)
        requires x < b * b && 0 <= b && is_isqrt(x, isqrt(x));
}

/// Relies on `fixed::types::U128F0::sqrt`: with zero fractional bits the
/// delta between representable values is one, and the documentation states
/// the result is rounded down with error below that delta, so the result `r`
/// satisfies `r <= sqrt(x) < r + 1`, that is, `r * r <= x < (r + 1) * (r + 1)`.
/// Conversions to and from `u128` are lossless for this type, and its square
/// root cannot overflow.
#[verifier::external_body]
fn isqrt_u128_raw(x: u128) -> (r: u128)
    ensures
        is_isqrt(x as int, r as int),
{
    fixed::types::U128F0::from_num(x).sqrt().to_num::<u128>()
}

/// The square root of `x`, rounded down to an integer.
pub fn isqrt_u128(x: u128) -> (r: u128)
    ensures
        r as int == isqrt(x as int),
{
    let r = isqrt_u128_raw(x);
    proof {
        lemma_isqrt_unique(x as int, r as int);
    }
    r
}

/// Rounded-down division sits within one divisor of the dividend:
/// `d * (x / d) <= x < d * (x / d + 1)`.
pub proof fn lemma_div_bounds(x: int, d: int)
    requires
        0 <= x,
        0 < d,
    ensures
        d * (x / d) <= x,
        x < d * (x / d + 1),
        0 <= x / d,
{
    lemma_fundamental_div_mod(x, d);
    lemma_mod_division_less_than_divisor(x, d);
    assert(d * (x / d + 1) == d * (x / d) + d) by (nonlinear_arith);
    assert(0 <= x / d) by (nonlinear_arith)
        requires 0 <= x && 0 < d && x == d * (x / d) + x % d && 0 <= x % d < d;
}

/// If `a * d <= x` then the rounded-down quotient `x / d` is at least `a`.
pub proof fn lemma_div_at_least(x: int, d: int, a: int)
    requires
        0 <= x,
        0 < d,
        a * d <= x,
    ensures
        a <= x / d,
{
    lemma_div_bounds(x, d);
    if x / d < a {
        assert((x / d + 1) * d <= a * d) by {
            lemma_mul_inequality(x / d + 1, a, d);
        }
        assert(d * (x / d + 1) == (x / d + 1) * d) by (nonlinear_arith);
    }
}

/// If `x < b * d` then the rounded-down quotient `x / d` is below `b`.
pub proof fn lemma_div_below(x: int, d: int, b: int)
    requires
        0 <= x,
        0 < d,
        x < b * d,
    ensures
        x / d < b,
{
    assert(x < d * b) by (nonlinear_arith)
        requires x < b * d;
    lemma_multiply_divide_lt(x, d, b);
}

/// If `x <= b * d` then the rounded-down quotient `x / d` is at most `b`.
pub proof fn lemma_div_at_most(x: int, d: int, b: int)
    requires
        0 <= x,
        0 < d,
        x <= b * d,
    ensures
        x / d <= b,
{
    assert(x <= d * b) by (nonlinear_arith)
        requires x <= b * d;
    lemma_multiply_divide_le(x, d, b);
}

/// The product of two 64-bit values stays within 128 bits.
pub proof fn lemma_u64_mul_fits(a: u64, b: u64)
    ensures
        a as int * b as int <= u64::MAX as int * u64::MAX as int,
        a as int * b as int <= u128::MAX as int,
{
    assert(a as int * b as int <= u64::MAX as int * u64::MAX as int) by (nonlinear_arith)
        requires 0 <= a as int <= u64::MAX as int && 0 <= b as int <= u64::MAX as int;
}

} // verus!
