//! Saturating fixed-point scalar arithmetic with 16 fractional bits.
//!
//! A value `x: i64` stands for the real number `x / SCALE`.  Every operation
//! rounds toward zero and saturates at `±i64::MAX`, so all operations are
//! total: the renderer never panics and never overflows.

use vstd::prelude::*;
use vstd::arithmetic::div_mod::*;

verus! {

/// Number of fixed-point steps per unit: a value `x` stands for `x / SCALE`.
pub const SCALE: i64 = 65536;

/// The fixed-point representation of one.
pub const ONE: i64 = 65536;

/// The fixed-point representation of one half.
pub const HALF: i64 = 32768;

/// Largest magnitude a fixed-point value can take; results saturate here.
pub const MAX_FP: i64 = 0x7fff_ffff_ffff_ffff;

/// Saturation: clamp a mathematical integer into the representable range.
pub open spec fn sat(x: int) -> int {
    if x > MAX_FP as int {
        MAX_FP as int
    } else if x < -(MAX_FP as int) {
        -(MAX_FP as int)
    } else {
        x
    }
}

/// Division rounding toward zero (the rounding of the executable code),
/// for a positive divisor.
pub open spec fn tdiv(a: int, b: int) -> int {
    if a >= 0 {
        a / b
    } else {
        -((-a) / b)
    }
}

/// Fixed-point addition.
pub open spec fn fp_add_spec(a: int, b: int) -> int {
    sat(a + b)
}

/// Fixed-point subtraction.
pub open spec fn fp_sub_spec(a: int, b: int) -> int {
    sat(a - b)
}

/// Fixed-point negation.
pub open spec fn fp_neg_spec(a: int) -> int {
    sat(-a)
}

/// Fixed-point multiplication: `(a * b) / SCALE`, rounded toward zero.
pub open spec fn fp_mul_spec(a: int, b: int) -> int {
    sat(tdiv(a * b, SCALE as int))
}

/// Fixed-point division: `(a * SCALE) / b`, rounded toward zero.
pub open spec fn fp_div_spec(a: int, b: int) -> int {
    sat(tdiv(a * (SCALE as int), b))
}

/// The smaller of two values.
pub open spec fn fp_min_spec(a: int, b: int) -> int {
    if a < b {
        a
    } else {
        b
    }
}

/// Integer square root, rounded down.
pub open spec fn sqrt_floor(x: int) -> int
    decreases x,
{
    if x < 1 {
        0
    } else if (sqrt_floor(x - 1) + 1) * (sqrt_floor(x - 1) + 1) <= x {
        sqrt_floor(x - 1) + 1
    } else {
        sqrt_floor(x - 1)
    }
}

/// Fixed-point square root of a nonnegative value: `sqrt(a * SCALE)` in
/// integer steps, which keeps the 16-bit fractional scale.
pub open spec fn fp_sqrt_spec(a: int) -> int {
    sqrt_floor(a * (SCALE as int))
}

/// `sqrt_floor` is characterised by the two-sided squaring bound.
pub proof fn lemma_sqrt_floor_bounds(x: int)
    requires
        x >= 0,
    ensures
        sqrt_floor(x) >= 0,
        sqrt_floor(x) * sqrt_floor(x) <= x,
        x < (sqrt_floor(x) + 1) * (sqrt_floor(x) + 1),
    decreases x,
{
    if x == 0 {
        assert(sqrt_floor(0) == 0);
    } else {
        lemma_sqrt_floor_bounds(x - 1);
        let r = sqrt_floor(x - 1);
        if (r + 1) * (r + 1) <= x {
            assert(sqrt_floor(x) == r + 1);
            assert((r + 2) * (r + 2) > x) by (nonlinear_arith)
                requires
                    r >= 0,
                    x - 1 < (r + 1) * (r + 1),
            ;
        } else {
            assert(sqrt_floor(x) == r);
        }
    }
}

/// Any nonnegative integer satisfying the squaring bound is the floor square
/// root.
pub proof fn lemma_sqrt_floor_unique(x: int, r: int)
    requires
        x >= 0,
        r >= 0,
        r * r <= x,
        x < (r + 1) * (r + 1),
    ensures
        r == sqrt_floor(x),
{
    lemma_sqrt_floor_bounds(x);
    let s = sqrt_floor(x);
    if r < s {
        assert((r + 1) * (r + 1) <= s * s) by (nonlinear_arith)
            requires
                0 <= r,
                r < s,
        ;
    }
    if s < r {
        assert((s + 1) * (s + 1) <= r * r) by (nonlinear_arith)
            requires
                0 <= s,
                s < r,
        ;
    }
}

/// One is the multiplicative identity, up to saturation.
pub proof fn lemma_fp_mul_by_one(x: int)
    ensures
        fp_mul_spec(ONE as int, x) == sat(x),
        fp_mul_spec(x, ONE as int) == sat(x),
{
    if x >= 0 {
        lemma_div_multiples_vanish(x, SCALE as int);
        assert((ONE as int) * x == (SCALE as int) * x);
        assert(x * (ONE as int) == (SCALE as int) * x) by (nonlinear_arith);
    } else {
        lemma_div_multiples_vanish(-x, SCALE as int);
        assert(-((ONE as int) * x) == (SCALE as int) * (-x)) by (nonlinear_arith);
        assert(-(x * (ONE as int)) == (SCALE as int) * (-x)) by (nonlinear_arith);
    }
}

/// Multiplying by minus one negates, up to saturation.
pub proof fn lemma_fp_mul_by_minus_one(x: int)
    ensures
        fp_mul_spec(-(ONE as int), x) == sat(-x),
{
    if x >= 0 {
        lemma_div_multiples_vanish(x, SCALE as int);
        assert(-((-(ONE as int)) * x) == (SCALE as int) * x) by (nonlinear_arith);
    } else {
        lemma_div_multiples_vanish(-x, SCALE as int);
        assert((-(ONE as int)) * x == (SCALE as int) * (-x)) by (nonlinear_arith);
    }
}

/// Dividing by one returns the value, up to saturation.
pub proof fn lemma_fp_div_by_one(x: int)
    ensures
        fp_div_spec(x, ONE as int) == sat(x),
{
    if x >= 0 {
        lemma_div_multiples_vanish(x, SCALE as int);
        assert(x * (SCALE as int) == (SCALE as int) * x) by (nonlinear_arith);
    } else {
        lemma_div_multiples_vanish(-x, SCALE as int);
        assert(-(x * (SCALE as int)) == (SCALE as int) * (-x)) by (nonlinear_arith);
    }
}

/// Truncating division by a positive divisor is monotone in the dividend.
pub proof fn lemma_tdiv_monotone(a: int, b: int, d: int)
    requires
        a <= b,
        d > 0,
    ensures
        tdiv(a, d) <= tdiv(b, d),
{
    if a >= 0 {
        lemma_div_is_ordered(a, b, d);
    } else if b < 0 {
        lemma_div_is_ordered(-b, -a, d);
    } else {
        lemma_div_pos_is_pos(-a, d);
        lemma_div_pos_is_pos(b, d);
    }
}

/// Clamp an `i128` intermediate into the saturated `i64` range.
fn clamp128(x: i128) -> (r: i64)
    ensures
        r as int == sat(x as int),
{
    if x > MAX_FP as i128 {
        MAX_FP
    } else if x < -(MAX_FP as i128) {
        -MAX_FP
    } else {
        x as i64
    }
}

/// Truncating division of an `i128` by a positive divisor.
fn tdiv128(a: i128, b: i128) -> (r: i128)
    requires
        b > 0,
        a > i128::MIN,
    ensures
        r as int == tdiv(a as int, b as int),
{
    if a >= 0 {
        let q: u128 = (a as u128) / (b as u128);
        proof {
            lemma_div_nonincreasing(a as int, b as int);
            lemma_div_pos_is_pos(a as int, b as int);
        }
        q as i128
    } else {
        let na: u128 = (-a) as u128;
        let q: u128 = na / (b as u128);
        proof {
            lemma_div_nonincreasing(na as int, b as int);
            lemma_div_pos_is_pos(na as int, b as int);
        }
        -(q as i128)
    }
}

/// Saturating fixed-point addition.
pub fn fp_add(a: i64, b: i64) -> (r: i64)
    ensures
        r as int == fp_add_spec(a as int, b as int),
{
    clamp128(a as i128 + b as i128)
}

/// Saturating fixed-point subtraction.
pub fn fp_sub(a: i64, b: i64) -> (r: i64)
    ensures
        r as int == fp_sub_spec(a as int, b as int),
{
    clamp128(a as i128 - b as i128)
}

/// Saturating fixed-point negation.
pub fn fp_neg(a: i64) -> (r: i64)
    ensures
        r as int == fp_neg_spec(a as int),
{
    clamp128(-(a as i128))
}

/// Saturating fixed-point multiplication.
pub fn fp_mul(a: i64, b: i64) -> (r: i64)
    ensures
        r as int == fp_mul_spec(a as int, b as int),
{
    proof {
        assert((a as int) * (b as int) > i128::MIN as int
            && (a as int) * (b as int) <= i128::MAX as int) by (nonlinear_arith);
    }
    let p: i128 = (a as i128) * (b as i128);
    let q: i128 = tdiv128(p, SCALE as i128);
    clamp128(q)
}

/// Saturating fixed-point division by a positive divisor.
pub fn fp_div(a: i64, b: i64) -> (r: i64)
    requires
        b > 0,
    ensures
        r as int == fp_div_spec(a as int, b as int),
{
    let p: i128 = (a as i128) * (SCALE as i128);
    proof {
        assert((a as int) * (SCALE as int) > i128::MIN as int) by (nonlinear_arith);
    }
    let q: i128 = tdiv128(p, b as i128);
    clamp128(q)
}

/// Division of a fixed-point value by a positive integer count (not a
/// fixed-point factor), used to average accumulated samples.
pub fn fp_div_count(a: i64, n: i64) -> (r: i64)
    requires
        n > 0,
    ensures
        r as int == sat(tdiv(a as int, n as int)),
{
    let q: i128 = tdiv128(a as i128, n as i128);
    proof {
        if a >= 0 {
            lemma_div_nonincreasing(a as int, n as int);
            lemma_div_pos_is_pos(a as int, n as int);
        } else {
            lemma_div_nonincreasing(-(a as int), n as int);
            lemma_div_pos_is_pos(-(a as int), n as int);
        }
    }
    clamp128(q)
}

/// Integer square root by bisection.
fn isqrt_u128(x: u128) -> (r: u128)
    ensures
        r as int == sqrt_floor(x as int),
{
    let mut lo: u128 = 0;
    let mut hi: u128 = 0x1_0000_0000_0000_0000;
    proof {
        assert((hi as int) * (hi as int) > x as int) by (nonlinear_arith)
            requires
                hi == 0x1_0000_0000_0000_0000u128,
                x <= u128::MAX,
        ;
    }
    while lo + 1 < hi
        invariant
            lo < hi,
            hi <= 0x1_0000_0000_0000_0000,
            (lo as int) * (lo as int) <= x as int,
            (hi as int) * (hi as int) > x as int,
        decreases hi - lo,
    {
        let mid: u128 = lo + (hi - lo) / 2;
        proof {
            assert((mid as int) * (mid as int) < u128::MAX as int) by (nonlinear_arith)
                requires
                    mid < 0x1_0000_0000_0000_0000u128,
            ;
        }
        if mid * mid <= x {
            lo = mid;
        } else {
            hi = mid;
        }
    }
    proof {
        lemma_sqrt_floor_unique(x as int, lo as int);
    }
    lo
}

/// Saturating fixed-point square root of a nonnegative value.
pub fn fp_sqrt(a: i64) -> (r: i64)
    requires
        a >= 0,
    ensures
        r as int == fp_sqrt_spec(a as int),
        r >= 0,
{
    proof {
        assert((a as u128 as int) * (SCALE as u128 as int) <= u128::MAX as int)
            by (nonlinear_arith)
            requires
                0 <= a as u128 as int <= i64::MAX as int,
        ;
    }
    let x: u128 = (a as u128) * (SCALE as u128);
    proof {
        assert(x as int == (a as int) * (SCALE as int)) by (nonlinear_arith)
            requires
                a >= 0,
                x as int == (a as u128 as int) * (SCALE as u128 as int),
        ;
    }
    let r: u128 = isqrt_u128(x);
    proof {
        lemma_sqrt_floor_bounds(x as int);
        assert(x as int <= (i64::MAX as int) * (SCALE as int)) by (nonlinear_arith)
            requires
                x as int == (a as int) * (SCALE as int),
                0 <= a as int <= i64::MAX as int,
        ;
        assert(r as int <= i64::MAX as int) by (nonlinear_arith)
            requires
                r as int >= 0,
                (r as int) * (r as int) <= x as int,
                x as int <= (i64::MAX as int) * (SCALE as int),
        ;
    }
    r as i64
}

} // verus!
