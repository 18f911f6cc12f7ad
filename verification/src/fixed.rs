//! Fixed-point arithmetic for the escape-time evaluation.
//!
//! A coordinate on the complex plane is stored as an `i64` holding the real
//! value multiplied by `SCALE`. Multiplication of two such numbers divides
//! the raw product by `SCALE` again, truncating toward zero, which is the
//! rounding that `tdiv` captures.

use vstd::prelude::*;

verus! {

/// Number of raw units per 1.0 on the complex plane.
pub const SCALE: i64 = 65536;

/// Truncated (toward zero) division of `n` by a positive divisor `d`.
pub open spec fn tdiv(n: int, d: int) -> int {
    if n >= 0 {
        n / d
    } else {
        -((-n) / d)
    }
}

/// Product of two fixed-point numbers, rescaled by truncated division.
pub open spec fn fmul(a: int, b: int) -> int {
    tdiv(a * b, SCALE as int)
}

/// Truncated division keeps zero at zero.
pub proof fn lemma_tdiv_zero(d: int)
    requires
        d >= 1,
    ensures
        tdiv(0, d) == 0,
{
    vstd::arithmetic::div_mod::lemma_div_of0(d);
}

/// A bound on the dividend gives the matching bound on the truncated quotient.
pub proof fn lemma_tdiv_bound(n: int, d: int, bound: int)
    requires
        d >= 1,
        bound >= 0,
        -bound * d <= n <= bound * d,
    ensures
        -bound <= tdiv(n, d) <= bound,
{
    if n >= 0 {
        assert(n / d <= bound) by (nonlinear_arith)
            requires
                d >= 1,
                bound >= 0,
                n >= 0,
                n <= bound * d,
        {}
        assert(n / d >= 0) by (nonlinear_arith)
            requires
                d >= 1,
                n >= 0,
        {}
    } else {
        assert((-n) / d <= bound) by (nonlinear_arith)
            requires
                d >= 1,
                bound >= 0,
                n < 0,
                -bound * d <= n,
        {}
        assert((-n) / d >= 0) by (nonlinear_arith)
            requires
                d >= 1,
                n < 0,
        {}
    }
}

/// The square of a fixed-point number is never negative.
pub proof fn lemma_fmul_square_nonneg(a: int)
    ensures
        fmul(a, a) >= 0,
{
    assert(a * a >= 0) by (nonlinear_arith);
    assert(a * a / (SCALE as int) >= 0) by (nonlinear_arith)
        requires
            a * a >= 0,
    {}
}

/// Magnitude bounds on both factors bound the rescaled product.
pub proof fn lemma_fmul_bound(a: int, b: int, abound: int, bbound: int)
    requires
        0 <= abound,
        0 <= bbound,
        -abound <= a <= abound,
        -bbound <= b <= bbound,
    ensures
        -(abound * bbound) / (SCALE as int) <= fmul(a, b) <= (abound * bbound) / (SCALE as int),
{
    assert(-(abound * bbound) <= a * b <= abound * bbound) by (nonlinear_arith)
        requires
            0 <= abound,
            0 <= bbound,
            -abound <= a <= abound,
            -bbound <= b <= bbound,
    {}
    assert((abound * bbound) / (SCALE as int) * (SCALE as int) <= abound * bbound) by (nonlinear_arith)
        requires
            abound * bbound >= 0,
    {}
    lemma_tdiv_bound(a * b, SCALE as int, (abound * bbound) / (SCALE as int) + 1);
    if a * b >= 0 {
        assert(a * b / (SCALE as int) <= (abound * bbound) / (SCALE as int)) by (nonlinear_arith)
            requires
                a * b >= 0,
                a * b <= abound * bbound,
        {}
        assert(a * b / (SCALE as int) >= 0) by (nonlinear_arith)
            requires
                a * b >= 0,
        {}
        assert((abound * bbound) / (SCALE as int) >= 0) by (nonlinear_arith)
            requires
                abound * bbound >= 0,
        {}
    } else {
        assert((-(a * b)) / (SCALE as int) <= (abound * bbound) / (SCALE as int)) by (nonlinear_arith)
            requires
                a * b < 0,
                -(abound * bbound) <= a * b,
        {}
        assert((-(a * b)) / (SCALE as int) >= 0) by (nonlinear_arith)
            requires
                a * b < 0,
        {}
    }
}

/// Fixed-point multiplication: rescales the raw product by `SCALE`,
/// truncating toward zero.
pub fn fix_mul(a: i64, b: i64) -> (r: i64)
    requires
        -0x4000_0000 <= a <= 0x4000_0000,
        -0x4000_0000 <= b <= 0x4000_0000,
    ensures
        r == fmul(a as int, b as int),
{
    mul_div_trunc(a, b, SCALE as u64)
}

/// Computes `tdiv(a * b, d)`: the product of `a` and `b` divided by `d`,
/// truncated toward zero, via sign-and-magnitude unsigned arithmetic.
pub fn mul_div_trunc(a: i64, b: i64, d: u64) -> (r: i64)
    requires
        1 <= d,
        -0x4000_0000 <= a <= 0x4000_0000,
        -0x4000_0000 <= b <= 0x4000_0000,
    ensures
        r == tdiv(a * b, d as int),
{
    let neg: bool = (a < 0) != (b < 0);
    let ma: u64 = if a < 0 {
        (-a) as u64
    } else {
        a as u64
    };
    let mb: u64 = if b < 0 {
        (-b) as u64
    } else {
        b as u64
    };
    proof {
        assert(ma * mb <= 0x4000_0000 * 0x4000_0000) by (nonlinear_arith)
            requires
                0 <= ma <= 0x4000_0000,
                0 <= mb <= 0x4000_0000,
        {}
        if a >= 0 && b >= 0 {
            assert(ma * mb == a * b) by (nonlinear_arith)
                requires
                    ma == a,
                    mb == b,
            {}
        } else if a < 0 && b < 0 {
            assert(ma * mb == a * b) by (nonlinear_arith)
                requires
                    ma == -a,
                    mb == -b,
            {}
        } else if a < 0 {
            assert(ma * mb == -(a * b)) by (nonlinear_arith)
                requires
                    ma == -a,
                    mb == b,
            {}
        } else {
            assert(ma * mb == -(a * b)) by (nonlinear_arith)
                requires
                    ma == a,
                    mb == -b,
            {}
        }
    }
    let q: u64 = (ma * mb) / d;
    proof {
        assert(q <= ma * mb) by (nonlinear_arith)
            requires
                d >= 1,
                ma * mb >= 0,
                q == (ma * mb) / (d as int),
        {}
    }
    if neg {
        proof {
            if a * b >= 0 {
                // One factor is zero, so the magnitude product is zero too.
                assert(ma * mb == 0);
            }
        }
        -(q as i64)
    } else {
        q as i64
    }
}

} // verus!
