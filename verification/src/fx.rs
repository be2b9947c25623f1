//! Fixed-point scalar arithmetic.
//!
//! Every physical quantity in this crate is a signed fixed-point number:
//! an integer that stands for `raw / FX_ONE` in world units. All operations
//! are exact integer arithmetic (truncating division toward zero), so each
//! simulation step is a mathematical function of its inputs.

use vstd::prelude::*;

verus! {

use vstd::arithmetic::div_mod::lemma_fundamental_div_mod;
use vstd::arithmetic::div_mod::lemma_mod_division_less_than_divisor;
use vstd::arithmetic::div_mod::lemma_div_pos_is_pos;
use vstd::arithmetic::div_mod::lemma_div_nonincreasing;

/// One world unit in raw fixed-point ticks (resolution 1e-6).
pub const FX_ONE: i128 = 1_000_000;

/// Every stored coordinate and velocity component stays within this raw bound.
pub const POS_LIMIT: i128 = 1_000_000_000_000;

/// Lagrange multipliers are clamped to this raw bound before being applied.
pub const LAMBDA_LIMIT: i128 = 10_000_000_000_000_000_000;

/// Truncating (toward zero) division, the semantics of machine division,
/// defined for positive divisors.
pub open spec fn divt(a: int, b: int) -> int
    recommends
        b >= 1,
{
    if a >= 0 {
        a / b
    } else {
        -((-a) / b)
    }
}

/// Fixed-point product: `a * b` rescaled back by one factor of `FX_ONE`.
pub open spec fn mulfx(a: int, b: int) -> int {
    divt(a * b, FX_ONE as int)
}

/// Saturation of a raw value to the coordinate bound.
pub open spec fn sat(v: int) -> int {
    if v > POS_LIMIT as int {
        POS_LIMIT as int
    } else if v < -(POS_LIMIT as int) {
        -(POS_LIMIT as int)
    } else {
        v
    }
}

/// Clamp of a raw Lagrange multiplier.
pub open spec fn lclamp(v: int) -> int {
    if v > LAMBDA_LIMIT as int {
        LAMBDA_LIMIT as int
    } else if v < -(LAMBDA_LIMIT as int) {
        -(LAMBDA_LIMIT as int)
    } else {
        v
    }
}

/// Integer square root, by the classical digit-recurrence definition.
pub open spec fn sqrt_rec(n: int) -> int
    decreases n,
{
    if n <= 0 {
        0
    } else {
        let r = 2 * sqrt_rec(n / 4);
        if (r + 1) * (r + 1) <= n {
            r + 1
        } else {
            r
        }
    }
}

/// `sqrt_rec(n)` is the exact integer square root: it brackets `n`.
pub proof fn lemma_sqrt_bounds(n: int)
    ensures
        0 <= sqrt_rec(n),
        n >= 0 ==> sqrt_rec(n) * sqrt_rec(n) <= n,
        n >= 0 ==> n < (sqrt_rec(n) + 1) * (sqrt_rec(n) + 1),
    decreases n,
{
    if n <= 0 {
    } else {
        let m = n / 4;
        lemma_div_pos_is_pos(n, 4);
        lemma_div_nonincreasing(n, 4);
        lemma_fundamental_div_mod(n, 4);
        lemma_mod_division_less_than_divisor(n, 4);
        assert(m < n);
        lemma_sqrt_bounds(m);
        let r0 = sqrt_rec(m);
        assert(4 * (r0 * r0) <= 4 * m);
        assert((2 * r0) * (2 * r0) == 4 * (r0 * r0)) by (nonlinear_arith);
        assert(n < 4 * (m + 1));
        assert(4 * (m + 1) <= 4 * ((r0 + 1) * (r0 + 1)));
        assert((2 * r0 + 2) * (2 * r0 + 2) == 4 * ((r0 + 1) * (r0 + 1))) by (nonlinear_arith);
        let r = 2 * r0;
        if (r + 1) * (r + 1) <= n {
            assert(sqrt_rec(n) == r + 1);
        } else {
            assert(sqrt_rec(n) == r);
        }
    }
}

/// A bracketed value pins the integer square root down.
pub proof fn lemma_sqrt_unique(n: int, r: int)
    requires
        0 <= n,
        0 <= r,
        r * r <= n,
        n < (r + 1) * (r + 1),
    ensures
        r == sqrt_rec(n),
{
    lemma_sqrt_bounds(n);
    let s = sqrt_rec(n);
    assert(r == s) by (nonlinear_arith)
        requires
            0 <= r,
            0 <= s,
            r * r <= n,
            n < (r + 1) * (r + 1),
            s * s <= n,
            n < (s + 1) * (s + 1),
    ;
}

/// Truncating division shrinks magnitudes in proportion to the divisor.
pub proof fn lemma_divt_bound(a: int, b: int, m: int)
    requires
        b >= 1,
        0 <= m,
        -(m * b) <= a <= m * b,
    ensures
        -m <= divt(a, b) <= m,
{
    if a >= 0 {
        let q = a / b;
        lemma_div_pos_is_pos(a, b);
        lemma_fundamental_div_mod(a, b);
        lemma_mod_division_less_than_divisor(a, b);
        assert(q <= m) by (nonlinear_arith)
            requires
                b >= 1,
                a == b * q + a % b,
                0 <= a % b,
                a <= m * b,
                0 <= q,
        ;
    } else {
        let q = (-a) / b;
        lemma_div_pos_is_pos(-a, b);
        lemma_fundamental_div_mod(-a, b);
        lemma_mod_division_less_than_divisor(-a, b);
        assert(q <= m) by (nonlinear_arith)
            requires
                b >= 1,
                -a == b * q + (-a) % b,
                0 <= (-a) % b,
                -a <= m * b,
                0 <= q,
        ;
    }
}

/// Magnitude bound of a product from magnitude bounds of the factors.
pub proof fn lemma_mul_bound(a: int, b: int, ma: int, mb: int)
    requires
        -ma <= a <= ma,
        -mb <= b <= mb,
    ensures
        -(ma * mb) <= a * b <= ma * mb,
{
    assert(-(ma * mb) <= a * b <= ma * mb) by (nonlinear_arith)
        requires
            -ma <= a <= ma,
            -mb <= b <= mb,
    ;
}

/// Exact product of two raw values whose magnitudes keep it inside `i128`.
pub fn mul_i(a: i128, b: i128) -> (r: i128)
    requires
        (-10_000_000_000_000_000_000 <= a <= 10_000_000_000_000_000_000 && -10_000_000_000_000_000_000 <= b
            <= 10_000_000_000_000_000_000) || (-100_000_000_000_000_000_000_000_000_000_000 <= a
            <= 100_000_000_000_000_000_000_000_000_000_000 && -1_000_000 <= b <= 1_000_000),
    ensures
        r == a * b,
{
    proof {
        if -10_000_000_000_000_000_000 <= a <= 10_000_000_000_000_000_000 && -10_000_000_000_000_000_000 <= b
            <= 10_000_000_000_000_000_000 {
            lemma_mul_bound(a as int, b as int, 10_000_000_000_000_000_000, 10_000_000_000_000_000_000);
        } else {
            lemma_mul_bound(
                a as int,
                b as int,
                100_000_000_000_000_000_000_000_000_000_000,
                1_000_000,
            );
        }
    }
    a * b
}

/// Truncating division of raw values by a positive divisor.
pub fn div_t(a: i128, b: i128) -> (r: i128)
    requires
        b >= 1,
    ensures
        r == divt(a as int, b as int),
        a >= 0 ==> 0 <= r <= a,
        a < 0 ==> a <= r <= 0,
{
    proof {
        if a >= 0 {
            lemma_div_pos_is_pos(a as int, b as int);
            lemma_div_nonincreasing(a as int, b as int);
        } else {
            lemma_div_pos_is_pos(-(a as int), b as int);
            lemma_div_nonincreasing(-(a as int), b as int);
        }
    }
    a / b
}

/// Saturating narrowing of a raw value to a stored coordinate.
pub fn sat_i(v: i128) -> (r: i64)
    ensures
        r as int == sat(v as int),
{
    if v > POS_LIMIT {
        POS_LIMIT as i64
    } else if v < -POS_LIMIT {
        (-POS_LIMIT) as i64
    } else {
        v as i64
    }
}

/// Clamp of a raw Lagrange multiplier.
pub fn lclamp_i(v: i128) -> (r: i128)
    ensures
        r == lclamp(v as int),
{
    if v > LAMBDA_LIMIT {
        LAMBDA_LIMIT
    } else if v < -LAMBDA_LIMIT {
        -LAMBDA_LIMIT
    } else {
        v
    }
}

/// Exact integer square root of a nonnegative raw value.
pub fn isqrt_i(n: i128) -> (r: i128)
    requires
        0 <= n <= 100_000_000_000_000_000_000_000_000_000_000,
    ensures
        r == sqrt_rec(n as int),
        0 <= r <= 10_000_000_000_000_000,
        r * r <= n,
        n < (r + 1) * (r + 1),
{
    let mut lo: i128 = 0;
    let mut hi: i128 = 10_000_000_000_000_000;
    proof {
        assert((10_000_000_000_000_000int + 1) * (10_000_000_000_000_000int + 1)
            > 100_000_000_000_000_000_000_000_000_000_000int) by (nonlinear_arith);
    }
    while lo < hi
        invariant
            0 <= lo <= hi <= 10_000_000_000_000_000,
            lo * lo <= n,
            n < (hi + 1) * (hi + 1),
            n <= 100_000_000_000_000_000_000_000_000_000_000,
        decreases hi - lo,
    {
        let mid = lo + (hi - lo + 1) / 2;
        proof {
            lemma_mul_bound(mid as int, mid as int, 10_000_000_000_000_000, 10_000_000_000_000_000);
        }
        if mid * mid <= n {
            lo = mid;
        } else {
            hi = mid - 1;
        }
    }
    proof {
        lemma_sqrt_unique(n as int, lo as int);
    }
    lo
}

} // verus!
