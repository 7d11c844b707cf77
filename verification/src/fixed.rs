//! Fixed-point scalar arithmetic.
//!
//! A scalar is an `i128` holding a real value scaled by `FX_ONE` (2^16).
//! Multiplication and division truncate toward zero; square roots truncate
//! downward.  Every operation has an exact integer specification, so
//! geometry built on these scalars can be described precisely in contracts.

use vstd::arithmetic::div_mod::lemma_fundamental_div_mod;
use vstd::arithmetic::div_mod::lemma_fundamental_div_mod_converse;
use vstd::arithmetic::mul::lemma_mul_is_commutative;
use vstd::arithmetic::mul::lemma_mul_is_distributive_sub_other_way;
use vstd::arithmetic::mul::lemma_mul_cancels_negatives;
use vstd::arithmetic::mul::lemma_mul_inequality;
use vstd::arithmetic::mul::lemma_mul_nonnegative;
use vstd::arithmetic::mul::lemma_mul_unary_negation;
use vstd::arithmetic::mul::lemma_mul_upper_bound;
use vstd::prelude::*;

verus! {

/// A fixed-point scalar: the real value times `FX_ONE`.
pub type Fx = i128;

/// The scaling factor: 2^16.
pub const FX_ONE: i128 = 65536;

/// Half, in fixed-point form.
pub const FX_HALF: i128 = 32768;

/// Operand magnitude limit for multiplication (2^55): products of two
/// operands below this limit stay far inside the 128-bit range.
pub const FX_MUL_LIM: i128 = 36028797018963968;

/// Operand magnitude limit for division and square roots (2^100).
pub const FX_DIV_LIM: i128 = 1267650600228229401496703205376;

/// `FX_DIV_LIM * FX_ONE` (2^116).
pub const FX_DIV_LIM_SCALED: i128 = 83076749736557242056487941267521536;

/// Largest magnitude a fixed-point product of in-range operands can
/// reach (2^94).
pub const FX_MUL_RES_LIM: i128 = 19807040628566084398385987584;

/// 2^110, the bound on the raw product of two multiplication operands.
const FX_MUL_PROD_LIM: i128 = 1298074214633706907132624082305024;

/// Largest fixed-point length a bounded vector can reach (2^56).
pub const FX_LEN_LIM: i128 = 72057594037927936;

/// 2^63, the starting upper bound of the square-root search.
const SQRT_HI: u128 = 9223372036854775808;

/// 2^126, the square of `SQRT_HI`.
const SQRT_HI_SQUARED: u128 = 85070591730234615865843651857942052864;

/// Magnitude of a mathematical integer.
pub open spec fn abs_i(x: int) -> int {
    if x >= 0 {
        x
    } else {
        -x
    }
}

/// Quotient of `n / d` truncated toward zero (`d != 0`).
pub open spec fn tdivq(n: int, d: int) -> int {
    if (n >= 0) == (d > 0) {
        abs_i(n) / abs_i(d)
    } else {
        -(abs_i(n) / abs_i(d))
    }
}

/// The fixed-point product: `a * b / FX_ONE`, truncated toward zero.
pub open spec fn fx_mul_s(a: int, b: int) -> int {
    tdivq(a * b, FX_ONE as int)
}

/// The fixed-point quotient: `a * FX_ONE / b`, truncated toward zero.
pub open spec fn fx_div_s(a: int, b: int) -> int {
    tdivq(a * FX_ONE, b)
}

/// `r` is the square root of `n`, truncated downward.
pub open spec fn is_isqrt(n: int, r: int) -> bool {
    r >= 0 && r * r <= n && n < (r + 1) * (r + 1)
}

/// The fixed-point square root of `x`: the greatest `r >= 0` with
/// `r * r <= x * FX_ONE`.
pub open spec fn fx_sqrt_s(x: int) -> int {
    choose|r: int| #[trigger] is_isqrt(x * FX_ONE, r)
}

/// The magnitude of a product is the product of the magnitudes.
pub proof fn lemma_abs_mul(a: int, b: int)
    ensures
        abs_i(a * b) == abs_i(a) * abs_i(b),
{
    if a >= 0 && b >= 0 {
        lemma_mul_nonnegative(a, b);
    } else if a < 0 && b >= 0 {
        lemma_mul_nonnegative(-a, b);
        lemma_mul_unary_negation(a, b);
    } else if a >= 0 && b < 0 {
        lemma_mul_nonnegative(a, -b);
        lemma_mul_is_commutative(a, b);
        lemma_mul_is_commutative(-b, a);
        lemma_mul_unary_negation(b, a);
    } else {
        lemma_mul_cancels_negatives(a, b);
        lemma_mul_nonnegative(-a, -b);
    }
}

/// A nonnegative quotient is bounded by its numerator's bound.
proof fn lemma_div_bound(n: int, lim: int, d: int)
    requires
        0 <= n < lim,
        0 < d,
    ensures
        0 <= n / d <= lim / d,
        n / d <= n,
        (n / d) * d <= n,
    decreases 0int,
{
    vstd::arithmetic::div_mod::lemma_div_is_ordered(n, lim, d);
    vstd::arithmetic::div_mod::lemma_div_nonincreasing(n, d);
    vstd::arithmetic::div_mod::lemma_div_pos_is_pos(n, d);
    lemma_fundamental_div_mod(n, d);
    lemma_mul_is_commutative(n / d, d);
}

/// The magnitude of a truncated quotient by a positive divisor.
pub proof fn lemma_tdivq_abs(n: int, d: int)
    requires
        0 < d,
    ensures
        abs_i(tdivq(n, d)) == abs_i(n) / d,
        tdivq(n, d) == if n >= 0 { n / d } else { -((-n) / d) },
{
    if n >= 0 {
        vstd::arithmetic::div_mod::lemma_div_pos_is_pos(n, d);
    } else {
        vstd::arithmetic::div_mod::lemma_div_pos_is_pos(-n, d);
    }
}

/// A fixed-point product of bounded factors is bounded.
pub proof fn lemma_fx_mul_s_bound(a: int, b: int, bound_a: int, bound_b: int)
    requires
        abs_i(a) <= bound_a,
        abs_i(b) <= bound_b,
    ensures
        abs_i(fx_mul_s(a, b)) <= bound_a * bound_b / (FX_ONE as int),
        abs_i(fx_mul_s(a, b)) * FX_ONE <= bound_a * bound_b,
{
    lemma_abs_mul(a, b);
    lemma_mul_upper_bound(abs_i(a), bound_a, abs_i(b), bound_b);
    lemma_tdivq_abs(a * b, FX_ONE as int);
    vstd::arithmetic::div_mod::lemma_div_is_ordered(abs_i(a * b), bound_a * bound_b, FX_ONE as int);
    lemma_fundamental_div_mod(abs_i(a * b), FX_ONE as int);
    lemma_mul_is_commutative(abs_i(a * b) / (FX_ONE as int), FX_ONE as int);
    lemma_mul_inequality(
        abs_i(fx_mul_s(a, b)),
        abs_i(a * b) / (FX_ONE as int),
        FX_ONE as int,
    );
}

/// A square never goes below zero, also in fixed-point form.
pub proof fn lemma_fx_square_nonneg(x: int)
    ensures
        fx_mul_s(x, x) >= 0,
        x * x >= 0,
{
    if x >= 0 {
        lemma_mul_nonnegative(x, x);
    } else {
        lemma_mul_cancels_negatives(x, x);
        lemma_mul_nonnegative(-x, -x);
    }
    lemma_tdivq_abs(x * x, FX_ONE as int);
    vstd::arithmetic::div_mod::lemma_div_pos_is_pos(x * x, FX_ONE as int);
}

/// A fixed-point quotient with a bounded numerator is bounded.
pub proof fn lemma_fx_div_s_bound(a: int, b: int, bound_a: int)
    requires
        abs_i(a) <= bound_a,
        b != 0,
    ensures
        abs_i(fx_div_s(a, b)) <= bound_a * FX_ONE,
{
    lemma_abs_mul(a, FX_ONE as int);
    lemma_mul_upper_bound(abs_i(a), bound_a, FX_ONE as int, FX_ONE as int);
    lemma_tdivq_abs(a * FX_ONE, abs_i(b));
    vstd::arithmetic::div_mod::lemma_div_pos_is_pos(abs_i(a * FX_ONE), abs_i(b));
    assert(tdivq(a * FX_ONE, b) == tdivq(a * FX_ONE, abs_i(b))
        || tdivq(a * FX_ONE, b) == -tdivq(a * FX_ONE, abs_i(b)));
    vstd::arithmetic::div_mod::lemma_div_nonincreasing(abs_i(a * FX_ONE), abs_i(b));
}

/// A fixed-point product of nonnegative factors is nonnegative.
pub proof fn lemma_fx_mul_nonneg(a: int, b: int)
    requires
        a >= 0,
        b >= 0,
    ensures
        fx_mul_s(a, b) >= 0,
{
    lemma_mul_nonnegative(a, b);
    lemma_tdivq_abs(a * b, FX_ONE as int);
    vstd::arithmetic::div_mod::lemma_div_pos_is_pos(a * b, FX_ONE as int);
}

/// A fixed-point quotient of nonnegative by positive is nonnegative.
pub proof fn lemma_fx_div_nonneg(a: int, b: int)
    requires
        a >= 0,
        b > 0,
    ensures
        fx_div_s(a, b) >= 0,
{
    lemma_mul_nonnegative(a, FX_ONE as int);
    lemma_tdivq_abs(a * FX_ONE, b);
    vstd::arithmetic::div_mod::lemma_div_pos_is_pos(a * FX_ONE, b);
}

/// Scaling by a factor within the unit never grows the magnitude.
pub proof fn lemma_fx_attenuate(a: int, b: int)
    requires
        abs_i(a) <= FX_ONE,
    ensures
        abs_i(fx_mul_s(a, b)) <= abs_i(b),
{
    lemma_abs_mul(a, b);
    lemma_tdivq_abs(a * b, FX_ONE as int);
    lemma_mul_inequality(abs_i(a), FX_ONE as int, abs_i(b));
    lemma_mul_is_commutative(abs_i(a), abs_i(b));
    lemma_mul_is_commutative(FX_ONE as int, abs_i(b));
    vstd::arithmetic::div_mod::lemma_div_is_ordered(
        abs_i(a) * abs_i(b),
        FX_ONE as int * abs_i(b),
        FX_ONE as int,
    );
    lemma_mul_is_commutative(abs_i(b), FX_ONE as int);
    vstd::arithmetic::div_mod::lemma_div_multiples_vanish(abs_i(b), FX_ONE as int);
}

/// Dividing by a scalar of at least one whole unit never grows the
/// magnitude.
pub proof fn lemma_fx_div_shrink(a: int, d: int)
    requires
        abs_i(d) >= FX_ONE,
    ensures
        abs_i(fx_div_s(a, d)) <= abs_i(a),
{
    lemma_abs_mul(a, FX_ONE as int);
    lemma_tdivq_abs(a * FX_ONE, abs_i(d));
    vstd::arithmetic::div_mod::lemma_div_pos_is_pos(abs_i(a * FX_ONE), abs_i(d));
    assert(tdivq(a * FX_ONE, d) == tdivq(a * FX_ONE, abs_i(d)) || tdivq(a * FX_ONE, d)
        == -tdivq(a * FX_ONE, abs_i(d)));
    vstd::arithmetic::div_mod::lemma_div_is_ordered_by_denominator(
        abs_i(a) * FX_ONE,
        FX_ONE as int,
        abs_i(d),
    );
    lemma_mul_is_commutative(abs_i(a), FX_ONE as int);
    vstd::arithmetic::div_mod::lemma_div_multiples_vanish(abs_i(a), FX_ONE as int);
    lemma_mul_nonnegative(abs_i(a), FX_ONE as int);
}

/// Fixed-point multiplication.
pub fn fx_mul(a: Fx, b: Fx) -> (r: Fx)
    requires
        -FX_MUL_LIM < a < FX_MUL_LIM,
        -FX_MUL_LIM < b < FX_MUL_LIM,
    ensures
        r == fx_mul_s(a as int, b as int),
        abs_i(r as int) * FX_ONE <= abs_i(a as int) * abs_i(b as int),
        abs_i(r as int) <= FX_MUL_RES_LIM,
{
    let neg: bool = (a < 0) != (b < 0);
    let ma: u128 = if a >= 0 {
        a as u128
    } else {
        (-a) as u128
    };
    let mb: u128 = if b >= 0 {
        b as u128
    } else {
        (-b) as u128
    };
    proof {
        assert(ma == abs_i(a as int));
        assert(mb == abs_i(b as int));
        lemma_mul_upper_bound(ma as int, FX_MUL_LIM as int - 1, mb as int, FX_MUL_LIM as int - 1);
    }
    let prod: u128 = ma * mb;
    let q: u128 = prod / 65536;
    proof {
        lemma_abs_mul(a as int, b as int);
        lemma_div_bound(
            prod as int,
            (FX_MUL_LIM as int - 1) * (FX_MUL_LIM as int - 1) + 1,
            FX_ONE as int,
        );
        assert(q == abs_i(a as int * b as int) / (FX_ONE as int));
        lemma_div_bound(prod as int, FX_MUL_PROD_LIM as int, FX_ONE as int);
        lemma_fundamental_div_mod_converse(
            FX_MUL_PROD_LIM as int,
            FX_ONE as int,
            FX_MUL_RES_LIM as int,
            0,
        );
    }
    if neg {
        proof {
            if (a as int) >= 0 {
                lemma_mul_nonnegative(a as int, -(b as int));
                lemma_mul_unary_negation(b as int, a as int);
                lemma_mul_is_commutative(a as int, b as int);
                lemma_mul_is_commutative(b as int, a as int);
            } else {
                lemma_mul_nonnegative(-(a as int), b as int);
                lemma_mul_unary_negation(a as int, b as int);
            }
            assert(a as int * b as int <= 0);
        }
        -(q as i128)
    } else {
        proof {
            if (a as int) >= 0 {
                lemma_mul_nonnegative(a as int, b as int);
            } else {
                lemma_mul_cancels_negatives(a as int, b as int);
                lemma_mul_nonnegative(-(a as int), -(b as int));
            }
            assert(a as int * b as int >= 0);
        }
        q as i128
    }
}

/// Fixed-point division; the divisor must be nonzero.
pub fn fx_div(a: Fx, b: Fx) -> (r: Fx)
    requires
        -FX_DIV_LIM < a < FX_DIV_LIM,
        -FX_DIV_LIM < b < FX_DIV_LIM,
        b != 0,
    ensures
        r == fx_div_s(a as int, b as int),
        abs_i(r as int) <= abs_i(a as int) * FX_ONE,
        abs_i(r as int) < FX_DIV_LIM_SCALED,
{
    let neg: bool = (a < 0) != (b < 0);
    let ma: u128 = if a >= 0 {
        a as u128
    } else {
        (-a) as u128
    };
    let mb: u128 = if b >= 0 {
        b as u128
    } else {
        (-b) as u128
    };
    proof {
        assert(ma == abs_i(a as int));
        assert(mb == abs_i(b as int));
        lemma_mul_upper_bound(ma as int, FX_DIV_LIM as int - 1, FX_ONE as int, FX_ONE as int);
    }
    let num: u128 = ma * 65536;
    let q: u128 = num / mb;
    proof {
        lemma_abs_mul(a as int, FX_ONE as int);
        lemma_div_bound(num as int, (FX_DIV_LIM as int - 1) * (FX_ONE as int) + 1, mb as int);
        assert(q == abs_i(a as int * FX_ONE) / abs_i(b as int));
        vstd::arithmetic::div_mod::lemma_div_nonincreasing(num as int, mb as int);
    }
    if neg {
        proof {
            if a as int * FX_ONE as int == 0 {
                assert(q == 0);
            }
        }
        -(q as i128)
    } else {
        proof {
            if (a as int) >= 0 {
                lemma_mul_nonnegative(a as int, FX_ONE as int);
            }
            if (a as int) < 0 && (b as int) < 0 {
                lemma_mul_nonnegative(-(a as int), FX_ONE as int);
                lemma_mul_unary_negation(a as int, FX_ONE as int);
            }
        }
        q as i128
    }
}

/// The truncated square root is unique.
pub proof fn lemma_isqrt_unique(n: int, r1: int, r2: int)
    requires
        r1 >= 0,
        r2 >= 0,
        r1 * r1 <= n < (r1 + 1) * (r1 + 1),
        r2 * r2 <= n < (r2 + 1) * (r2 + 1),
    ensures
        r1 == r2,
{
    if r1 < r2 {
        lemma_mul_inequality(r1 + 1, r2, r1 + 1);
        lemma_mul_inequality(r1 + 1, r2, r2);
        lemma_mul_is_commutative(r1 + 1, r2);
        assert((r1 + 1) * (r1 + 1) <= r2 * r2);
    }
    if r2 < r1 {
        lemma_mul_inequality(r2 + 1, r1, r2 + 1);
        lemma_mul_inequality(r2 + 1, r1, r1);
        lemma_mul_is_commutative(r2 + 1, r1);
        assert((r2 + 1) * (r2 + 1) <= r1 * r1);
    }
}

/// Fixed-point square root of a nonnegative scalar, truncated downward.
pub fn fx_sqrt(x: Fx) -> (r: Fx)
    requires
        0 <= x < FX_DIV_LIM,
    ensures
        r == fx_sqrt_s(x as int),
        is_isqrt(x as int * FX_ONE, r as int),
{
    proof {
        lemma_mul_upper_bound(x as int, FX_DIV_LIM as int - 1, FX_ONE as int, FX_ONE as int);
        lemma_mul_nonnegative(x as int, FX_ONE as int);
    }
    let n: u128 = (x as u128) * 65536;
    let mut lo: u128 = 0;
    let mut hi: u128 = SQRT_HI;
    proof {
        assert(SQRT_HI as int * SQRT_HI as int == SQRT_HI_SQUARED as int) by (nonlinear_arith);
    }
    while hi - lo > 1
        invariant
            lo < hi <= SQRT_HI,
            lo as int * lo as int <= n,
            n < hi as int * hi as int,
            n == x as int * FX_ONE,
        decreases hi - lo,
    {
        let mid: u128 = lo + (hi - lo) / 2;
        proof {
            lemma_mul_upper_bound(mid as int, SQRT_HI as int - 1, mid as int, SQRT_HI as int - 1);
        }
        if mid * mid <= n {
            lo = mid;
        } else {
            hi = mid;
        }
    }
    proof {
        assert(hi == lo + 1);
        assert(is_isqrt((x as int) * (FX_ONE as int), lo as int));
        assert(is_isqrt((x as int) * (FX_ONE as int), fx_sqrt_s(x as int)));
        lemma_isqrt_unique((x as int) * (FX_ONE as int), lo as int, fx_sqrt_s(x as int));
        lemma_mul_upper_bound(lo as int, SQRT_HI as int, lo as int, SQRT_HI as int);
    }
    lo as i128
}

/// Floor of a scalar: the greatest integer at or below `x / FX_ONE`.
pub fn fx_floor(x: Fx) -> (r: i128)
    requires
        x > i128::MIN,
    ensures
        r == (x as int) / (FX_ONE as int),
{
    if x >= 0 {
        let q: u128 = (x as u128) / 65536;
        proof {
            lemma_div_bound(x as int, i128::MAX as int + 1, FX_ONE as int);
        }
        q as i128
    } else {
        let m: u128 = (-x) as u128;
        let q: u128 = m / 65536;
        let rem: u128 = m % 65536;
        proof {
            lemma_fundamental_div_mod(m as int, FX_ONE as int);
            lemma_div_bound(m as int, i128::MAX as int + 1, FX_ONE as int);
            if rem == 0 {
                assert((-(q as int)) * (FX_ONE as int) + 0 == x as int) by {
                    lemma_mul_unary_negation(q as int, FX_ONE as int);
                    lemma_mul_is_commutative(q as int, FX_ONE as int);
                    lemma_mul_is_commutative(-(q as int), FX_ONE as int);
                }
                lemma_fundamental_div_mod_converse(x as int, FX_ONE as int, -(q as int), 0);
            } else {
                assert((-(q as int) - 1) * (FX_ONE as int) + (FX_ONE as int - rem as int)
                    == x as int) by {
                    lemma_mul_is_distributive_sub_other_way(
                        FX_ONE as int,
                        -(q as int),
                        1,
                    );
                    lemma_mul_unary_negation(q as int, FX_ONE as int);
                    lemma_mul_is_commutative(q as int, FX_ONE as int);
                    lemma_mul_is_commutative(-(q as int), FX_ONE as int);
                    lemma_mul_is_commutative(-(q as int) - 1, FX_ONE as int);
                }
                lemma_fundamental_div_mod_converse(
                    x as int,
                    FX_ONE as int,
                    -(q as int) - 1,
                    FX_ONE as int - rem as int,
                );
            }
        }
        if rem == 0 {
            -(q as i128)
        } else {
            -(q as i128) - 1
        }
    }
}

/// Whether a scalar's magnitude stays at or below the bound.
pub fn fx_in_range(x: Fx, m: Fx) -> (r: bool)
    requires
        m >= 0,
    ensures
        r == (abs_i(x as int) <= m),
{
    -m <= x && x <= m
}

/// Smaller of two scalars.
pub fn fx_min(a: Fx, b: Fx) -> (r: Fx)
    ensures
        r == if a <= b { a as int } else { b as int },
{
    if a <= b {
        a
    } else {
        b
    }
}

/// Larger of two scalars.
pub fn fx_max(a: Fx, b: Fx) -> (r: Fx)
    ensures
        r == if a >= b { a as int } else { b as int },
{
    if a >= b {
        a
    } else {
        b
    }
}

/// A whole number as a scalar.
pub fn fx_from_int(n: i128) -> (r: Fx)
    requires
        -FX_DIV_LIM < n < FX_DIV_LIM,
    ensures
        r == n * FX_ONE,
{
    proof {
        lemma_mul_upper_bound(abs_i(n as int), FX_DIV_LIM as int - 1, FX_ONE as int, FX_ONE as int);
        lemma_abs_mul(n as int, FX_ONE as int);
    }
    n * 65536
}

} // verus!
