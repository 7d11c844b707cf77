//! Trigonometric and logarithmic approximations on fixed-point scalars.
//!
//! The renderer needs a sine for the marbled noise texture, a tangent for
//! the camera's field of view, and a negative logarithm for sampling
//! free-flight distances in a medium.  Each is computed by a short,
//! fully specified fixed-point approximation: the sine by Bhaskara's
//! rational formula after range reduction, the logarithm by doubling into
//! `[1/2, 1]` and a four-term series.

use crate::fixed::abs_i;
use crate::fixed::fx_div;
use crate::fixed::FX_DIV_LIM;
use crate::fixed::fx_sqrt_s;
use crate::fixed::fx_div_s;
use crate::fixed::fx_mul;
use crate::fixed::fx_mul_s;
use crate::fixed::lemma_fx_mul_s_bound;
use crate::fixed::lemma_fx_square_nonneg;
use crate::fixed::lemma_tdivq_abs;
use crate::fixed::Fx;
use crate::fixed::FX_HALF;
use crate::fixed::FX_ONE;
use vstd::arithmetic::div_mod::lemma_fundamental_div_mod;
use vstd::arithmetic::div_mod::lemma_mod_bound;
use vstd::prelude::*;

verus! {

/// Pi, in fixed-point form.
pub const FX_PI: i128 = 205887;

/// Pi over two, in fixed-point form.
pub const FX_PI_HALF: i128 = 102944;

/// Two pi, in fixed-point form.
pub const FX_TAU: i128 = 411775;

/// The natural logarithm of two, in fixed-point form.
pub const FX_LN2: i128 = 45426;

/// Bound on arguments to the trigonometric functions (2^80), far above
/// any angle the renderer produces.
pub const FX_TRIG_LIM: i128 = 1208925819614629174706176;

/// Bhaskara's rational approximation of the sine on `[0, pi]`.
pub open spec fn bhaskara_s(y: int) -> int {
    let w = fx_mul_s(y, FX_PI - y);
    fx_div_s(16 * w, 5 * fx_mul_s(FX_PI as int, FX_PI as int) - 4 * w)
}

/// The sine of `x`: the argument reduced into one period, then the
/// positive half-wave approximated and the negative half-wave mirrored.
pub open spec fn fx_sin_s(x: int) -> int {
    let m = x % (FX_TAU as int);
    if m < FX_PI {
        bhaskara_s(m)
    } else {
        -bhaskara_s(m - FX_PI)
    }
}

/// The cosine of `x`, as the sine shifted by a quarter period.
pub open spec fn fx_cos_s(x: int) -> int {
    fx_sin_s(x + FX_PI_HALF)
}

/// Bhaskara's approximation on the half period.
fn bhaskara(y: Fx) -> (r: Fx)
    requires
        0 <= y <= FX_PI,
    ensures
        r == bhaskara_s(y as int),
        abs_i(r as int) <= 2 * FX_ONE,
{
    proof {
        lemma_fx_mul_s_bound(y as int, FX_PI as int - y, FX_PI as int, FX_PI as int);
        lemma_fx_mul_s_bound(FX_PI as int, FX_PI as int, FX_PI as int, FX_PI as int);
        lemma_fx_square_nonneg(y as int);
    }
    let w = fx_mul(y, FX_PI - y);
    proof {
        // w is the product of two factors in [0, pi], so it stays in
        // [0, pi^2 / 4] and the denominator stays positive.
        lemma_sin_product_range(y as int);
    }
    let den = 5 * fx_mul(FX_PI, FX_PI) - 4 * w;
    let r = fx_div(16 * w, den);
    proof {
        lemma_bhaskara_range(y as int);
    }
    r
}

/// The product `y * (pi - y)` stays within `[0, pi^2 / 4]`.
proof fn lemma_sin_product_range(y: int)
    requires
        0 <= y <= FX_PI,
    ensures
        0 <= fx_mul_s(y, FX_PI - y),
        fx_mul_s(y, FX_PI - y) <= 161702,
        5 * fx_mul_s(FX_PI as int, FX_PI as int) - 4 * fx_mul_s(y, FX_PI - y) >= 2587247,
{
    vstd::arithmetic::mul::lemma_mul_nonnegative(y, FX_PI as int - y);
    lemma_tdivq_abs(y * (FX_PI as int - y), FX_ONE as int);
    vstd::arithmetic::div_mod::lemma_div_pos_is_pos(y * (FX_PI as int - y), FX_ONE as int);
    // The quadratic peaks at the midpoint of the interval.
    assert(y * (FX_PI - y) <= 102943 * (FX_PI as int - 102943)) by (nonlinear_arith)
        requires
            0 <= y <= FX_PI,
            FX_PI == 205887,
    ;
    vstd::arithmetic::div_mod::lemma_div_is_ordered(
        y * (FX_PI as int - y),
        102943 * (FX_PI as int - 102943),
        FX_ONE as int,
    );
    assert(102943 * (FX_PI as int - 102943) == 10597364192) by (nonlinear_arith);
    vstd::arithmetic::div_mod::lemma_fundamental_div_mod_converse(
        10597364192,
        65536,
        161702,
        61920,
    );
    lemma_pi_squared();
}

/// The fixed-point square of pi.
proof fn lemma_pi_squared()
    ensures
        fx_mul_s(FX_PI as int, FX_PI as int) == 646811,
{
    lemma_tdivq_abs(FX_PI as int * FX_PI as int, FX_ONE as int);
    assert(FX_PI as int * FX_PI as int == 42389456769) by (nonlinear_arith);
    vstd::arithmetic::div_mod::lemma_fundamental_div_mod_converse(
        42389456769,
        65536,
        646811,
        51073,
    );
}

/// Bhaskara's formula stays within twice the unit.
proof fn lemma_bhaskara_range(y: int)
    requires
        0 <= y <= FX_PI,
    ensures
        abs_i(bhaskara_s(y)) <= 2 * FX_ONE,
{
    lemma_sin_product_range(y);
    lemma_pi_squared();
    let w = fx_mul_s(y, FX_PI - y);
    let den = 5 * 646811 - 4 * w;
    crate::fixed::lemma_abs_mul(16 * w, FX_ONE as int);
    vstd::arithmetic::mul::lemma_mul_nonnegative(16 * w, FX_ONE as int);
    lemma_tdivq_abs(16 * w * FX_ONE, den);
    vstd::arithmetic::div_mod::lemma_fundamental_div_mod(16 * w * FX_ONE, den);
    vstd::arithmetic::div_mod::lemma_mod_bound(16 * w * FX_ONE, den);
    let q = (16 * w * FX_ONE) / den;
    assert(q <= 2 * FX_ONE) by (nonlinear_arith)
        requires
            0 <= w <= 161702,
            den == 5 * 646811 - 4 * w,
            16 * w * FX_ONE == den * q + (16 * w * FX_ONE) % den,
            0 <= (16 * w * FX_ONE) % den < den,
            q >= 0,
            FX_ONE == 65536,
    ;
}

/// The sine of a fixed-point angle.
pub fn fx_sin(x: Fx) -> (r: Fx)
    requires
        -FX_TRIG_LIM < x < FX_TRIG_LIM,
    ensures
        r == fx_sin_s(x as int),
        abs_i(r as int) <= 2 * FX_ONE,
{
    let m: i128 = if x >= 0 {
        ((x as u128) % 411775) as i128
    } else {
        let rem: u128 = ((-x) as u128) % 411775;
        if rem == 0 {
            0
        } else {
            411775 - (rem as i128)
        }
    };
    proof {
        lemma_fundamental_div_mod(x as int, FX_TAU as int);
        lemma_mod_bound(x as int, FX_TAU as int);
        if x < 0 {
            lemma_fundamental_div_mod((-x) as int, FX_TAU as int);
            lemma_mod_bound((-x) as int, FX_TAU as int);
            let q = ((-x) as int) / (FX_TAU as int);
            let rr = ((-x) as int) % (FX_TAU as int);
            if rr == 0 {
                vstd::arithmetic::div_mod::lemma_fundamental_div_mod_converse(
                    x as int,
                    FX_TAU as int,
                    -q,
                    0,
                );
            } else {
                assert((-q - 1) * (FX_TAU as int) + (FX_TAU as int - rr) == x as int) by {
                    vstd::arithmetic::mul::lemma_mul_is_distributive_sub_other_way(
                        FX_TAU as int,
                        -q,
                        1,
                    );
                    vstd::arithmetic::mul::lemma_mul_unary_negation(q, FX_TAU as int);
                    vstd::arithmetic::mul::lemma_mul_is_commutative(q, FX_TAU as int);
                    vstd::arithmetic::mul::lemma_mul_is_commutative(-q, FX_TAU as int);
                    vstd::arithmetic::mul::lemma_mul_is_commutative(-q - 1, FX_TAU as int);
                }
                vstd::arithmetic::div_mod::lemma_fundamental_div_mod_converse(
                    x as int,
                    FX_TAU as int,
                    -q - 1,
                    FX_TAU as int - rr,
                );
            }
        }
        assert(m == (x as int) % (FX_TAU as int));
    }
    if m < FX_PI {
        bhaskara(m)
    } else {
        let b = bhaskara(m - FX_PI);
        -b
    }
}

/// The cosine of a fixed-point angle.
pub fn fx_cos(x: Fx) -> (r: Fx)
    requires
        -FX_TRIG_LIM < x < FX_TRIG_LIM - FX_PI_HALF,
    ensures
        r == fx_cos_s(x as int),
        abs_i(r as int) <= 2 * FX_ONE,
{
    fx_sin(x + FX_PI_HALF)
}

/// The doubling stage of the logarithm: how often `u` doubles before
/// reaching one half, and where it lands, capped at 17 rounds.
pub open spec fn ln_norm_s(u: int, fuel: nat) -> (int, int)
    decreases fuel,
{
    if u >= FX_HALF || fuel == 0 {
        (u, 0)
    } else {
        let (u2, k) = ln_norm_s(2 * u, (fuel - 1) as nat);
        (u2, k + 1)
    }
}

/// The series stage of the logarithm on `[1/2, 1]`: minus the natural
/// logarithm of `1 - y`, by four terms of its power series.
pub open spec fn ln_series_s(y: int) -> int {
    let t2 = fx_mul_s(y, y);
    let t3 = fx_mul_s(t2, y);
    let t4 = fx_mul_s(t3, y);
    y + fx_mul_s(t2, FX_HALF as int) + fx_div_s(t3, 3 * FX_ONE) + fx_mul_s(
        fx_mul_s(t4, FX_HALF as int),
        FX_HALF as int,
    )
}

/// Minus the natural logarithm of `u` (a scalar in `(0, 1]`): the
/// argument is doubled into `[1/2, 1]` and the rest read off a series.
pub open spec fn fx_neg_ln_s(u: int) -> int {
    let (un, k) = ln_norm_s(u, 17);
    k * FX_LN2 + ln_series_s(FX_ONE - un)
}

/// The doubling stage resumed from an intermediate value and count.
pub open spec fn ln_norm_from_s(un: int, k: int) -> (int, int) {
    let p = ln_norm_s(un, (17 - k) as nat);
    (p.0, k + p.1)
}

/// Minus the natural logarithm of a scalar in `(0, 1]`.
pub fn fx_neg_ln(u: Fx) -> (r: Fx)
    requires
        0 < u <= FX_ONE,
    ensures
        r == fx_neg_ln_s(u as int),
        0 <= r <= 17 * FX_LN2 + 4 * FX_ONE,
{
    let mut un: i128 = u;
    let mut k: i128 = 0;
    let ghost orig = u as int;
    while un < FX_HALF && k < 17
        invariant
            0 < un <= FX_ONE,
            0 <= k <= 17,
            ln_norm_from_s(un as int, k as int) == ln_norm_s(orig, 17),
        decreases 17 - k,
    {
        un = un * 2;
        k = k + 1;
    }
    proof {
        assert(ln_norm_s(un as int, (17 - k) as nat) == (un as int, 0int));
        assert(ln_norm_s(orig, 17) == (un as int, k as int));
    }
    proof {
        lemma_series_bounds(FX_ONE as int - un);
    }
    let y = FX_ONE - un;
    let t2 = fx_mul(y, y);
    let t3 = fx_mul(t2, y);
    let t4 = fx_mul(t3, y);
    let series = y + fx_mul(t2, FX_HALF) + fx_div(t3, 3 * FX_ONE) + fx_mul(
        fx_mul(t4, FX_HALF),
        FX_HALF,
    );
    (k as i128) * FX_LN2 + series
}

/// The series terms stay small on `[0, 1]`.
proof fn lemma_series_bounds(y: int)
    requires
        0 <= y < FX_ONE,
    ensures
        0 <= fx_mul_s(y, y) < FX_ONE,
        0 <= fx_mul_s(fx_mul_s(y, y), y) < FX_ONE,
        0 <= fx_mul_s(fx_mul_s(fx_mul_s(y, y), y), y) < FX_ONE,
        0 <= fx_mul_s(fx_mul_s(y, y), FX_HALF as int) < FX_ONE,
        0 <= fx_div_s(fx_mul_s(fx_mul_s(y, y), y), 3 * FX_ONE) < FX_ONE,
        0 <= fx_mul_s(
            fx_mul_s(fx_mul_s(fx_mul_s(y, y), y), y),
            FX_HALF as int,
        ) < FX_ONE,
        0 <= fx_mul_s(
            fx_mul_s(fx_mul_s(fx_mul_s(fx_mul_s(y, y), y), y), FX_HALF as int),
            FX_HALF as int,
        ) < FX_ONE,
        ln_series_s(y) <= 4 * FX_ONE,
        ln_series_s(y) >= 0,
{
    lemma_unit_product(y, y);
    let t2 = fx_mul_s(y, y);
    lemma_unit_product(t2, y);
    let t3 = fx_mul_s(t2, y);
    lemma_unit_product(t3, y);
    let t4 = fx_mul_s(t3, y);
    lemma_unit_product(t2, FX_HALF as int);
    lemma_unit_product(t4, FX_HALF as int);
    lemma_unit_product(fx_mul_s(t4, FX_HALF as int), FX_HALF as int);
    crate::fixed::lemma_abs_mul(t3, FX_ONE as int);
    lemma_tdivq_abs(t3 * FX_ONE, 3 * FX_ONE);
    vstd::arithmetic::div_mod::lemma_div_pos_is_pos(t3 * FX_ONE, 3 * FX_ONE);
    assert(t3 * FX_ONE < FX_ONE * (3 * FX_ONE)) by (nonlinear_arith)
        requires
            0 <= t3 < FX_ONE,
            FX_ONE == 65536,
    ;
    vstd::arithmetic::div_mod::lemma_multiply_divide_lt(t3 * FX_ONE, 3 * FX_ONE, FX_ONE as int);
}

/// Pi over four, in fixed-point form.
pub const FX_PI_QUARTER: i128 = 51472;

/// The correction coefficient of the quadratic arctangent approximation.
pub const FX_ATAN_K: i128 = 17891;

/// A quadratic approximation of the arctangent on `[0, 1]`.
pub open spec fn atan_unit_s(t: int) -> int {
    fx_mul_s(FX_PI_QUARTER as int, t) + fx_mul_s(fx_mul_s(FX_ATAN_K as int, t), FX_ONE - t)
}

/// The angle of the point `(x, y)` from the positive x axis, in
/// `(-pi, pi]`, by octant reduction onto the unit arctangent.
pub open spec fn fx_atan2_s(y: int, x: int) -> int {
    if x == 0 && y == 0 {
        0
    } else {
        let ax = abs_i(x);
        let ay = abs_i(y);
        let t = if ay <= ax {
            fx_div_s(ay, ax)
        } else {
            fx_div_s(ax, ay)
        };
        let base = atan_unit_s(t);
        let q = if ay <= ax {
            base
        } else {
            FX_PI_HALF - base
        };
        let q2 = if x < 0 {
            FX_PI - q
        } else {
            q
        };
        if y < 0 {
            -q2
        } else {
            q2
        }
    }
}

/// The arccosine of a scalar, clamped into `[-1, 1]`, in `[0, pi]`.
pub open spec fn fx_acos_s(w: int) -> int {
    let wc = if w < -FX_ONE {
        -FX_ONE as int
    } else if w > FX_ONE {
        FX_ONE as int
    } else {
        w
    };
    fx_atan2_s(fx_sqrt_s(FX_ONE - fx_mul_s(wc, wc)), wc)
}

/// The unit arctangent approximation, on a clamped argument.
fn atan_unit(t: Fx) -> (r: Fx)
    requires
        0 <= t <= FX_ONE,
    ensures
        r == atan_unit_s(t as int),
        0 <= r <= FX_PI_HALF,
{
    proof {
        lemma_atan_unit_range(t as int);
    }
    fx_mul(FX_PI_QUARTER, t) + fx_mul(fx_mul(FX_ATAN_K, t), FX_ONE - t)
}

/// The unit arctangent stays within the first quadrant's angles.
proof fn lemma_atan_unit_range(t: int)
    requires
        0 <= t <= FX_ONE,
    ensures
        0 <= fx_mul_s(FX_PI_QUARTER as int, t) <= FX_PI_QUARTER,
        0 <= fx_mul_s(FX_ATAN_K as int, t) <= FX_ATAN_K,
        0 <= fx_mul_s(fx_mul_s(FX_ATAN_K as int, t), FX_ONE - t) <= FX_ATAN_K,
        0 <= atan_unit_s(t) <= FX_PI_HALF,
{
    lemma_scaled_unit(FX_PI_QUARTER as int, t);
    lemma_scaled_unit(FX_ATAN_K as int, t);
    lemma_scaled_unit(fx_mul_s(FX_ATAN_K as int, t), FX_ONE - t);
}

/// Scaling a value in `[0, c]` by a factor in `[0, 1]` keeps it there.
proof fn lemma_scaled_unit(c: int, t: int)
    requires
        0 <= c,
        0 <= t <= FX_ONE,
    ensures
        0 <= fx_mul_s(c, t) <= c,
{
    vstd::arithmetic::mul::lemma_mul_nonnegative(c, t);
    lemma_tdivq_abs(c * t, FX_ONE as int);
    vstd::arithmetic::div_mod::lemma_div_pos_is_pos(c * t, FX_ONE as int);
    vstd::arithmetic::mul::lemma_mul_upper_bound(c, c, t, FX_ONE as int);
    vstd::arithmetic::div_mod::lemma_div_is_ordered(c * t, c * FX_ONE, FX_ONE as int);
    vstd::arithmetic::div_mod::lemma_div_multiples_vanish(c, FX_ONE as int);
    vstd::arithmetic::mul::lemma_mul_is_commutative(c, FX_ONE as int);
}

/// The angle of `(x, y)` from the positive x axis.
pub fn fx_atan2(y: Fx, x: Fx) -> (r: Fx)
    requires
        abs_i(x as int) < FX_DIV_LIM,
        abs_i(y as int) < FX_DIV_LIM,
    ensures
        r == fx_atan2_s(y as int, x as int),
        abs_i(r as int) <= FX_PI,
{
    if x == 0 && y == 0 {
        return 0;
    }
    let ax = if x >= 0 {
        x
    } else {
        -x
    };
    let ay = if y >= 0 {
        y
    } else {
        -y
    };
    let t = if ay <= ax {
        fx_div(ay, ax)
    } else {
        fx_div(ax, ay)
    };
    proof {
        if ay <= ax {
            lemma_ratio_unit(ay as int, ax as int);
        } else {
            lemma_ratio_unit(ax as int, ay as int);
        }
    }
    let base = atan_unit(t);
    let q = if ay <= ax {
        base
    } else {
        FX_PI_HALF - base
    };
    let q2 = if x < 0 {
        FX_PI - q
    } else {
        q
    };
    if y < 0 {
        -q2
    } else {
        q2
    }
}

/// A quotient of a smaller by a larger magnitude stays within the unit.
proof fn lemma_ratio_unit(a: int, b: int)
    requires
        0 <= a <= b,
        0 < b,
    ensures
        0 <= fx_div_s(a, b) <= FX_ONE,
{
    vstd::arithmetic::mul::lemma_mul_nonnegative(a, FX_ONE as int);
    crate::fixed::lemma_abs_mul(a, FX_ONE as int);
    lemma_tdivq_abs(a * FX_ONE, b);
    vstd::arithmetic::div_mod::lemma_div_pos_is_pos(a * FX_ONE, b);
    vstd::arithmetic::mul::lemma_mul_inequality(a, b, FX_ONE as int);
    vstd::arithmetic::mul::lemma_mul_is_commutative(a, FX_ONE as int);
    vstd::arithmetic::mul::lemma_mul_is_commutative(b, FX_ONE as int);
    vstd::arithmetic::div_mod::lemma_div_is_ordered(a * FX_ONE, b * FX_ONE, b);
    vstd::arithmetic::mul::lemma_mul_is_commutative(FX_ONE as int, b);
    vstd::arithmetic::div_mod::lemma_div_multiples_vanish(FX_ONE as int, b);
}

/// The arccosine of a scalar, by way of the arctangent.
pub fn fx_acos(w: Fx) -> (r: Fx)
    requires
        abs_i(w as int) < FX_DIV_LIM,
    ensures
        r == fx_acos_s(w as int),
        abs_i(r as int) <= FX_PI,
{
    let wc = if w < -FX_ONE {
        -FX_ONE
    } else if w > FX_ONE {
        FX_ONE
    } else {
        w
    };
    proof {
        crate::fixed::lemma_fx_mul_s_bound(wc as int, wc as int, FX_ONE as int, FX_ONE as int);
        lemma_fx_square_nonneg(wc as int);
    }
    let s = crate::fixed::fx_sqrt(FX_ONE - fx_mul(wc, wc));
    proof {
        assert(s <= FX_ONE) by (nonlinear_arith)
            requires
                s >= 0,
                (s as int) * (s as int) <= (FX_ONE - fx_mul_s(wc as int, wc as int)) * (
                FX_ONE as int),
                0 <= FX_ONE - fx_mul_s(wc as int, wc as int) <= FX_ONE,
                FX_ONE == 65536,
        ;
    }
    fx_atan2(s, wc)
}

/// Two factors inside the unit interval give a product inside it.
proof fn lemma_unit_product(a: int, b: int)
    requires
        0 <= a < FX_ONE,
        0 <= b <= FX_ONE,
    ensures
        0 <= fx_mul_s(a, b) < FX_ONE,
        0 <= fx_mul_s(a, b) <= a,
{
    vstd::arithmetic::mul::lemma_mul_nonnegative(a, b);
    lemma_tdivq_abs(a * b, FX_ONE as int);
    vstd::arithmetic::div_mod::lemma_div_pos_is_pos(a * b, FX_ONE as int);
    vstd::arithmetic::mul::lemma_mul_upper_bound(a, FX_ONE as int - 1, b, FX_ONE as int);
    assert(a * b <= a * FX_ONE) by (nonlinear_arith)
        requires
            0 <= a,
            0 <= b <= FX_ONE,
    ;
    vstd::arithmetic::div_mod::lemma_div_is_ordered(a * b, a * FX_ONE, FX_ONE as int);
    vstd::arithmetic::div_mod::lemma_div_multiples_vanish(a, FX_ONE as int);
    vstd::arithmetic::mul::lemma_mul_is_commutative(a, FX_ONE as int);
}

} // verus!
