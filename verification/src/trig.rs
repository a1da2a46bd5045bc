use vstd::prelude::*;

use crate::fixed::{FP_ONE, FP_ONE_WIDE};

verus! {

/// pi/2 in 32.32 fixed point, rounded down.
pub const HALF_PI_Q: i64 = 6746518852;

/// pi/4 in 32.32 fixed point, rounded down.
pub const QUARTER_PI_Q: i64 = 3373259426;

/// tan(pi/8) in 32.32 fixed point: the threshold of the second
/// argument-reduction step of the arc tangent.
pub const OCTANT_TAN_Q: i64 = 1779033703;

/// Largest half field-of-view angle the perspective constructor accepts:
/// 1.4 radians in 32.32 fixed point.  Below it the cosine provably stays
/// well clear of zero.
pub const HALF_ANGLE_MAX_Q: i64 = 6012954214;

/// Largest angle the sine and cosine evaluations accept, a little above
/// pi/2.
pub const ANGLE_MAX_Q: i64 = 6800000000;

/// `(a * b) / (k * 2^32)`, rounded toward zero: a fixed-point product of
/// `a` with `b / k`.
pub open spec fn spec_mul_div(a: int, b: int, k: int) -> int {
    (a * b) / (k * 0x1_0000_0000)
}

/// Fixed-point `a * (b / k)` for nonnegative `a`, a factor `b` of at most
/// two, and a small positive integer divisor `k`.
pub fn mul_div(a: i64, b: i64, k: i64) -> (r: i64)
    requires
        0 <= a <= 0x20_0000_0000,
        0 <= b <= 0x2_0000_0000,
        1 <= k <= 1000,
    ensures
        r == spec_mul_div(a as int, b as int, k as int),
        0 <= r,
        b <= FP_ONE ==> r <= a / k,
{
    proof {
        let p: int = (a as int) * (b as int);
        let d: int = (k as int) * 0x1_0000_0000;
        vstd::arithmetic::mul::lemma_mul_nonnegative(a as int, b as int);
        vstd::arithmetic::mul::lemma_mul_inequality(b as int, 0x2_0000_0000, a as int);
        vstd::arithmetic::mul::lemma_mul_inequality(a as int, 0x20_0000_0000, 0x2_0000_0000);
        vstd::arithmetic::mul::lemma_mul_inequality(1, k as int, 0x1_0000_0000);
    }
    let wide: i128 = (a as i128) * (b as i128) / ((k as i128) * FP_ONE_WIDE);
    proof {
        let p: int = (a as int) * (b as int);
        let d: int = (k as int) * 0x1_0000_0000;
        vstd::arithmetic::div_mod::lemma_div_pos_is_pos(p, d);
        if b <= FP_ONE {
            vstd::arithmetic::mul::lemma_mul_inequality(b as int, 0x1_0000_0000, a as int);
            vstd::arithmetic::div_mod::lemma_div_is_ordered(p, (a as int) * 0x1_0000_0000, d);
            vstd::arithmetic::div_mod::lemma_div_denominator(
                (a as int) * 0x1_0000_0000,
                0x1_0000_0000,
                k as int,
            );
            vstd::arithmetic::div_mod::lemma_div_multiples_vanish(a as int, 0x1_0000_0000);
            assert((a as int) * 0x1_0000_0000 == 0x1_0000_0000 * (a as int));
            assert(p / d <= (a as int) / (k as int));
            vstd::arithmetic::div_mod::lemma_div_is_ordered_by_denominator(a as int, 1, k as int);
        }
        vstd::arithmetic::div_mod::lemma_div_is_ordered_by_denominator(p, 0x1_0000_0000, d);
        vstd::arithmetic::div_mod::lemma_div_is_ordered(
            p,
            0x20_0000_0000int * 0x2_0000_0000,
            0x1_0000_0000,
        );
    }
    wide as i64
}

/// Bound the fixed-point product by any cap whose scaled form dominates
/// the raw product.
pub proof fn lemma_mul_div_bound(a: int, b: int, k: int, cap: int)
    requires
        0 <= a,
        0 <= b,
        1 <= k,
        0 <= cap,
        a * b <= cap * (k * 0x1_0000_0000),
    ensures
        spec_mul_div(a, b, k) <= cap,
{
    let d: int = k * 0x1_0000_0000;
    vstd::arithmetic::mul::lemma_mul_inequality(1, k, 0x1_0000_0000);
    vstd::arithmetic::mul::lemma_mul_nonnegative(a, b);
    vstd::arithmetic::div_mod::lemma_div_is_ordered(a * b, cap * d, d);
    vstd::arithmetic::div_mod::lemma_div_multiples_vanish(cap, d);
    assert(cap * d == d * cap);
}

/// The evaluated sine polynomial: degree-13 Taylor form in nested shape.
pub open spec fn spec_sin_q(x: int) -> int {
    let x2: int = spec_mul_div(x, x, 1);
    let t6: int = 0x1_0000_0000 - x2 / 156;
    let t5: int = 0x1_0000_0000 - spec_mul_div(x2, t6, 110);
    let t4: int = 0x1_0000_0000 - spec_mul_div(x2, t5, 72);
    let t3: int = 0x1_0000_0000 - spec_mul_div(x2, t4, 42);
    let t2: int = 0x1_0000_0000 - spec_mul_div(x2, t3, 20);
    let t1: int = 0x1_0000_0000 - spec_mul_div(x2, t2, 6);
    spec_mul_div(x, t1, 1)
}

/// Sine of a fixed-point angle between zero and a little over pi/2.
pub fn sin_q(x: i64) -> (r: i64)
    requires
        0 <= x <= ANGLE_MAX_Q,
    ensures
        r == spec_sin_q(x as int),
        0 <= r <= x,
        x >= 4 ==> 1 <= r,
        2 * r >= x - 2,
{
    let x2: i64 = mul_div(x, x, 1);
    proof {
        assert(x2 <= 10_800_000_000i64) by (nonlinear_arith)
            requires
                x2 == ((x as int) * (x as int)) / 0x1_0000_0000,
                0 <= x <= 6800000000i64,
        ;
    }
    let t6: i64 = FP_ONE - x2 / 156;
    let t5: i64 = FP_ONE - mul_div(x2, t6, 110);
    let t4: i64 = FP_ONE - mul_div(x2, t5, 72);
    let t3: i64 = FP_ONE - mul_div(x2, t4, 42);
    let t2: i64 = FP_ONE - mul_div(x2, t3, 20);
    let t1: i64 = FP_ONE - mul_div(x2, t2, 6);
    let r: i64 = mul_div(x, t1, 1);
    proof {
        let xi: int = x as int;
        let lo: int = 0x1_0000_0000 - (10_800_000_000int / 6);
        assert(t1 >= lo);
        assert(r * 0x1_0000_0000 <= xi * (t1 as int) && xi * lo <= xi * (t1 as int) && (r + 1)
            * 0x1_0000_0000 > xi * (t1 as int)) by (nonlinear_arith)
            requires
                r == (xi * (t1 as int)) / 0x1_0000_0000,
                0 <= xi,
                lo <= t1 <= 0x1_0000_0000,
                lo == 0x1_0000_0000 - (10_800_000_000int / 6),
        ;
        assert(2 * r >= xi - 2) by (nonlinear_arith)
            requires
                (r + 1) * 0x1_0000_0000 > xi * (lo as int),
                lo == 0x1_0000_0000 - (10_800_000_000int / 6),
                0 <= xi,
                r >= 0,
        ;
    }
    r
}

/// The evaluated cosine polynomial: degree-12 Taylor form in nested shape.
pub open spec fn spec_cos_q(x: int) -> int {
    let x2: int = spec_mul_div(x, x, 1);
    let t6: int = 0x1_0000_0000 - x2 / 132;
    let t5: int = 0x1_0000_0000 - spec_mul_div(x2, t6, 90);
    let t4: int = 0x1_0000_0000 - spec_mul_div(x2, t5, 56);
    let t3: int = 0x1_0000_0000 - spec_mul_div(x2, t4, 30);
    let t2: int = 0x1_0000_0000 - spec_mul_div(x2, t3, 12);
    0x1_0000_0000 - spec_mul_div(x2, t2, 2)
}

/// Cosine of a fixed-point angle in `[0, pi/2]` radians.  Up to 1.4
/// radians it stays well clear of zero.
pub fn cos_q(x: i64) -> (r: i64)
    requires
        0 <= x <= ANGLE_MAX_Q,
    ensures
        r == spec_cos_q(x as int),
        -FP_ONE <= r <= FP_ONE,
        x <= HALF_ANGLE_MAX_Q ==> 44967296 <= r,
{
    let x2: i64 = mul_div(x, x, 1);
    proof {
        assert(x2 <= 10_800_000_000i64 && (x <= 6012954214i64 ==> x2 <= 8_500_000_000i64))
            by (nonlinear_arith)
            requires
                x2 == ((x as int) * (x as int)) / 0x1_0000_0000,
                0 <= x <= 6800000000i64,
        ;
    }
    let t6: i64 = FP_ONE - x2 / 132;
    let t5: i64 = FP_ONE - mul_div(x2, t6, 90);
    let t4: i64 = FP_ONE - mul_div(x2, t5, 56);
    let t3: i64 = FP_ONE - mul_div(x2, t4, 30);
    let t2: i64 = FP_ONE - mul_div(x2, t3, 12);
    let r: i64 = FP_ONE - mul_div(x2, t2, 2);
    proof {
        assert(x2 / 2 <= 5_400_000_000i64);
        if x <= HALF_ANGLE_MAX_Q {
            assert(x2 / 2 <= 4_250_000_000i64);
        }
    }
    r
}

/// The evaluated arc-tangent polynomial on `[0, 0.42]`: degree-15 Taylor
/// form in Horner shape with fixed-point reciprocal coefficients.
pub open spec fn spec_atan_series(v: int) -> int {
    let v2: int = spec_mul_div(v, v, 1);
    let g6: int = 330382227 - spec_mul_div(v2, 286331153, 1);
    let g5: int = 390451572 - spec_mul_div(v2, g6, 1);
    let g4: int = 477218588 - spec_mul_div(v2, g5, 1);
    let g3: int = 613566756 - spec_mul_div(v2, g4, 1);
    let g2: int = 858993459 - spec_mul_div(v2, g3, 1);
    let g1: int = 1431655765 - spec_mul_div(v2, g2, 1);
    let f: int = 0x1_0000_0000 - spec_mul_div(v2, g1, 1);
    spec_mul_div(v, f, 1)
}

/// Arc tangent of a small fixed-point value, `0 <= v <= 0.42`.
pub fn atan_series(v: i64) -> (r: i64)
    requires
        0 <= v <= 1_810_000_000,
    ensures
        r == spec_atan_series(v as int),
        0 <= r <= v,
{
    let v2: i64 = mul_div(v, v, 1);
    proof {
        assert(v2 <= 800_000_000i64) by (nonlinear_arith)
            requires
                v2 == ((v as int) * (v as int)) / 0x1_0000_0000,
                0 <= v <= 1_810_000_000i64,
        ;
    }
    let g6: i64 = 330382227 - mul_div(v2, 286331153, 1);
    proof {
        step_cap(v2 as int, 286331153, 60000000);
    }
    let g5: i64 = 390451572 - mul_div(v2, g6, 1);
    proof {
        step_cap(v2 as int, g6 as int, 62000000);
    }
    let g4: i64 = 477218588 - mul_div(v2, g5, 1);
    proof {
        step_cap(v2 as int, g5 as int, 73000000);
    }
    let g3: i64 = 613566756 - mul_div(v2, g4, 1);
    proof {
        step_cap(v2 as int, g4 as int, 89000000);
    }
    let g2: i64 = 858993459 - mul_div(v2, g3, 1);
    proof {
        step_cap(v2 as int, g3 as int, 115000000);
    }
    let g1: i64 = 1431655765 - mul_div(v2, g2, 1);
    proof {
        step_cap(v2 as int, g2 as int, 160000000);
    }
    let f: i64 = FP_ONE - mul_div(v2, g1, 1);
    proof {
        step_cap(v2 as int, g1 as int, 267000000);
    }
    let r: i64 = mul_div(v, f, 1);
    r
}

/// One polynomial step stays under its cap: used to keep every Horner
/// intermediate of the arc tangent nonnegative.
proof fn step_cap(v2: int, g: int, cap: int)
    requires
        0 <= v2 <= 800_000_000,
        0 <= g <= 1_431_655_765,
        0 <= cap,
        800_000_000 * g <= cap * 0x1_0000_0000,
    ensures
        spec_mul_div(v2, g, 1) <= cap,
{
    assert(v2 * g <= 800_000_000 * g) by (nonlinear_arith)
        requires
            0 <= v2 <= 800_000_000,
            0 <= g,
    ;
    lemma_mul_div_bound(v2, g, 1, cap);
}

/// Arc tangent on `[0, 1]`, after folding large arguments down: values
/// above tan(pi/8) go through atan(v) = pi/4 - atan((1 - v) / (1 + v)).
pub open spec fn spec_atan_unit(u: int) -> int {
    if u > OCTANT_TAN_Q {
        let w: int = ((0x1_0000_0000 - u) * 0x1_0000_0000) / (0x1_0000_0000 + u);
        QUARTER_PI_Q - spec_atan_series(w)
    } else {
        spec_atan_series(u)
    }
}

pub fn atan_unit(u: i64) -> (r: i64)
    requires
        0 <= u <= FP_ONE,
    ensures
        r == spec_atan_unit(u as int),
        0 <= r <= QUARTER_PI_Q,
{
    if u > OCTANT_TAN_Q {
        let w: i64 = (((FP_ONE - u) as i128 * FP_ONE_WIDE) / ((FP_ONE + u) as i128)) as i64;
        proof {
            let n: int = ((FP_ONE - u) as int) * 0x1_0000_0000;
            let d: int = (FP_ONE + u) as int;
            vstd::arithmetic::div_mod::lemma_div_pos_is_pos(n, d);
            vstd::arithmetic::div_mod::lemma_fundamental_div_mod(n, d);
            assert(n / d <= 1_810_000_000) by (nonlinear_arith)
                requires
                    n == ((FP_ONE - u) as int) * 0x1_0000_0000,
                    d == (FP_ONE + u) as int,
                    OCTANT_TAN_Q < u <= FP_ONE,
                    n == d * (n / d) + n % d,
                    0 <= n % d,
                    n / d >= 0,
            ;
        }
        QUARTER_PI_Q - atan_series(w)
    } else {
        atan_series(u)
    }
}

/// Arc tangent of any nonnegative fixed-point value: arguments above one
/// go through atan(t) = pi/2 - atan(1 / t).
pub open spec fn spec_atan_q(t: int) -> int {
    if t > 0x1_0000_0000 {
        let recip: int = (0x1_0000_0000int * 0x1_0000_0000) / t;
        HALF_PI_Q - spec_atan_unit(recip)
    } else {
        spec_atan_unit(t)
    }
}

pub fn atan_q(t: i64) -> (r: i64)
    requires
        0 <= t,
    ensures
        r == spec_atan_q(t as int),
        0 <= r <= HALF_PI_Q,
{
    if t > FP_ONE {
        let recip: i64 = ((FP_ONE_WIDE * FP_ONE_WIDE) / (t as i128)) as i64;
        proof {
            let n: int = 0x1_0000_0000int * 0x1_0000_0000;
            vstd::arithmetic::div_mod::lemma_div_pos_is_pos(n, t as int);
            vstd::arithmetic::div_mod::lemma_div_is_ordered_by_denominator(n, 0x1_0000_0000, t as int);
            vstd::arithmetic::div_mod::lemma_div_multiples_vanish(0x1_0000_0000, 0x1_0000_0000);
            assert(n == 0x1_0000_0000int * 0x1_0000_0000);
        }
        HALF_PI_Q - atan_unit(recip)
    } else {
        atan_unit(t)
    }
}

} // verus!
