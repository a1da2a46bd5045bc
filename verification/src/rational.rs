use vstd::prelude::*;

verus! {

/// An exact rational scalar: `num / den` with a positive denominator.
/// Camera matrices hold these, so that parameter recovery from a matrix
/// is exact arithmetic rather than a rounding chain.
#[derive(Clone, Copy, Debug)]
pub struct Rat {
    pub num: i128,
    pub den: i128,
}

/// Well-formed: positive denominator.
pub open spec fn rat_wf(r: Rat) -> bool {
    r.den > 0
}

/// The two rationals denote the same value.
pub open spec fn rat_eq(a: Rat, b: Rat) -> bool {
    a.num * b.den == b.num * a.den
}

/// `a <= b` as rational values (both well-formed).
pub open spec fn rat_le(a: Rat, b: Rat) -> bool {
    a.num * b.den <= b.num * a.den
}

/// Numerator and denominator bounded by `b` in magnitude.
pub open spec fn rat_in(r: Rat, b: int) -> bool {
    -b <= r.num <= b && 0 < r.den <= b
}

pub open spec fn spec_rat(num: int, den: int) -> Rat {
    Rat { num: num as i128, den: den as i128 }
}

impl Rat {
    /// The rational `num / den`.
    pub fn new(num: i64, den: i64) -> (r: Rat)
        requires
            den > 0,
        ensures
            r.num == num && r.den == den,
            rat_wf(r),
    {
        Rat { num: num as i128, den: den as i128 }
    }

    /// The rational `n / 1`.
    pub fn of_int(n: i64) -> (r: Rat)
        ensures
            r.num == n && r.den == 1,
            rat_wf(r),
    {
        Rat { num: n as i128, den: 1 }
    }

    pub fn is_zero(&self) -> (r: bool)
        ensures
            r == (self.num == 0),
    {
        self.num == 0
    }
}

/// The rational zero.
pub fn rat_zero() -> (r: Rat)
    ensures
        r.num == 0 && r.den == 1,
{
    Rat { num: 0, den: 1 }
}

/// The rational one.
pub fn rat_one() -> (r: Rat)
    ensures
        r.num == 1 && r.den == 1,
{
    Rat { num: 1, den: 1 }
}

/// Exact product.
pub fn rat_mul(a: Rat, b: Rat) -> (r: Rat)
    requires
        rat_wf(a),
        rat_wf(b),
        i128::MIN <= a.num * b.num <= i128::MAX,
        a.den * b.den <= i128::MAX,
    ensures
        r.num == a.num * b.num,
        r.den == a.den * b.den,
        rat_wf(r),
{
    proof {
        assert(a.den * b.den > 0) by (nonlinear_arith)
            requires
                a.den > 0,
                b.den > 0,
        ;
    }
    Rat { num: a.num * b.num, den: a.den * b.den }
}

/// Exact quotient; the divisor must be nonzero.
pub fn rat_div(a: Rat, b: Rat) -> (r: Rat)
    requires
        rat_wf(a),
        rat_wf(b),
        b.num != 0,
        i128::MIN < a.num * b.den <= i128::MAX,
        i128::MIN < a.den * b.num <= i128::MAX,
        i128::MIN < a.den * b.den,
    ensures
        b.num > 0 ==> r.num == a.num * b.den && r.den == a.den * b.num,
        b.num < 0 ==> r.num == -(a.num * b.den) && r.den == -(a.den * b.num),
        rat_wf(r),
{
    if b.num > 0 {
        proof {
            assert(a.den * b.num > 0) by (nonlinear_arith)
                requires
                    a.den > 0,
                    b.num > 0,
            ;
        }
        Rat { num: a.num * b.den, den: a.den * b.num }
    } else {
        proof {
            assert(a.den * b.num < 0) by (nonlinear_arith)
                requires
                    a.den > 0,
                    b.num < 0,
            ;
        }
        Rat { num: -(a.num * b.den), den: -(a.den * b.num) }
    }
}

/// Exact sum.
pub fn rat_add(a: Rat, b: Rat) -> (r: Rat)
    requires
        rat_wf(a),
        rat_wf(b),
        i128::MIN <= a.num * b.den <= i128::MAX,
        i128::MIN <= b.num * a.den <= i128::MAX,
        i128::MIN <= a.num * b.den + b.num * a.den <= i128::MAX,
        a.den * b.den <= i128::MAX,
    ensures
        r.num == a.num * b.den + b.num * a.den,
        r.den == a.den * b.den,
        rat_wf(r),
{
    proof {
        assert(a.den * b.den > 0) by (nonlinear_arith)
            requires
                a.den > 0,
                b.den > 0,
        ;
    }
    Rat { num: a.num * b.den + b.num * a.den, den: a.den * b.den }
}

/// Exact difference.
pub fn rat_sub(a: Rat, b: Rat) -> (r: Rat)
    requires
        rat_wf(a),
        rat_wf(b),
        i128::MIN <= a.num * b.den <= i128::MAX,
        i128::MIN < b.num * a.den <= i128::MAX,
        i128::MIN <= a.num * b.den - b.num * a.den <= i128::MAX,
        a.den * b.den <= i128::MAX,
    ensures
        r.num == a.num * b.den - b.num * a.den,
        r.den == a.den * b.den,
        rat_wf(r),
{
    proof {
        assert(a.den * b.den > 0) by (nonlinear_arith)
            requires
                a.den > 0,
                b.den > 0,
        ;
    }
    Rat { num: a.num * b.den - b.num * a.den, den: a.den * b.den }
}

/// Exact negation.
pub fn rat_neg(a: Rat) -> (r: Rat)
    requires
        a.num > i128::MIN,
    ensures
        r.num == -a.num,
        r.den == a.den,
{
    Rat { num: -a.num, den: a.den }
}

/// Exact absolute value.
pub fn rat_abs(a: Rat) -> (r: Rat)
    requires
        a.num > i128::MIN,
    ensures
        r.num == (if a.num >= 0 {
            a.num as int
        } else {
            -a.num
        }),
        r.den == a.den,
{
    if a.num >= 0 {
        Rat { num: a.num, den: a.den }
    } else {
        Rat { num: -a.num, den: a.den }
    }
}

/// Two rationals equal in value to a third, nondegenerate one are equal
/// in value to each other.
pub proof fn lemma_rat_eq_trans(x: Rat, y: Rat, r: Rat)
    requires
        rat_eq(x, r),
        rat_eq(y, r),
        r.den != 0,
    ensures
        rat_eq(x, y),
{
    assert(x.num * y.den * r.den == y.num * x.den * r.den) by (nonlinear_arith)
        requires
            x.num * r.den == r.num * x.den,
            y.num * r.den == r.num * y.den,
    ;
    assert(x.num * y.den == y.num * x.den) by (nonlinear_arith)
        requires
            x.num * y.den * r.den == y.num * x.den * r.den,
            r.den != 0,
    ;
}

/// 32.32 fixed-point truncation of a rational toward zero.
pub open spec fn spec_rat_to_fixed(r: Rat) -> int {
    if r.num >= 0 {
        ((r.num as int) * 0x1_0000_0000) / (r.den as int)
    } else {
        -(((-(r.num as int)) * 0x1_0000_0000) / (r.den as int))
    }
}

/// Convert a rational to 32.32 fixed point, truncating toward zero.
pub fn rat_to_fixed(r: Rat) -> (f: i64)
    requires
        rat_wf(r),
        rat_in(r, 0x4000_0000_0000_0000),
        -0x7fff_ffff_ffff_ffff <= spec_rat_to_fixed(r) <= 0x7fff_ffff_ffff_ffff,
    ensures
        f == spec_rat_to_fixed(r),
{
    if r.num >= 0 {
        let wide: i128 = (r.num * 0x1_0000_0000) / r.den;
        proof {
            vstd::arithmetic::div_mod::lemma_div_pos_is_pos(r.num * 0x1_0000_0000, r.den as int);
        }
        wide as i64
    } else {
        let wide: i128 = ((-r.num) * 0x1_0000_0000) / r.den;
        proof {
            vstd::arithmetic::div_mod::lemma_div_pos_is_pos((-r.num) * 0x1_0000_0000, r.den as int);
        }
        -(wide as i64)
    }
}

} // verus!
