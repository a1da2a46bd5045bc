use vstd::prelude::*;

verus! {

/// Scalars throughout the crate are signed 32.32 fixed-point numbers: an
/// `i64` holding the real value scaled by `FP_ONE` = 2^32.
pub const FP_ONE: i64 = 4294967296;

/// `FP_ONE` as an `i128`, for wide intermediate products.
pub const FP_ONE_WIDE: i128 = 4294967296;

/// Floor of the integer square root, as a mathematical function.
pub open spec fn spec_isqrt(x: int) -> int
    decreases x,
{
    if x <= 0 {
        0
    } else {
        let r = spec_isqrt(x - 1);
        if (r + 1) * (r + 1) <= x {
            r + 1
        } else {
            r
        }
    }
}

/// `spec_isqrt` is the floor of the square root.
pub proof fn lemma_spec_isqrt(x: int)
    requires
        x >= 0,
    ensures
        spec_isqrt(x) >= 0,
        spec_isqrt(x) * spec_isqrt(x) <= x,
        x < (spec_isqrt(x) + 1) * (spec_isqrt(x) + 1),
    decreases x,
{
    if x > 0 {
        lemma_spec_isqrt(x - 1);
        let r = spec_isqrt(x - 1);
        if (r + 1) * (r + 1) <= x {
            assert((r + 1) * (r + 1) < (r + 2) * (r + 2)) by (nonlinear_arith)
                requires
                    r >= 0,
            ;
        }
    }
}

/// Floor of the integer square root: the unique `r` with
/// `r * r <= x < (r + 1) * (r + 1)`.
pub fn isqrt(x: u128) -> (r: u64)
    ensures
        r * r <= x,
        x < (r + 1) * (r + 1),
        r == spec_isqrt(x as int),
{
    proof {
        lemma_spec_isqrt(x as int);
    }
    let mut lo: u128 = 0;
    let mut hi: u128 = 0x1_0000_0000_0000_0000;
    proof {
        assert(hi * hi > x) by (nonlinear_arith)
            requires
                hi == 0x1_0000_0000_0000_0000u128,
                x <= u128::MAX,
        ;
    }
    while hi - lo > 1
        invariant
            lo < hi <= 0x1_0000_0000_0000_0000,
            lo * lo <= x,
            hi * hi > x,
        decreases hi - lo,
    {
        let mid: u128 = lo + (hi - lo) / 2;
        proof {
            assert(mid * mid <= u128::MAX) by (nonlinear_arith)
                requires
                    mid < 0x1_0000_0000_0000_0000u128,
            ;
        }
        if mid * mid <= x {
            lo = mid;
        } else {
            hi = mid;
        }
    }
    proof {
        let q: int = spec_isqrt(x as int);
        assert(lo == q) by (nonlinear_arith)
            requires
                lo * lo <= x < (lo + 1) * (lo + 1),
                q >= 0,
                q * q <= x < (q + 1) * (q + 1),
                lo >= 0,
        ;
    }
    lo as u64
}

/// Ceiling of the integer square root: the least `r` with `x <= r * r`.
pub fn isqrt_ceil(x: u128) -> (r: u64)
    requires
        x <= 0xFFFF_FFFF_FFFF_FFFE_0000_0000_0000_0001,
    ensures
        x <= r * r,
        r > 0 ==> (r - 1) * (r - 1) < x,
{
    let f = isqrt(x);
    if f as u128 * f as u128 == x {
        proof {
            assert(f > 0 ==> (f - 1) * (f - 1) < f * f) by (nonlinear_arith);
        }
        f
    } else {
        proof {
            assert(f < u64::MAX) by (nonlinear_arith)
                requires
                    f * f <= x,
                    f * f != x,
                    x <= 0xFFFF_FFFF_FFFF_FFFE_0000_0000_0000_0001u128,
                    f <= u64::MAX,
            ;
        }
        f + 1
    }
}

} // verus!
