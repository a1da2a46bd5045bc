use vstd::prelude::*;

use crate::fixed::{isqrt, spec_isqrt, FP_ONE, FP_ONE_WIDE};
use crate::rational::{
    rat_abs, rat_div, rat_eq, rat_in, rat_to_fixed, rat_wf, rat_zero, spec_rat_to_fixed, Rat,
};
use crate::trig::{
    atan_q, cos_q, sin_q, spec_atan_q, spec_cos_q, spec_sin_q, HALF_ANGLE_MAX_Q,
};

verus! {

/// A 4x4 matrix of exact rationals, column-major: `eCR` is column `C`,
/// row `R`.
#[derive(Clone, Copy, Debug)]
pub struct Mat4R {
    pub e00: Rat,
    pub e01: Rat,
    pub e02: Rat,
    pub e03: Rat,
    pub e10: Rat,
    pub e11: Rat,
    pub e12: Rat,
    pub e13: Rat,
    pub e20: Rat,
    pub e21: Rat,
    pub e22: Rat,
    pub e23: Rat,
    pub e30: Rat,
    pub e31: Rat,
    pub e32: Rat,
    pub e33: Rat,
}

/// A projection entry the cached product can digest: magnitude at most
/// 2^30 as a value, components at most 2^60.
pub open spec fn proj_entry_ok(r: Rat) -> bool {
    &&& rat_wf(r)
    &&& rat_in(r, 0x1000_0000_0000_0000)
    &&& -(r.den * 0x4000_0000) <= r.num <= r.den * 0x4000_0000
}

/// A view entry the cached product can digest: magnitude at most 2^20 as
/// a value, denominator at most 2^24.
pub open spec fn view_entry_ok(r: Rat) -> bool {
    &&& 0 < r.den <= 0x100_0000
    &&& -(r.den * 0x10_0000) <= r.num <= r.den * 0x10_0000
}

pub open spec fn mat_proj_ok(m: Mat4R) -> bool {
    &&& proj_entry_ok(m.e00) && proj_entry_ok(m.e01) && proj_entry_ok(m.e02) && proj_entry_ok(
        m.e03,
    )
    &&& proj_entry_ok(m.e10) && proj_entry_ok(m.e11) && proj_entry_ok(m.e12) && proj_entry_ok(
        m.e13,
    )
    &&& proj_entry_ok(m.e20) && proj_entry_ok(m.e21) && proj_entry_ok(m.e22) && proj_entry_ok(
        m.e23,
    )
    &&& proj_entry_ok(m.e30) && proj_entry_ok(m.e31) && proj_entry_ok(m.e32) && proj_entry_ok(
        m.e33,
    )
}

pub open spec fn mat_view_ok(m: Mat4R) -> bool {
    &&& view_entry_ok(m.e00) && view_entry_ok(m.e01) && view_entry_ok(m.e02) && view_entry_ok(
        m.e03,
    )
    &&& view_entry_ok(m.e10) && view_entry_ok(m.e11) && view_entry_ok(m.e12) && view_entry_ok(
        m.e13,
    )
    &&& view_entry_ok(m.e20) && view_entry_ok(m.e21) && view_entry_ok(m.e22) && view_entry_ok(
        m.e23,
    )
    &&& view_entry_ok(m.e30) && view_entry_ok(m.e31) && view_entry_ok(m.e32) && view_entry_ok(
        m.e33,
    )
}

/// The identity matrix.
pub open spec fn spec_mat_identity() -> Mat4R {
    let zero = Rat { num: 0, den: 1 };
    let one = Rat { num: 1, den: 1 };
    Mat4R {
        e00: one,
        e01: zero,
        e02: zero,
        e03: zero,
        e10: zero,
        e11: one,
        e12: zero,
        e13: zero,
        e20: zero,
        e21: zero,
        e22: one,
        e23: zero,
        e30: zero,
        e31: zero,
        e32: zero,
        e33: one,
    }
}

pub fn mat_identity() -> (m: Mat4R)
    ensures
        m == spec_mat_identity(),
{
    let zero = Rat { num: 0, den: 1 };
    let one = Rat { num: 1, den: 1 };
    Mat4R {
        e00: one,
        e01: zero,
        e02: zero,
        e03: zero,
        e10: zero,
        e11: one,
        e12: zero,
        e13: zero,
        e20: zero,
        e21: zero,
        e22: one,
        e23: zero,
        e30: zero,
        e31: zero,
        e32: zero,
        e33: one,
    }
}

/// Signed fixed-point product: `(a * b) / 2^32` rounded toward zero.
pub open spec fn spec_fmul(a: int, b: int) -> int {
    let ma = if a >= 0 {
        a
    } else {
        -a
    };
    let mb = if b >= 0 {
        b
    } else {
        -b
    };
    if (a < 0) != (b < 0) {
        -((ma * mb) / 0x1_0000_0000)
    } else {
        (ma * mb) / 0x1_0000_0000
    }
}

fn fmul_s(a: i64, b: i64) -> (r: i128)
    requires
        -0x4000_0000_0000_0000 <= a <= 0x4000_0000_0000_0000,
        -0x4000_0000_0000_0000 <= b <= 0x4000_0000_0000_0000,
    ensures
        r == spec_fmul(a as int, b as int),
        -0x1_0000_0000_0000_0000_0000_0000 <= r <= 0x1_0000_0000_0000_0000_0000_0000,
{
    let ma: i128 = if a < 0 {
        -(a as i128)
    } else {
        a as i128
    };
    let mb: i128 = if b < 0 {
        -(b as i128)
    } else {
        b as i128
    };
    proof {
        vstd::arithmetic::mul::lemma_mul_nonnegative(ma as int, mb as int);
        vstd::arithmetic::mul::lemma_mul_inequality(
            mb as int,
            0x4000_0000_0000_0000,
            ma as int,
        );
        vstd::arithmetic::mul::lemma_mul_inequality(
            ma as int,
            0x4000_0000_0000_0000,
            0x4000_0000_0000_0000,
        );
        vstd::arithmetic::div_mod::lemma_div_pos_is_pos((ma as int) * (mb as int), 0x1_0000_0000);
        vstd::arithmetic::div_mod::lemma_div_is_ordered(
            (ma as int) * (mb as int),
            0x4000_0000_0000_0000int * 0x4000_0000_0000_0000,
            0x1_0000_0000,
        );
    }
    let m: i128 = ma * mb / 0x1_0000_0000;
    if (a < 0) != (b < 0) {
        -m
    } else {
        m
    }
}

/// One entry of the cached view-projection product: the four projection
/// row entries against the four view column entries, each truncated to
/// 32.32 fixed point, multiplied and summed in fixed point.
pub open spec fn spec_vp_entry(
    p0: Rat,
    p1: Rat,
    p2: Rat,
    p3: Rat,
    v0: Rat,
    v1: Rat,
    v2: Rat,
    v3: Rat,
) -> Rat {
    let t0 = spec_fmul(spec_rat_to_fixed(p0), spec_rat_to_fixed(v0));
    let t1 = spec_fmul(spec_rat_to_fixed(p1), spec_rat_to_fixed(v1));
    let t2 = spec_fmul(spec_rat_to_fixed(p2), spec_rat_to_fixed(v2));
    let t3 = spec_fmul(spec_rat_to_fixed(p3), spec_rat_to_fixed(v3));
    Rat { num: (t0 + t1 + t2 + t3) as i128, den: 0x1_0000_0000 }
}

/// A value-magnitude bound carries over to the fixed-point form.
proof fn lemma_fixed_value_bound(r: Rat, vb: int)
    requires
        rat_wf(r),
        0 <= vb,
        -(r.den * vb) <= r.num <= r.den * vb,
    ensures
        -(vb * 0x1_0000_0000) <= spec_rat_to_fixed(r) <= vb * 0x1_0000_0000,
{
    let den: int = r.den as int;
    if r.num >= 0 {
        let x: int = (r.num as int) * 0x1_0000_0000;
        vstd::arithmetic::mul::lemma_mul_inequality(r.num as int, den * vb, 0x1_0000_0000);
        assert((den * vb) * 0x1_0000_0000 == den * (vb * 0x1_0000_0000)) by (nonlinear_arith);
        vstd::arithmetic::div_mod::lemma_div_is_ordered(x, den * (vb * 0x1_0000_0000), den);
        vstd::arithmetic::div_mod::lemma_div_multiples_vanish(vb * 0x1_0000_0000, den);
        vstd::arithmetic::div_mod::lemma_div_pos_is_pos(x, den);
    } else {
        let x: int = (-(r.num as int)) * 0x1_0000_0000;
        vstd::arithmetic::mul::lemma_mul_inequality(-(r.num as int), den * vb, 0x1_0000_0000);
        assert((den * vb) * 0x1_0000_0000 == den * (vb * 0x1_0000_0000)) by (nonlinear_arith);
        vstd::arithmetic::div_mod::lemma_div_is_ordered(x, den * (vb * 0x1_0000_0000), den);
        vstd::arithmetic::div_mod::lemma_div_multiples_vanish(vb * 0x1_0000_0000, den);
        vstd::arithmetic::div_mod::lemma_div_pos_is_pos(x, den);
    }
}

fn vp_entry(p0: Rat, p1: Rat, p2: Rat, p3: Rat, v0: Rat, v1: Rat, v2: Rat, v3: Rat) -> (r: Rat)
    requires
        proj_entry_ok(p0),
        proj_entry_ok(p1),
        proj_entry_ok(p2),
        proj_entry_ok(p3),
        view_entry_ok(v0),
        view_entry_ok(v1),
        view_entry_ok(v2),
        view_entry_ok(v3),
    ensures
        r == spec_vp_entry(p0, p1, p2, p3, v0, v1, v2, v3),
        rat_wf(r),
{
    proof {
        lemma_fixed_value_bound(p0, 0x4000_0000);
        lemma_fixed_value_bound(p1, 0x4000_0000);
        lemma_fixed_value_bound(p2, 0x4000_0000);
        lemma_fixed_value_bound(p3, 0x4000_0000);
        lemma_fixed_value_bound(v0, 0x10_0000);
        lemma_fixed_value_bound(v1, 0x10_0000);
        lemma_fixed_value_bound(v2, 0x10_0000);
        lemma_fixed_value_bound(v3, 0x10_0000);
    }
    let a0 = rat_to_fixed(p0);
    let a1 = rat_to_fixed(p1);
    let a2 = rat_to_fixed(p2);
    let a3 = rat_to_fixed(p3);
    let b0 = rat_to_fixed(v0);
    let b1 = rat_to_fixed(v1);
    let b2 = rat_to_fixed(v2);
    let b3 = rat_to_fixed(v3);
    let t0 = fmul_s(a0, b0);
    let t1 = fmul_s(a1, b1);
    let t2 = fmul_s(a2, b2);
    let t3 = fmul_s(a3, b3);
    Rat { num: t0 + t1 + t2 + t3, den: 0x1_0000_0000 }
}

/// The cached product `projection * view`, entry by entry in 32.32 fixed
/// point.
pub open spec fn spec_view_proj(p: Mat4R, v: Mat4R) -> Mat4R {
    Mat4R {
        e00: spec_vp_entry(p.e00, p.e10, p.e20, p.e30, v.e00, v.e01, v.e02, v.e03),
        e01: spec_vp_entry(p.e01, p.e11, p.e21, p.e31, v.e00, v.e01, v.e02, v.e03),
        e02: spec_vp_entry(p.e02, p.e12, p.e22, p.e32, v.e00, v.e01, v.e02, v.e03),
        e03: spec_vp_entry(p.e03, p.e13, p.e23, p.e33, v.e00, v.e01, v.e02, v.e03),
        e10: spec_vp_entry(p.e00, p.e10, p.e20, p.e30, v.e10, v.e11, v.e12, v.e13),
        e11: spec_vp_entry(p.e01, p.e11, p.e21, p.e31, v.e10, v.e11, v.e12, v.e13),
        e12: spec_vp_entry(p.e02, p.e12, p.e22, p.e32, v.e10, v.e11, v.e12, v.e13),
        e13: spec_vp_entry(p.e03, p.e13, p.e23, p.e33, v.e10, v.e11, v.e12, v.e13),
        e20: spec_vp_entry(p.e00, p.e10, p.e20, p.e30, v.e20, v.e21, v.e22, v.e23),
        e21: spec_vp_entry(p.e01, p.e11, p.e21, p.e31, v.e20, v.e21, v.e22, v.e23),
        e22: spec_vp_entry(p.e02, p.e12, p.e22, p.e32, v.e20, v.e21, v.e22, v.e23),
        e23: spec_vp_entry(p.e03, p.e13, p.e23, p.e33, v.e20, v.e21, v.e22, v.e23),
        e30: spec_vp_entry(p.e00, p.e10, p.e20, p.e30, v.e30, v.e31, v.e32, v.e33),
        e31: spec_vp_entry(p.e01, p.e11, p.e21, p.e31, v.e30, v.e31, v.e32, v.e33),
        e32: spec_vp_entry(p.e02, p.e12, p.e22, p.e32, v.e30, v.e31, v.e32, v.e33),
        e33: spec_vp_entry(p.e03, p.e13, p.e23, p.e33, v.e30, v.e31, v.e32, v.e33),
    }
}

/// The scene camera: a projection and a view matrix, plus the cached
/// `projection * view` product, recomputed on every mutation of either.
/// Semantic parameters (field of view, aspect ratio, near distance) are
/// never stored: they are re-derived from the projection matrix on
/// demand, so matrix and parameters cannot drift apart.
pub struct Camera {
    pub projection: Mat4R,
    pub view: Mat4R,
    pub view_proj: Mat4R,
}

/// What every camera operation preserves: both source matrices stay
/// digestible by the cached product.
pub open spec fn camera_wf(c: Camera) -> bool {
    mat_proj_ok(c.projection) && mat_view_ok(c.view)
}

impl Camera {
    fn update(&mut self)
        requires
            camera_wf(*old(self)),
        ensures
            final(self).projection == old(self).projection,
            final(self).view == old(self).view,
            final(self).view_proj == spec_view_proj(old(self).projection, old(self).view),
    {
        let p = self.projection;
        let v = self.view;
        self.view_proj = Mat4R {
            e00: vp_entry(p.e00, p.e10, p.e20, p.e30, v.e00, v.e01, v.e02, v.e03),
            e01: vp_entry(p.e01, p.e11, p.e21, p.e31, v.e00, v.e01, v.e02, v.e03),
            e02: vp_entry(p.e02, p.e12, p.e22, p.e32, v.e00, v.e01, v.e02, v.e03),
            e03: vp_entry(p.e03, p.e13, p.e23, p.e33, v.e00, v.e01, v.e02, v.e03),
            e10: vp_entry(p.e00, p.e10, p.e20, p.e30, v.e10, v.e11, v.e12, v.e13),
            e11: vp_entry(p.e01, p.e11, p.e21, p.e31, v.e10, v.e11, v.e12, v.e13),
            e12: vp_entry(p.e02, p.e12, p.e22, p.e32, v.e10, v.e11, v.e12, v.e13),
            e13: vp_entry(p.e03, p.e13, p.e23, p.e33, v.e10, v.e11, v.e12, v.e13),
            e20: vp_entry(p.e00, p.e10, p.e20, p.e30, v.e20, v.e21, v.e22, v.e23),
            e21: vp_entry(p.e01, p.e11, p.e21, p.e31, v.e20, v.e21, v.e22, v.e23),
            e22: vp_entry(p.e02, p.e12, p.e22, p.e32, v.e20, v.e21, v.e22, v.e23),
            e23: vp_entry(p.e03, p.e13, p.e23, p.e33, v.e20, v.e21, v.e22, v.e23),
            e30: vp_entry(p.e00, p.e10, p.e20, p.e30, v.e30, v.e31, v.e32, v.e33),
            e31: vp_entry(p.e01, p.e11, p.e21, p.e31, v.e30, v.e31, v.e32, v.e33),
            e32: vp_entry(p.e02, p.e12, p.e22, p.e32, v.e30, v.e31, v.e32, v.e33),
            e33: vp_entry(p.e03, p.e13, p.e23, p.e33, v.e30, v.e31, v.e32, v.e33),
        };
    }

    /// Replace the view matrix and refresh the cached product.
    pub fn set_view(&mut self, matrix: &Mat4R)
        requires
            mat_view_ok(*matrix),
            mat_proj_ok(old(self).projection),
        ensures
            final(self).view == *matrix,
            final(self).projection == old(self).projection,
            final(self).view_proj == spec_view_proj(old(self).projection, *matrix),
            camera_wf(*final(self)),
    {
        self.view = *matrix;
        self.update();
    }

    /// Replace the projection matrix and refresh the cached product.
    pub fn set_proj(&mut self, matrix: &Mat4R)
        requires
            mat_proj_ok(*matrix),
            mat_view_ok(old(self).view),
        ensures
            final(self).projection == *matrix,
            final(self).view == old(self).view,
            final(self).view_proj == spec_view_proj(*matrix, old(self).view),
            camera_wf(*final(self)),
    {
        self.projection = *matrix;
        self.update();
    }
}

/// A field-of-view angle the perspective constructor accepts: between
/// 1/128 and 2.8 radians.
pub open spec fn fov_ok(f: Rat) -> bool {
    &&& 0 < f.den <= 0x2_0000_0000
    &&& 128 * f.num >= f.den
    &&& 5 * f.num <= 14 * f.den
}

/// An aspect ratio the perspective constructor accepts: between 1/64
/// and 64, with small components.
pub open spec fn ratio_ok(r: Rat) -> bool {
    &&& 1 <= r.num <= 0x100_0000
    &&& 0 < r.den <= 0x100_0000
    &&& 64 * r.num >= r.den
    &&& r.num <= 64 * r.den
}

/// A near-plane distance the perspective constructor accepts: positive
/// and at most 2^20, with small components.
pub open spec fn near_ok(n: Rat) -> bool {
    &&& 0 < n.den <= 0x100_0000
    &&& 1 <= n.num <= n.den * 0x10_0000
}

/// Half the field-of-view angle, truncated to 32.32 fixed point.
pub open spec fn spec_half_angle(f: Rat) -> int {
    ((f.num as int) * 0x8000_0000) / (f.den as int)
}

proof fn lemma_half_angle_range(f: Rat)
    requires
        fov_ok(f),
    ensures
        0x100_0000 <= spec_half_angle(f) <= HALF_ANGLE_MAX_Q,
{
    let num: int = f.num as int;
    let den: int = f.den as int;
    let x: int = num * 0x8000_0000;
    assert(x >= den * 0x100_0000 && 5 * x <= den * 30064771072 && den * 30064771072 < 5 * (den
        * 6012954215)) by (nonlinear_arith)
        requires
            128 * num >= den,
            5 * num <= 14 * den,
            den > 0,
            x == num * 0x8000_0000,
    ;
    vstd::arithmetic::div_mod::lemma_div_is_ordered(den * 0x100_0000, x, den);
    vstd::arithmetic::div_mod::lemma_div_multiples_vanish(0x100_0000, den);
    assert(x < den * 6012954215);
    assert(x <= den * 6012954214 + (den - 1));
    vstd::arithmetic::div_mod::lemma_div_is_ordered(x, den * 6012954214 + (den - 1), den);
    vstd::arithmetic::div_mod::lemma_div_multiples_vanish_fancy(6012954214, den - 1, den);
}

/// The witnesses of a perspective-formed matrix stay in these ranges:
/// `c`/`s` are the cosine and sine of the half angle, `a`/`b` the aspect
/// ratio's parts, `nn`/`nd` the near distance's parts.
pub open spec fn persp_bounds(c: int, s: int, a: int, b: int, nn: int, nd: int) -> bool {
    &&& 44967296 <= c <= 0x1_0000_0000
    &&& 8388607 <= s <= 0x2_0000_0000
    &&& 1 <= a <= 0x100_0000
    &&& 1 <= b <= 0x100_0000
    &&& a <= 64 * b
    &&& b <= 64 * a
    &&& 0 < nd <= 0x100_0000
    &&& 1 <= nn <= nd * 0x10_0000
}

/// The exact entry layout the perspective constructor produces:
/// `[0][0] = f/ratio`, `[1][1] = f`, `[2][3] = -1`, `[3][2] = near`,
/// zero elsewhere, with `f = cos(h)/sin(h)` for half angle `h`.
pub open spec fn persp_entries(m: Mat4R, c: int, s: int, a: int, b: int, nn: int, nd: int) -> bool {
    let zero = Rat { num: 0, den: 1 };
    m == (Mat4R {
        e00: Rat { num: (c * b) as i128, den: (s * a) as i128 },
        e01: zero,
        e02: zero,
        e03: zero,
        e10: zero,
        e11: Rat { num: c as i128, den: s as i128 },
        e12: zero,
        e13: zero,
        e20: zero,
        e21: zero,
        e22: zero,
        e23: Rat { num: -1i128, den: 1 },
        e30: zero,
        e31: zero,
        e32: Rat { num: nn as i128, den: nd as i128 },
        e33: zero,
    })
}

/// The matrix carries the perspective structure that the parameter
/// accessors invert.
pub open spec fn persp_formed(m: Mat4R) -> bool {
    exists|c: int, s: int, a: int, b: int, nn: int, nd: int|
        persp_bounds(c, s, a, b, nn, nd) && persp_entries(m, c, s, a, b, nn, nd)
}

/// The matrix the perspective constructor returns, entry by entry.
pub open spec fn spec_perspective(fov_y: Rat, ratio: Rat, z_near: Rat) -> Mat4R {
    let h = spec_half_angle(fov_y);
    let s = spec_sin_q(h);
    let c = spec_cos_q(h);
    let zero = Rat { num: 0, den: 1 };
    Mat4R {
        e00: Rat { num: (c * ratio.den) as i128, den: (s * ratio.num) as i128 },
        e01: zero,
        e02: zero,
        e03: zero,
        e10: zero,
        e11: Rat { num: c as i128, den: s as i128 },
        e12: zero,
        e13: zero,
        e20: zero,
        e21: zero,
        e22: zero,
        e23: Rat { num: -1i128, den: 1 },
        e30: zero,
        e31: zero,
        e32: z_near,
        e33: zero,
    }
}

/// The matrix's `[3][3]` entry equals one: the orthographic convention.
pub open spec fn spec_is_ortho(m: Mat4R) -> bool {
    m.e33.num == m.e33.den
}

/// The field of view recovered from a projection matrix: zero for an
/// orthographic one, else `2 * atan(1 / m[1][1])`.
pub open spec fn spec_fov_of(m: Mat4R) -> Rat {
    if spec_is_ortho(m) {
        Rat { num: 0, den: 1 }
    } else {
        Rat {
            num: (2 * spec_atan_q(
                ((m.e11.den as int) * 0x1_0000_0000) / (m.e11.num as int),
            )) as i128,
            den: 0x1_0000_0000,
        }
    }
}

/// The aspect ratio recovered from a projection matrix:
/// `|1 / (m[0][0] / m[1][1])|`.
pub open spec fn spec_ratio_of(m: Mat4R) -> Rat {
    let n: int = (m.e11.num as int) * (m.e00.den as int);
    let d: int = (m.e11.den as int) * (m.e00.num as int);
    Rat {
        num: (if n >= 0 {
            n
        } else {
            -n
        }) as i128,
        den: (if d >= 0 {
            d
        } else {
            -d
        }) as i128,
    }
}

/// The aspect ratio as recovered for a rebuild: the perspective entry
/// layout divides out to the ratio parts exactly.
pub open spec fn spec_recovered_ratio(m: Mat4R) -> Rat {
    Rat {
        num: ((m.e00.den as int) / (m.e11.den as int)) as i128,
        den: ((m.e00.num as int) / (m.e11.num as int)) as i128,
    }
}

/// What reading the field of view back from a perspective matrix built
/// for `fov_y` yields: the arc tangent of the evaluated tangent of the
/// half angle, doubled.
pub open spec fn spec_fov_readback(fov_y: Rat) -> Rat {
    let h = spec_half_angle(fov_y);
    Rat {
        num: (2 * spec_atan_q(
            (spec_sin_q(h) * 0x1_0000_0000) / spec_cos_q(h),
        )) as i128,
        den: 0x1_0000_0000,
    }
}

impl Camera {
    /// The reversed-infinite-far perspective matrix: entries zero except
    /// `[0][0] = f/ratio`, `[1][1] = f`, `[2][3] = -1`, `[3][2] = z_near`,
    /// with `f = 1/tan(fov_y/2)`.  Reading the near distance back is
    /// exact; reading the ratio back is exact as a rational value; the
    /// field of view comes back through the evaluated tangent pair.
    pub fn perspective(fov_y: Rat, ratio: Rat, z_near: Rat) -> (m: Mat4R)
        requires
            fov_ok(fov_y),
            ratio_ok(ratio),
            near_ok(z_near),
        ensures
            m == spec_perspective(fov_y, ratio, z_near),
            persp_formed(m),
            mat_proj_ok(m),
            m.e32 == z_near,
            rat_eq(spec_ratio_of(m), ratio),
            spec_fov_of(m) == spec_fov_readback(fov_y),
    {
        proof {
            lemma_half_angle_range(fov_y);
        }
        let h: i64 = ((fov_y.num * 0x8000_0000) / fov_y.den) as i64;
        let s = sin_q(h);
        let c = cos_q(h);
        proof {
            assert((c as int) * (ratio.den as int) <= 0x1_0000_0000_0000_0000 && (s as int)
                * (ratio.num as int) <= 0x2_0000_0000_0000_0000 && (s as int) * (ratio.num as int)
                >= 8388607 && (c as int) * (ratio.den as int) >= 1) by (nonlinear_arith)
                requires
                    44967296 <= c <= 0x1_0000_0000i64,
                    8388607 <= s <= 0x2_0000_0000i64,
                    1 <= ratio.num <= 0x100_0000i128,
                    1 <= ratio.den <= 0x100_0000i128,
            ;
        }
        let m00 = Rat { num: (c as i128) * ratio.den, den: (s as i128) * ratio.num };
        let m11 = Rat { num: c as i128, den: s as i128 };
        let zero = rat_zero();
        let m = Mat4R {
            e00: m00,
            e01: zero,
            e02: zero,
            e03: zero,
            e10: zero,
            e11: m11,
            e12: zero,
            e13: zero,
            e20: zero,
            e21: zero,
            e22: zero,
            e23: Rat { num: -1i128, den: 1 },
            e30: zero,
            e31: zero,
            e32: z_near,
            e33: zero,
        };
        proof {
            let ci: int = c as int;
            let si: int = s as int;
            let a: int = ratio.num as int;
            let b: int = ratio.den as int;
            assert(persp_bounds(ci, si, a, b, z_near.num as int, z_near.den as int));
            assert(persp_entries(m, ci, si, a, b, z_near.num as int, z_near.den as int));
            // entry magnitudes for the cached product
            assert(1 <= ci * b <= 0x100_0000_0000_0000 && 1 <= si * a <= 0x200_0000_0000_0000
                && ci * b <= (si * a) * 0x4000_0000 && ci <= si * 0x4000_0000)
                by (nonlinear_arith)
                requires
                    44967296 <= ci <= 0x1_0000_0000,
                    8388607 <= si <= 0x2_0000_0000,
                    1 <= a <= 0x100_0000,
                    1 <= b <= 0x100_0000,
                    b <= 64 * a,
            ;
            assert(z_near.num <= z_near.den * 0x4000_0000 && z_near.num <= 0x1000_0000_0000)
                by (nonlinear_arith)
                requires
                    1 <= z_near.num <= z_near.den * 0x10_0000,
                    1 <= z_near.den <= 0x100_0000i128,
            ;
            // the ratio reads back exactly
            assert(0 <= ci * (si * a) <= 0x1000_0000_0000_0000_0000_0000 && 0 <= si * (ci * b)
                <= 0x1000_0000_0000_0000_0000_0000) by (nonlinear_arith)
                requires
                    0 <= ci <= 0x1_0000_0000,
                    0 <= si <= 0x2_0000_0000,
                    0 <= a <= 0x100_0000,
                    0 <= b <= 0x100_0000,
            ;
            assert((ci * (si * a)) * b == a * (si * (ci * b))) by (nonlinear_arith);
        }
        m
    }

    /// Whether the projection is orthographic, by the convention that its
    /// `[3][3]` entry equals one.
    pub fn is_orthographic(&self) -> (r: bool)
        ensures
            r == spec_is_ortho(self.projection),
    {
        self.projection.e33.num == self.projection.e33.den
    }

    /// The near distance stored in the projection's `[3][2]` slot.
    pub fn extract_near(projection: &Mat4R) -> (r: Rat)
        ensures
            r == projection.e32,
    {
        projection.e32
    }

    /// The field of view re-derived from the projection matrix: zero for
    /// an orthographic matrix, else `2 * atan(1 / m[1][1])`.
    pub fn fov(&self) -> (r: Rat)
        requires
            persp_formed(self.projection) || spec_is_ortho(self.projection),
        ensures
            r == spec_fov_of(self.projection),
            rat_wf(r),
    {
        if self.is_orthographic() {
            rat_zero()
        } else {
            proof {
                let (c, s, a, b, nn, nd) = choose|c: int, s: int, a: int, b: int, nn: int, nd: int|
                    persp_bounds(c, s, a, b, nn, nd) && persp_entries(
                        self.projection,
                        c,
                        s,
                        a,
                        b,
                        nn,
                        nd,
                    );
                vstd::arithmetic::div_mod::lemma_div_pos_is_pos(
                    (self.projection.e11.den as int) * 0x1_0000_0000,
                    self.projection.e11.num as int,
                );
                vstd::arithmetic::div_mod::lemma_div_is_ordered_by_denominator(
                    (self.projection.e11.den as int) * 0x1_0000_0000,
                    44967296,
                    self.projection.e11.num as int,
                );
            }
            let t: i64 = ((self.projection.e11.den * FP_ONE_WIDE) / self.projection.e11.num) as i64;
            let half = atan_q(t);
            Rat { num: 2 * (half as i128), den: FP_ONE_WIDE }
        }
    }

    /// The aspect ratio re-derived from the projection matrix:
    /// `|1 / (m[0][0] / m[1][1])|`.
    pub fn ratio(&self) -> (r: Rat)
        requires
            rat_wf(self.projection.e00),
            rat_wf(self.projection.e11),
            rat_in(self.projection.e00, 0x1000_0000_0000_0000),
            rat_in(self.projection.e11, 0x1000_0000_0000_0000),
            self.projection.e00.num != 0,
        ensures
            r == spec_ratio_of(self.projection),
            rat_wf(r),
    {
        let m00 = self.projection.e00;
        let m11 = self.projection.e11;
        proof {
            assert(m11.num * m00.den <= 0x100_0000_0000_0000_0000_0000_0000_0000 && m11.num
                * m00.den >= -0x100_0000_0000_0000_0000_0000_0000_0000 && m11.den * m00.num
                <= 0x100_0000_0000_0000_0000_0000_0000_0000 && m11.den * m00.num
                >= -0x100_0000_0000_0000_0000_0000_0000_0000 && m11.den * m00.den > 0)
                by (nonlinear_arith)
                requires
                    -0x1000_0000_0000_0000 <= m11.num <= 0x1000_0000_0000_0000i128,
                    0 < m11.den <= 0x1000_0000_0000_0000i128,
                    -0x1000_0000_0000_0000 <= m00.num <= 0x1000_0000_0000_0000i128,
                    0 < m00.den <= 0x1000_0000_0000_0000i128,
            ;
        }
        let d = rat_div(m11, m00);
        let r = rat_abs(d);
        proof {
            if m00.num > 0 {
                assert(m11.den * m00.num > 0) by (nonlinear_arith)
                    requires
                        m11.den > 0,
                        m00.num > 0,
                ;
            } else {
                assert(m11.den * m00.num < 0) by (nonlinear_arith)
                    requires
                        m11.den > 0,
                        m00.num < 0,
                ;
            }
        }
        r
    }

    /// Rebuild the projection for a new field of view, re-deriving the
    /// aspect ratio and near distance from the current matrix.  The near
    /// distance is kept bit for bit; the aspect ratio reads back to the
    /// same rational value.
    pub fn set_fov(&mut self, fov: Rat)
        requires
            fov_ok(fov),
            persp_formed(old(self).projection),
            mat_view_ok(old(self).view),
        ensures
            final(self).projection == spec_perspective(
                fov,
                spec_recovered_ratio(old(self).projection),
                old(self).projection.e32,
            ),
            persp_formed(final(self).projection),
            mat_proj_ok(final(self).projection),
            final(self).view == old(self).view,
            final(self).view_proj == spec_view_proj(final(self).projection, old(self).view),
            final(self).projection.e32 == old(self).projection.e32,
            rat_eq(spec_ratio_of(final(self).projection), spec_ratio_of(old(self).projection)),
            spec_fov_of(final(self).projection) == spec_fov_readback(fov),
    {
        let ghost oldm = self.projection;
        proof {
            let (c, s, a, b, nn, nd) = choose|c: int, s: int, a: int, b: int, nn: int, nd: int|
                persp_bounds(c, s, a, b, nn, nd) && persp_entries(oldm, c, s, a, b, nn, nd);
            assert(1 <= c * b <= 0x100_0000_0000_0000 && 1 <= s * a <= 0x200_0000_0000_0000
                && 1 <= nn <= 0x1000_0000_0000) by (nonlinear_arith)
                requires
                    persp_bounds(c, s, a, b, nn, nd),
            ;
            vstd::arithmetic::div_mod::lemma_div_multiples_vanish(b, c);
            vstd::arithmetic::div_mod::lemma_div_multiples_vanish(a, s);
        }
        let m00 = self.projection.e00;
        let m11 = self.projection.e11;
        let b = m00.num / m11.num;
        let a = m00.den / m11.den;
        let ratio_rec = Rat { num: a, den: b };
        let near = self.projection.e32;
        let p = Camera::perspective(fov, ratio_rec, near);
        self.set_proj(&p);
        proof {
            let (c, s, a2, b2, nn, nd) = choose|c: int, s: int, a2: int, b2: int, nn: int, nd: int|
                persp_bounds(c, s, a2, b2, nn, nd) && persp_entries(oldm, c, s, a2, b2, nn, nd);
            // the old matrix's ratio reading also denotes a2 / b2
            assert(0 <= c * (s * a2) <= 0x1000_0000_0000_0000_0000_0000 && 0 <= s * (c * b2)
                <= 0x1000_0000_0000_0000_0000_0000) by (nonlinear_arith)
                requires
                    44967296 <= c <= 0x1_0000_0000,
                    8388607 <= s <= 0x2_0000_0000,
                    1 <= a2 <= 0x100_0000,
                    1 <= b2 <= 0x100_0000,
            ;
            assert((c * (s * a2)) * b2 == a2 * (s * (c * b2))) by (nonlinear_arith);
            assert(rat_eq(spec_ratio_of(oldm), ratio_rec));
            crate::rational::lemma_rat_eq_trans(
                spec_ratio_of(self.projection),
                spec_ratio_of(oldm),
                ratio_rec,
            );
        }
    }

    /// Rebuild the projection for a new aspect ratio, re-deriving the
    /// field of view and near distance from the current matrix.  The near
    /// distance is kept bit for bit; the new ratio reads back to the same
    /// rational value.
    pub fn set_ratio(&mut self, ratio: Rat)
        requires
            ratio_ok(ratio),
            persp_formed(old(self).projection),
            fov_ok(spec_fov_of(old(self).projection)),
            mat_view_ok(old(self).view),
        ensures
            final(self).projection == spec_perspective(
                spec_fov_of(old(self).projection),
                ratio,
                old(self).projection.e32,
            ),
            persp_formed(final(self).projection),
            mat_proj_ok(final(self).projection),
            final(self).view == old(self).view,
            final(self).view_proj == spec_view_proj(final(self).projection, old(self).view),
            final(self).projection.e32 == old(self).projection.e32,
            rat_eq(spec_ratio_of(final(self).projection), ratio),
            spec_fov_of(final(self).projection) == spec_fov_readback(
                spec_fov_of(old(self).projection),
            ),
    {
        proof {
            let (c, s, a, b, nn, nd) = choose|c: int, s: int, a: int, b: int, nn: int, nd: int|
                persp_bounds(c, s, a, b, nn, nd) && persp_entries(
                    old(self).projection,
                    c,
                    s,
                    a,
                    b,
                    nn,
                    nd,
                );
        }
        let f = self.fov();
        let near = Camera::extract_near(&self.projection);
        let p = Camera::perspective(f, ratio, near);
        self.set_proj(&p);
    }
}

/// A direction or position: three rational components.
#[derive(Clone, Copy, Debug)]
pub struct Vec3R {
    pub x: Rat,
    pub y: Rat,
    pub z: Rat,
}

/// One component of a normalized vector: the fixed-point component
/// scaled up and divided by the vector's fixed-point length.
pub open spec fn spec_norm_comp(a: int, len: int) -> int {
    if a >= 0 {
        (a * 0x1_0000_0000) / len
    } else {
        -(((-a) * 0x1_0000_0000) / len)
    }
}

/// The normalized vector of three fixed-point components.
pub open spec fn spec_normalize3(a0: int, a1: int, a2: int) -> Vec3R {
    let len = spec_isqrt(a0 * a0 + a1 * a1 + a2 * a2);
    Vec3R {
        x: Rat { num: spec_norm_comp(a0, len) as i128, den: 0x1_0000_0000 },
        y: Rat { num: spec_norm_comp(a1, len) as i128, den: 0x1_0000_0000 },
        z: Rat { num: spec_norm_comp(a2, len) as i128, den: 0x1_0000_0000 },
    }
}

/// At least one of the three entries is nonzero after fixed-point
/// truncation, so the direction they span can be normalized.
pub open spec fn fx3_nonzero(a: Rat, b: Rat, c: Rat) -> bool {
    spec_rat_to_fixed(a) != 0 || spec_rat_to_fixed(b) != 0 || spec_rat_to_fixed(c) != 0
}

/// A unit-length component stays within one in fixed point.
pub open spec fn unit_comp_ok(r: Rat) -> bool {
    -0x1_0000_0000 <= r.num <= 0x1_0000_0000 && r.den == 0x1_0000_0000
}

pub open spec fn unit_vec_ok(v: Vec3R) -> bool {
    unit_comp_ok(v.x) && unit_comp_ok(v.y) && unit_comp_ok(v.z)
}

fn normalize_fx(v0: Rat, v1: Rat, v2: Rat) -> (r: Vec3R)
    requires
        view_entry_ok(v0),
        view_entry_ok(v1),
        view_entry_ok(v2),
        fx3_nonzero(v0, v1, v2),
    ensures
        r == spec_normalize3(
            spec_rat_to_fixed(v0),
            spec_rat_to_fixed(v1),
            spec_rat_to_fixed(v2),
        ),
        unit_vec_ok(r),
{
    proof {
        lemma_fixed_value_bound(v0, 0x10_0000);
        lemma_fixed_value_bound(v1, 0x10_0000);
        lemma_fixed_value_bound(v2, 0x10_0000);
    }
    let a0 = rat_to_fixed(v0);
    let a1 = rat_to_fixed(v1);
    let a2 = rat_to_fixed(v2);
    let m0: u128 = if a0 < 0 {
        (-(a0 as i128)) as u128
    } else {
        a0 as u128
    };
    let m1: u128 = if a1 < 0 {
        (-(a1 as i128)) as u128
    } else {
        a1 as u128
    };
    let m2: u128 = if a2 < 0 {
        (-(a2 as i128)) as u128
    } else {
        a2 as u128
    };
    proof {
        assert(m0 * m0 <= 0x100_0000_0000_0000_0000_0000_0000 && m1 * m1
            <= 0x100_0000_0000_0000_0000_0000_0000 && m2 * m2
            <= 0x100_0000_0000_0000_0000_0000_0000) by (nonlinear_arith)
            requires
                m0 <= 0x10_0000_0000_0000u128,
                m1 <= 0x10_0000_0000_0000u128,
                m2 <= 0x10_0000_0000_0000u128,
        ;
        assert((m0 as int) * (m0 as int) == (a0 as int) * (a0 as int) && (m1 as int) * (m1 as int)
            == (a1 as int) * (a1 as int) && (m2 as int) * (m2 as int) == (a2 as int) * (a2 as int))
            by (nonlinear_arith)
            requires
                m0 == (if a0 < 0 {
                    -(a0 as int)
                } else {
                    a0 as int
                }),
                m1 == (if a1 < 0 {
                    -(a1 as int)
                } else {
                    a1 as int
                }),
                m2 == (if a2 < 0 {
                    -(a2 as int)
                } else {
                    a2 as int
                }),
        ;
    }
    let n2: u128 = m0 * m0 + m1 * m1 + m2 * m2;
    let len = isqrt(n2);
    proof {
        // the vector is nonzero, so its length is at least one
        assert(n2 >= 1) by (nonlinear_arith)
            requires
                m0 >= 1 || m1 >= 1 || m2 >= 1,
                n2 == m0 * m0 + m1 * m1 + m2 * m2,
        ;
        // each component's magnitude is at most the length
        assert(m0 <= len && m1 <= len && m2 <= len) by (nonlinear_arith)
            requires
                len * len <= n2,
                n2 < (len + 1) * (len + 1),
                n2 == m0 * m0 + m1 * m1 + m2 * m2,
                len >= 0,
        ;
        lemma_norm_div(m0 as int, len as int);
        lemma_norm_div(m1 as int, len as int);
        lemma_norm_div(m2 as int, len as int);
    }
    let lw: i128 = len as i128;
    let c0: i128 = if a0 < 0 {
        -(((-(a0 as i128)) * FP_ONE_WIDE) / lw)
    } else {
        ((a0 as i128) * FP_ONE_WIDE) / lw
    };
    let c1: i128 = if a1 < 0 {
        -(((-(a1 as i128)) * FP_ONE_WIDE) / lw)
    } else {
        ((a1 as i128) * FP_ONE_WIDE) / lw
    };
    let c2: i128 = if a2 < 0 {
        -(((-(a2 as i128)) * FP_ONE_WIDE) / lw)
    } else {
        ((a2 as i128) * FP_ONE_WIDE) / lw
    };
    Vec3R {
        x: Rat { num: c0, den: FP_ONE_WIDE },
        y: Rat { num: c1, den: FP_ONE_WIDE },
        z: Rat { num: c2, den: FP_ONE_WIDE },
    }
}

/// The normalized direction of the vector of three entries.
pub fn normalize3(v0: Rat, v1: Rat, v2: Rat) -> (r: Vec3R)
    requires
        view_entry_ok(v0),
        view_entry_ok(v1),
        view_entry_ok(v2),
        fx3_nonzero(v0, v1, v2),
    ensures
        r == spec_normalize3(
            spec_rat_to_fixed(v0),
            spec_rat_to_fixed(v1),
            spec_rat_to_fixed(v2),
        ),
        unit_vec_ok(r),
{
    normalize_fx(v0, v1, v2)
}

/// The fixed-point length of three fixed-point components.
pub open spec fn spec_len3(a0: int, a1: int, a2: int) -> int {
    spec_isqrt(a0 * a0 + a1 * a1 + a2 * a2)
}

/// The length of the vector of three entries, in 32.32 fixed point.
pub fn length_fx(v0: Rat, v1: Rat, v2: Rat) -> (r: i64)
    requires
        view_entry_ok(v0),
        view_entry_ok(v1),
        view_entry_ok(v2),
    ensures
        r == spec_len3(
            spec_rat_to_fixed(v0),
            spec_rat_to_fixed(v1),
            spec_rat_to_fixed(v2),
        ),
        r >= 0,
{
    proof {
        lemma_fixed_value_bound(v0, 0x10_0000);
        lemma_fixed_value_bound(v1, 0x10_0000);
        lemma_fixed_value_bound(v2, 0x10_0000);
    }
    let a0 = rat_to_fixed(v0);
    let a1 = rat_to_fixed(v1);
    let a2 = rat_to_fixed(v2);
    let m0: u128 = if a0 < 0 {
        (-(a0 as i128)) as u128
    } else {
        a0 as u128
    };
    let m1: u128 = if a1 < 0 {
        (-(a1 as i128)) as u128
    } else {
        a1 as u128
    };
    let m2: u128 = if a2 < 0 {
        (-(a2 as i128)) as u128
    } else {
        a2 as u128
    };
    proof {
        assert(m0 * m0 <= 0x100_0000_0000_0000_0000_0000_0000 && m1 * m1
            <= 0x100_0000_0000_0000_0000_0000_0000 && m2 * m2
            <= 0x100_0000_0000_0000_0000_0000_0000) by (nonlinear_arith)
            requires
                m0 <= 0x10_0000_0000_0000u128,
                m1 <= 0x10_0000_0000_0000u128,
                m2 <= 0x10_0000_0000_0000u128,
        ;
        assert((m0 as int) * (m0 as int) == (a0 as int) * (a0 as int) && (m1 as int) * (m1 as int)
            == (a1 as int) * (a1 as int) && (m2 as int) * (m2 as int) == (a2 as int) * (a2 as int))
            by (nonlinear_arith)
            requires
                m0 == (if a0 < 0 {
                    -(a0 as int)
                } else {
                    a0 as int
                }),
                m1 == (if a1 < 0 {
                    -(a1 as int)
                } else {
                    a1 as int
                }),
                m2 == (if a2 < 0 {
                    -(a2 as int)
                } else {
                    a2 as int
                }),
        ;
    }
    let n2: u128 = m0 * m0 + m1 * m1 + m2 * m2;
    let len = isqrt(n2);
    proof {
        assert(len <= 0x20_0000_0000_0000u64) by (nonlinear_arith)
            requires
                len * len <= n2,
                n2 <= 0x300_0000_0000_0000_0000_0000_0000u128,
        ;
    }
    len as i64
}

/// A magnitude at most the length divides out to at most one.
proof fn lemma_norm_div(m: int, len: int)
    requires
        0 <= m <= len,
        1 <= len,
    ensures
        0 <= (m * 0x1_0000_0000) / len <= 0x1_0000_0000,
{
    vstd::arithmetic::mul::lemma_mul_inequality(m, len, 0x1_0000_0000);
    vstd::arithmetic::div_mod::lemma_div_pos_is_pos(m * 0x1_0000_0000, len);
    vstd::arithmetic::div_mod::lemma_div_is_ordered(m * 0x1_0000_0000, len * 0x1_0000_0000, len);
    vstd::arithmetic::div_mod::lemma_div_multiples_vanish(0x1_0000_0000, len);
}

/// The camera position recovered from the view matrix: the negated sum,
/// over the three axes, of the axis row scaled by the translation slot,
/// in fixed point.
pub open spec fn spec_position_comp(r0: Rat, r1: Rat, r2: Rat, t0: Rat, t1: Rat, t2: Rat) -> Rat {
    let s0 = spec_fmul(spec_rat_to_fixed(r0), spec_rat_to_fixed(t0));
    let s1 = spec_fmul(spec_rat_to_fixed(r1), spec_rat_to_fixed(t1));
    let s2 = spec_fmul(spec_rat_to_fixed(r2), spec_rat_to_fixed(t2));
    Rat { num: (-(s0 + s1 + s2)) as i128, den: 0x1_0000_0000 }
}

pub open spec fn spec_position(v: Mat4R) -> Vec3R {
    Vec3R {
        x: spec_position_comp(v.e00, v.e01, v.e02, v.e30, v.e31, v.e32),
        y: spec_position_comp(v.e10, v.e11, v.e12, v.e30, v.e31, v.e32),
        z: spec_position_comp(v.e20, v.e21, v.e22, v.e30, v.e31, v.e32),
    }
}

fn position_comp(r0: Rat, r1: Rat, r2: Rat, t0: Rat, t1: Rat, t2: Rat) -> (r: Rat)
    requires
        view_entry_ok(r0),
        view_entry_ok(r1),
        view_entry_ok(r2),
        view_entry_ok(t0),
        view_entry_ok(t1),
        view_entry_ok(t2),
    ensures
        r == spec_position_comp(r0, r1, r2, t0, t1, t2),
        rat_wf(r),
{
    proof {
        lemma_fixed_value_bound(r0, 0x10_0000);
        lemma_fixed_value_bound(r1, 0x10_0000);
        lemma_fixed_value_bound(r2, 0x10_0000);
        lemma_fixed_value_bound(t0, 0x10_0000);
        lemma_fixed_value_bound(t1, 0x10_0000);
        lemma_fixed_value_bound(t2, 0x10_0000);
    }
    let s0 = fmul_s(rat_to_fixed(r0), rat_to_fixed(t0));
    let s1 = fmul_s(rat_to_fixed(r1), rat_to_fixed(t1));
    let s2 = fmul_s(rat_to_fixed(r2), rat_to_fixed(t2));
    Rat { num: -(s0 + s1 + s2), den: FP_ONE_WIDE }
}

/// The camera basis direction spec forms: the view matrix's rotation rows
/// normalized; the forward direction is negated, as the camera looks down
/// its negative axis.
pub open spec fn spec_right_of(v: Mat4R) -> Vec3R {
    spec_normalize3(
        spec_rat_to_fixed(v.e00),
        spec_rat_to_fixed(v.e10),
        spec_rat_to_fixed(v.e20),
    )
}

pub open spec fn spec_up_of(v: Mat4R) -> Vec3R {
    spec_normalize3(
        spec_rat_to_fixed(v.e01),
        spec_rat_to_fixed(v.e11),
        spec_rat_to_fixed(v.e21),
    )
}

pub open spec fn spec_neg3(v: Vec3R) -> Vec3R {
    Vec3R {
        x: Rat { num: (-v.x.num) as i128, den: v.x.den },
        y: Rat { num: (-v.y.num) as i128, den: v.y.den },
        z: Rat { num: (-v.z.num) as i128, den: v.z.den },
    }
}

pub open spec fn spec_forward_of(v: Mat4R) -> Vec3R {
    spec_neg3(
        spec_normalize3(
            spec_rat_to_fixed(v.e02),
            spec_rat_to_fixed(v.e12),
            spec_rat_to_fixed(v.e22),
        ),
    )
}

impl Camera {
    /// The camera position, recovered from the view matrix by undoing its
    /// inverse-translation encoding.
    pub fn position(&self) -> (r: Vec3R)
        requires
            mat_view_ok(self.view),
        ensures
            r == spec_position(self.view),
    {
        let v = &self.view;
        Vec3R {
            x: position_comp(v.e00, v.e01, v.e02, v.e30, v.e31, v.e32),
            y: position_comp(v.e10, v.e11, v.e12, v.e30, v.e31, v.e32),
            z: position_comp(v.e20, v.e21, v.e22, v.e30, v.e31, v.e32),
        }
    }

    /// The normalized forward direction: the negated third rotation row of
    /// the view matrix.
    pub fn forward(&self) -> (r: Vec3R)
        requires
            mat_view_ok(self.view),
            fx3_nonzero(self.view.e02, self.view.e12, self.view.e22),
        ensures
            r == spec_forward_of(self.view),
            unit_vec_ok(r),
    {
        let n = normalize_fx(self.view.e02, self.view.e12, self.view.e22);
        Vec3R {
            x: Rat { num: -n.x.num, den: n.x.den },
            y: Rat { num: -n.y.num, den: n.y.den },
            z: Rat { num: -n.z.num, den: n.z.den },
        }
    }

    /// The normalized right direction: the first rotation row of the view
    /// matrix.
    pub fn right(&self) -> (r: Vec3R)
        requires
            mat_view_ok(self.view),
            fx3_nonzero(self.view.e00, self.view.e10, self.view.e20),
        ensures
            r == spec_right_of(self.view),
            unit_vec_ok(r),
    {
        normalize_fx(self.view.e00, self.view.e10, self.view.e20)
    }

    /// The normalized up direction: the second rotation row of the view
    /// matrix.
    pub fn up(&self) -> (r: Vec3R)
        requires
            mat_view_ok(self.view),
            fx3_nonzero(self.view.e01, self.view.e11, self.view.e21),
        ensures
            r == spec_up_of(self.view),
            unit_vec_ok(r),
    {
        normalize_fx(self.view.e01, self.view.e11, self.view.e21)
    }

    /// A camera with a 60-degree, 16:9, 1/1000-near perspective
    /// projection, looking from (2, 2, 2) at the origin with `y` up.
    pub fn new() -> (c: Camera)
        ensures
            c.projection == spec_perspective(
                Rat { num: 1047198, den: 1000000 },
                Rat { num: 16, den: 9 },
                Rat { num: 1, den: 1000 },
            ),
            persp_formed(c.projection),
            c.view == spec_default_view(),
            c.view_proj == spec_view_proj(c.projection, c.view),
            camera_wf(c),
    {
        let fov = Rat { num: 1047198, den: 1000000 };
        let ratio = Rat { num: 16, den: 9 };
        let near = Rat { num: 1, den: 1000 };
        let projection = Camera::perspective(fov, ratio, near);
        let mut c = Camera { projection, view: default_view(), view_proj: mat_identity() };
        c.update();
        c
    }
}

/// The default view: looking from (2, 2, 2) at the origin with `y` up,
/// as rationals.  The basis rows hold 1/sqrt(2), 1/sqrt(6) and 1/sqrt(3)
/// to six decimal places; the translation slot holds -2*sqrt(3), the
/// eye's distance along the forward axis, negated.
pub open spec fn spec_default_view() -> Mat4R {
    let zero = Rat { num: 0, den: 1 };
    Mat4R {
        e00: Rat { num: 707107, den: 1000000 },
        e01: Rat { num: -408248i128, den: 1000000 },
        e02: Rat { num: 577350, den: 1000000 },
        e03: zero,
        e10: zero,
        e11: Rat { num: 816497, den: 1000000 },
        e12: Rat { num: 577350, den: 1000000 },
        e13: zero,
        e20: Rat { num: -707107i128, den: 1000000 },
        e21: Rat { num: -408248i128, den: 1000000 },
        e22: Rat { num: 577350, den: 1000000 },
        e23: zero,
        e30: zero,
        e31: zero,
        e32: Rat { num: -3464102i128, den: 1000000 },
        e33: Rat { num: 1, den: 1 },
    }
}

pub fn default_view() -> (m: Mat4R)
    ensures
        m == spec_default_view(),
        mat_view_ok(m),
{
    let zero = rat_zero();
    Mat4R {
        e00: Rat { num: 707107, den: 1000000 },
        e01: Rat { num: -408248, den: 1000000 },
        e02: Rat { num: 577350, den: 1000000 },
        e03: zero,
        e10: zero,
        e11: Rat { num: 816497, den: 1000000 },
        e12: Rat { num: 577350, den: 1000000 },
        e13: zero,
        e20: Rat { num: -707107, den: 1000000 },
        e21: Rat { num: -408248, den: 1000000 },
        e22: Rat { num: 577350, den: 1000000 },
        e23: zero,
        e30: zero,
        e31: zero,
        e32: Rat { num: -3464102, den: 1000000 },
        e33: Rat { num: 1, den: 1 },
    }
}

impl Default for Camera {
    /// The same camera `new` builds.
    fn default() -> (c: Self)
        ensures
            persp_formed(c.projection),
            c.view == spec_default_view(),
            c.view_proj == spec_view_proj(c.projection, c.view),
            camera_wf(c),
    {
        Camera::new()
    }
}

/// The five inward-pointing plane normals of the view frustum.  There is
/// no far plane: the projection has an infinite far distance by design.
#[derive(Clone, Copy, Debug)]
pub struct Frustum {
    pub near_normal: Vec3R,
    pub top_normal: Vec3R,
    pub bottom_normal: Vec3R,
    pub right_normal: Vec3R,
    pub left_normal: Vec3R,
}

/// A unit-sized component scaled by a fixed-point factor stays small.
proof fn lemma_unit_scale_bound(n: int, k: int)
    requires
        -0x1_0000_0000 <= n <= 0x1_0000_0000,
        -0x2_0000_0000 <= k <= 0x2_0000_0000,
    ensures
        -0x2_0000_0000_0000_0000 <= n * k <= 0x2_0000_0000_0000_0000,
        n * (-k) == -(n * k),
{
    assert(-0x2_0000_0000_0000_0000 <= n * k <= 0x2_0000_0000_0000_0000 && n * (-k) == -(n * k))
        by (nonlinear_arith)
        requires
            -0x1_0000_0000 <= n <= 0x1_0000_0000,
            -0x2_0000_0000 <= k <= 0x2_0000_0000,
    ;
}

/// `u * su + v * sv` componentwise, with the scale factors in 32.32
/// fixed point: exact rational linear combination of two unit vectors.
pub open spec fn spec_comb3(u: Vec3R, su: int, v: Vec3R, sv: int) -> Vec3R {
    Vec3R {
        x: Rat {
            num: ((u.x.num as int) * su + (v.x.num as int) * sv) as i128,
            den: 0x1_0000_0000_0000_0000,
        },
        y: Rat {
            num: ((u.y.num as int) * su + (v.y.num as int) * sv) as i128,
            den: 0x1_0000_0000_0000_0000,
        },
        z: Rat {
            num: ((u.z.num as int) * su + (v.z.num as int) * sv) as i128,
            den: 0x1_0000_0000_0000_0000,
        },
    }
}

fn comb3(u: Vec3R, su: i64, v: Vec3R, sv: i64) -> (r: Vec3R)
    requires
        unit_vec_ok(u),
        unit_vec_ok(v),
        -0x2_0000_0000 <= su <= 0x2_0000_0000,
        -0x2_0000_0000 <= sv <= 0x2_0000_0000,
    ensures
        r == spec_comb3(u, su as int, v, sv as int),
{
    proof {
        assert(-0x4_0000_0000_0000_0000 <= u.x.num * su <= 0x4_0000_0000_0000_0000
            && -0x4_0000_0000_0000_0000 <= u.y.num * su <= 0x4_0000_0000_0000_0000
            && -0x4_0000_0000_0000_0000 <= u.z.num * su <= 0x4_0000_0000_0000_0000
            && -0x4_0000_0000_0000_0000 <= v.x.num * sv <= 0x4_0000_0000_0000_0000
            && -0x4_0000_0000_0000_0000 <= v.y.num * sv <= 0x4_0000_0000_0000_0000
            && -0x4_0000_0000_0000_0000 <= v.z.num * sv <= 0x4_0000_0000_0000_0000)
            by (nonlinear_arith)
            requires
                -0x1_0000_0000 <= u.x.num <= 0x1_0000_0000i128,
                -0x1_0000_0000 <= u.y.num <= 0x1_0000_0000i128,
                -0x1_0000_0000 <= u.z.num <= 0x1_0000_0000i128,
                -0x1_0000_0000 <= v.x.num <= 0x1_0000_0000i128,
                -0x1_0000_0000 <= v.y.num <= 0x1_0000_0000i128,
                -0x1_0000_0000 <= v.z.num <= 0x1_0000_0000i128,
                -0x2_0000_0000 <= su <= 0x2_0000_0000i64,
                -0x2_0000_0000 <= sv <= 0x2_0000_0000i64,
        ;
    }
    let suw: i128 = su as i128;
    let svw: i128 = sv as i128;
    Vec3R {
        x: Rat { num: u.x.num * suw + v.x.num * svw, den: 0x1_0000_0000_0000_0000 },
        y: Rat { num: u.y.num * suw + v.y.num * svw, den: 0x1_0000_0000_0000_0000 },
        z: Rat { num: u.z.num * suw + v.z.num * svw, den: 0x1_0000_0000_0000_0000 },
    }
}

/// Half the field of view read back from the projection, in fixed point.
pub open spec fn spec_half_fov(m: Mat4R) -> int {
    (spec_fov_of(m).num as int) / 2
}

/// Sine and cosine of the recovered half field of view.
pub open spec fn spec_hsin(m: Mat4R) -> int {
    spec_sin_q(spec_half_fov(m))
}

pub open spec fn spec_hcos(m: Mat4R) -> int {
    spec_cos_q(spec_half_fov(m))
}

/// The horizontal half angle: `atan(tan(half fov) * ratio)`, evaluated on
/// the recovered ratio parts.
pub open spec fn spec_half_fov_h(m: Mat4R) -> int {
    let a = (m.e00.den as int) / (m.e11.den as int);
    let b = (m.e00.num as int) / (m.e11.num as int);
    let tv = Rat { num: (spec_hsin(m) * a) as i128, den: (spec_hcos(m) * b) as i128 };
    spec_atan_q(spec_rat_to_fixed(tv))
}

pub open spec fn spec_vsin(m: Mat4R) -> int {
    spec_sin_q(spec_half_fov_h(m))
}

pub open spec fn spec_vcos(m: Mat4R) -> int {
    spec_cos_q(spec_half_fov_h(m))
}

/// The frustum the camera produces: the near normal is the forward
/// direction; each side normal is a linear combination of the forward
/// direction and the relevant basis direction, weighted by the sine and
/// cosine of the half angle, all pointing inward.
pub open spec fn spec_build_frustum(c: Camera) -> Frustum {
    let fwd = spec_forward_of(c.view);
    let up = spec_up_of(c.view);
    let rgt = spec_right_of(c.view);
    let s = spec_hsin(c.projection);
    let co = spec_hcos(c.projection);
    let sv = spec_vsin(c.projection);
    let cv = spec_vcos(c.projection);
    Frustum {
        near_normal: fwd,
        top_normal: spec_comb3(fwd, s, up, -co),
        bottom_normal: spec_comb3(fwd, s, up, co),
        right_normal: spec_comb3(fwd, sv, rgt, -cv),
        left_normal: spec_comb3(fwd, sv, rgt, cv),
    }
}

impl Camera {
    /// Derive the five inward frustum plane normals from the camera basis
    /// and the recovered field of view.  Opposite side normals are exactly
    /// symmetric: top and bottom sum to twice the forward direction scaled
    /// by the half-angle sine, and differ by twice the up direction scaled
    /// by the half-angle cosine; left and right behave alike about the
    /// right direction.
    pub fn build_frustum(&self) -> (f: Frustum)
        requires
            mat_view_ok(self.view),
            persp_formed(self.projection),
            fov_ok(spec_fov_of(self.projection)),
            fx3_nonzero(self.view.e02, self.view.e12, self.view.e22),
            fx3_nonzero(self.view.e00, self.view.e10, self.view.e20),
            fx3_nonzero(self.view.e01, self.view.e11, self.view.e21),
        ensures
            f == spec_build_frustum(*self),
            f.near_normal == spec_forward_of(self.view),
            f.top_normal.x.num + f.bottom_normal.x.num == 2 * (spec_forward_of(self.view).x.num
                * spec_hsin(self.projection)),
            f.top_normal.y.num + f.bottom_normal.y.num == 2 * (spec_forward_of(self.view).y.num
                * spec_hsin(self.projection)),
            f.top_normal.z.num + f.bottom_normal.z.num == 2 * (spec_forward_of(self.view).z.num
                * spec_hsin(self.projection)),
            f.bottom_normal.x.num - f.top_normal.x.num == 2 * (spec_up_of(self.view).x.num
                * spec_hcos(self.projection)),
            f.bottom_normal.y.num - f.top_normal.y.num == 2 * (spec_up_of(self.view).y.num
                * spec_hcos(self.projection)),
            f.bottom_normal.z.num - f.top_normal.z.num == 2 * (spec_up_of(self.view).z.num
                * spec_hcos(self.projection)),
            f.right_normal.x.num + f.left_normal.x.num == 2 * (spec_forward_of(self.view).x.num
                * spec_vsin(self.projection)),
            f.right_normal.y.num + f.left_normal.y.num == 2 * (spec_forward_of(self.view).y.num
                * spec_vsin(self.projection)),
            f.right_normal.z.num + f.left_normal.z.num == 2 * (spec_forward_of(self.view).z.num
                * spec_vsin(self.projection)),
            f.left_normal.x.num - f.right_normal.x.num == 2 * (spec_right_of(self.view).x.num
                * spec_vcos(self.projection)),
            f.left_normal.y.num - f.right_normal.y.num == 2 * (spec_right_of(self.view).y.num
                * spec_vcos(self.projection)),
            f.left_normal.z.num - f.right_normal.z.num == 2 * (spec_right_of(self.view).z.num
                * spec_vcos(self.projection)),
            f.top_normal.x.den == f.bottom_normal.x.den && f.left_normal.x.den
                == f.right_normal.x.den,
    {
        let camera_up = self.up();
        let camera_right = self.right();
        let camera_forward = self.forward();
        proof {
            let (c0, s0, a0, b0, nn, nd) = choose|c0: int, s0: int, a0: int, b0: int, nn: int, nd: int|
                persp_bounds(c0, s0, a0, b0, nn, nd) && persp_entries(
                    self.projection,
                    c0,
                    s0,
                    a0,
                    b0,
                    nn,
                    nd,
                );
            assert(1 <= c0 * b0 <= 0x100_0000_0000_0000 && 1 <= s0 * a0 <= 0x200_0000_0000_0000)
                by (nonlinear_arith)
                requires
                    persp_bounds(c0, s0, a0, b0, nn, nd),
            ;
            vstd::arithmetic::div_mod::lemma_div_multiples_vanish(b0, c0);
            vstd::arithmetic::div_mod::lemma_div_multiples_vanish(a0, s0);
            assert(!spec_is_ortho(self.projection));
        }
        let fov_r = self.fov();
        let half_fov: i64 = (fov_r.num / 2) as i64;
        let s = sin_q(half_fov);
        let co = cos_q(half_fov);
        let m00 = self.projection.e00;
        let m11 = self.projection.e11;
        let b = m00.num / m11.num;
        let a = m00.den / m11.den;
        proof {
            assert((s as i128) * a <= 0x200_0000_0000_0000 && 1 <= (co as i128) * b
                <= 0x100_0000_0000_0000 && 0 <= (s as i128) * a) by (nonlinear_arith)
                requires
                    0 <= s <= 6800000000i64,
                    44967296 <= co <= 0x1_0000_0000i64,
                    1 <= a <= 0x100_0000i128,
                    1 <= b <= 0x100_0000i128,
            ;
        }
        let tv = Rat { num: (s as i128) * a, den: (co as i128) * b };
        proof {
            assert(s <= 134 * co) by (nonlinear_arith)
                requires
                    0 <= s <= 6012954214i64,
                    44967296 <= co,
            ;
            // the tangent-times-ratio value stays below 8576, so its
            // fixed-point form fits comfortably
            assert(tv.num <= tv.den * 8576) by (nonlinear_arith)
                requires
                    tv.num == (s as i128) * a,
                    tv.den == (co as i128) * b,
                    0 <= s,
                    44967296 <= co,
                    1 <= a <= 0x100_0000i128,
                    1 <= b <= 0x100_0000i128,
                    a <= 64 * b,
                    s <= 134 * co,
            ;
            lemma_fixed_value_bound(tv, 8576);
        }
        let tfx = rat_to_fixed(tv);
        let half_fov_v = crate::trig::atan_q(tfx);
        let s_v = sin_q(half_fov_v);
        let c_v = cos_q(half_fov_v);
        proof {
            lemma_unit_scale_bound(camera_forward.x.num as int, s as int);
            lemma_unit_scale_bound(camera_forward.y.num as int, s as int);
            lemma_unit_scale_bound(camera_forward.z.num as int, s as int);
            lemma_unit_scale_bound(camera_up.x.num as int, co as int);
            lemma_unit_scale_bound(camera_up.y.num as int, co as int);
            lemma_unit_scale_bound(camera_up.z.num as int, co as int);
            lemma_unit_scale_bound(camera_forward.x.num as int, s_v as int);
            lemma_unit_scale_bound(camera_forward.y.num as int, s_v as int);
            lemma_unit_scale_bound(camera_forward.z.num as int, s_v as int);
            lemma_unit_scale_bound(camera_right.x.num as int, c_v as int);
            lemma_unit_scale_bound(camera_right.y.num as int, c_v as int);
            lemma_unit_scale_bound(camera_right.z.num as int, c_v as int);
        }
        Frustum {
            near_normal: camera_forward,
            top_normal: comb3(camera_forward, s, camera_up, -co),
            bottom_normal: comb3(camera_forward, s, camera_up, co),
            right_normal: comb3(camera_forward, s_v, camera_right, -c_v),
            left_normal: comb3(camera_forward, s_v, camera_right, c_v),
        }
    }
}

} // verus!
