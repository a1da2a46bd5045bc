use vstd::prelude::*;

use crate::fixed::{isqrt_ceil, FP_ONE};

verus! {

/// Largest coordinate magnitude the bounds tracker accepts, 2^60 in 32.32
/// fixed-point units.  Keeps every squared distance inside `u128`.
pub const COORD_MAX: i64 = 1152921504606846976;

/// A position, normal or color: three 32.32 fixed-point components.
#[derive(Clone, Copy, Debug, PartialEq, Eq, Structural)]
pub struct Vec3F {
    pub x: i64,
    pub y: i64,
    pub z: i64,
}

pub open spec fn coord_ok(c: i64) -> bool {
    -COORD_MAX <= c <= COORD_MAX
}

pub open spec fn vec3_ok(v: Vec3F) -> bool {
    coord_ok(v.x) && coord_ok(v.y) && coord_ok(v.z)
}

/// One component of the normalized form of a fixed-point vector.
pub open spec fn spec_norm_v3f_comp(c: int, len: int) -> int {
    if c >= 0 {
        (c * 0x1_0000_0000) / len
    } else {
        -(((-c) * 0x1_0000_0000) / len)
    }
}

/// The normalized form of a nonzero fixed-point vector: each component
/// scaled by one over the vector's length.
pub open spec fn spec_normalized(v: Vec3F) -> Vec3F {
    let len = crate::fixed::spec_isqrt(
        (v.x as int) * (v.x as int) + (v.y as int) * (v.y as int) + (v.z as int) * (v.z as int),
    );
    Vec3F {
        x: spec_norm_v3f_comp(v.x as int, len) as i64,
        y: spec_norm_v3f_comp(v.y as int, len) as i64,
        z: spec_norm_v3f_comp(v.z as int, len) as i64,
    }
}

/// Normalize a nonzero fixed-point vector.
pub fn normalized(v: Vec3F) -> (r: Vec3F)
    requires
        vec3_ok(v),
        v.x != 0 || v.y != 0 || v.z != 0,
    ensures
        r == spec_normalized(v),
        -FP_ONE <= r.x <= FP_ONE,
        -FP_ONE <= r.y <= FP_ONE,
        -FP_ONE <= r.z <= FP_ONE,
{
    let mx: u128 = if v.x < 0 {
        (-(v.x as i128)) as u128
    } else {
        v.x as u128
    };
    let my: u128 = if v.y < 0 {
        (-(v.y as i128)) as u128
    } else {
        v.y as u128
    };
    let mz: u128 = if v.z < 0 {
        (-(v.z as i128)) as u128
    } else {
        v.z as u128
    };
    proof {
        assert(mx * mx <= 0x10000000000000000000000000000000u128 && my * my
            <= 0x10000000000000000000000000000000u128 && mz * mz
            <= 0x10000000000000000000000000000000u128 && (mx >= 1 || my >= 1 || mz >= 1))
            by (nonlinear_arith)
            requires
                mx <= 0x1000_0000_0000_0000u128,
                my <= 0x1000_0000_0000_0000u128,
                mz <= 0x1000_0000_0000_0000u128,
                mx >= 1 || my >= 1 || mz >= 1,
        ;
        assert((mx as int) * (mx as int) == (v.x as int) * (v.x as int) && (my as int) * (my as int)
            == (v.y as int) * (v.y as int) && (mz as int) * (mz as int) == (v.z as int) * (
        v.z as int)) by (nonlinear_arith)
            requires
                mx == (if v.x < 0 {
                    -(v.x as int)
                } else {
                    v.x as int
                }),
                my == (if v.y < 0 {
                    -(v.y as int)
                } else {
                    v.y as int
                }),
                mz == (if v.z < 0 {
                    -(v.z as int)
                } else {
                    v.z as int
                }),
        ;
    }
    let n2: u128 = mx * mx + my * my + mz * mz;
    let len = crate::fixed::isqrt(n2);
    proof {
        assert(n2 >= 1) by (nonlinear_arith)
            requires
                mx >= 1 || my >= 1 || mz >= 1,
                n2 == mx * mx + my * my + mz * mz,
        ;
        assert(mx <= len && my <= len && mz <= len) by (nonlinear_arith)
            requires
                len * len <= n2,
                n2 < (len + 1) * (len + 1),
                n2 == mx * mx + my * my + mz * mz,
                len >= 0,
        ;
        lemma_norm_v3f_div(mx as int, len as int);
        lemma_norm_v3f_div(my as int, len as int);
        lemma_norm_v3f_div(mz as int, len as int);
    }
    let lw: i128 = len as i128;
    let cx: i64 = if v.x < 0 {
        (-(((-(v.x as i128)) * 0x1_0000_0000) / lw)) as i64
    } else {
        (((v.x as i128) * 0x1_0000_0000) / lw) as i64
    };
    let cy: i64 = if v.y < 0 {
        (-(((-(v.y as i128)) * 0x1_0000_0000) / lw)) as i64
    } else {
        (((v.y as i128) * 0x1_0000_0000) / lw) as i64
    };
    let cz: i64 = if v.z < 0 {
        (-(((-(v.z as i128)) * 0x1_0000_0000) / lw)) as i64
    } else {
        (((v.z as i128) * 0x1_0000_0000) / lw) as i64
    };
    Vec3F { x: cx, y: cy, z: cz }
}

/// A magnitude at most the length divides out to at most one.
proof fn lemma_norm_v3f_div(m: int, len: int)
    requires
        0 <= m <= len,
        1 <= len,
    ensures
        0 <= (m * 0x1_0000_0000) / len <= 0x1_0000_0000,
{
    vstd::arithmetic::mul::lemma_mul_inequality(m, len, 0x1_0000_0000);
    vstd::arithmetic::div_mod::lemma_div_pos_is_pos(m * 0x1_0000_0000, len);
    vstd::arithmetic::div_mod::lemma_div_is_ordered(m * 0x1_0000_0000, len * 0x1_0000_0000, len);
    vstd::arithmetic::div_mod::lemma_div_multiples_vanish(0x1_0000_0000, len);
}

/// Zero positions were handed to the bounds tracker; bounds are undefined
/// for an empty mesh, so construction is aborted.
#[derive(Clone, Copy, Debug, PartialEq, Eq, Structural)]
pub struct EmptyInputError;

/// The minimum and maximum seen so far along one axis.
#[derive(Clone, Copy, Debug, PartialEq, Eq, Structural)]
pub struct Extent {
    pub min: i64,
    pub max: i64,
}

impl Extent {
    pub open spec fn wf(self) -> bool {
        self.min <= self.max
    }

    /// The extent of a single value.
    pub fn of(value: i64) -> (r: Extent)
        ensures
            r == (Extent { min: value, max: value }),
    {
        Extent { min: value, max: value }
    }

    /// Widen the extent so that it also covers `v`.
    pub fn stretch_to(&mut self, v: i64)
        requires
            old(self).wf(),
        ensures
            *final(self) == stretch_extent(*old(self), v),
    {
        if v < self.min {
            self.min = v;
        } else if v > self.max {
            self.max = v;
        }
    }
}

pub open spec fn stretch_extent(e: Extent, v: i64) -> Extent {
    Extent {
        min: if v < e.min {
            v
        } else {
            e.min
        },
        max: if v > e.max {
            v
        } else {
            e.max
        },
    }
}

/// Axis-aligned extents of a set of positions: one `Extent` per axis.
#[derive(Clone, Copy, Debug, PartialEq, Eq, Structural)]
pub struct Bounds {
    pub x: Extent,
    pub y: Extent,
    pub z: Extent,
}

pub open spec fn bounds_wf(b: Bounds) -> bool {
    &&& b.x.wf()
    &&& b.y.wf()
    &&& b.z.wf()
    &&& coord_ok(b.x.min) && coord_ok(b.x.max)
    &&& coord_ok(b.y.min) && coord_ok(b.y.max)
    &&& coord_ok(b.z.min) && coord_ok(b.z.max)
}

/// `v` lies inside the box `b` (inclusive).
pub open spec fn bounds_contain(b: Bounds, v: Vec3F) -> bool {
    &&& b.x.min <= v.x <= b.x.max
    &&& b.y.min <= v.y <= b.y.max
    &&& b.z.min <= v.z <= b.z.max
}

pub open spec fn bounds_of_one(v: Vec3F) -> Bounds {
    Bounds {
        x: Extent { min: v.x, max: v.x },
        y: Extent { min: v.y, max: v.y },
        z: Extent { min: v.z, max: v.z },
    }
}

pub open spec fn stretch_bounds(b: Bounds, v: Vec3F) -> Bounds {
    Bounds { x: stretch_extent(b.x, v.x), y: stretch_extent(b.y, v.y), z: stretch_extent(b.z, v.z) }
}

/// The extents of a non-empty sequence of positions, first to last.
pub open spec fn bounds_of(s: Seq<Vec3F>) -> Bounds
    recommends
        s.len() > 0,
    decreases s.len(),
{
    if s.len() <= 1 {
        bounds_of_one(s[0])
    } else {
        stretch_bounds(bounds_of(s.drop_last()), s.last())
    }
}

impl Bounds {
    /// Track the axis-aligned extents of every given position.
    /// Fails if, and only if, no position is given.
    pub fn new(positions: &Vec<Vec3F>) -> (r: Result<Bounds, EmptyInputError>)
        ensures
            r is Ok <==> positions@.len() > 0,
            r is Ok ==> r->Ok_0 == bounds_of(positions@),
    {
        if positions.len() == 0 {
            return Err(EmptyInputError);
        }
        let first = positions[0];
        let mut b = Bounds { x: Extent::of(first.x), y: Extent::of(first.y), z: Extent::of(first.z) };
        assert(positions@.take(1) =~= seq![first]);
        let mut i: usize = 1;
        while i < positions.len()
            invariant
                1 <= i <= positions@.len(),
                b == bounds_of(positions@.take(i as int)),
                b.x.wf() && b.y.wf() && b.z.wf(),
            decreases positions@.len() - i,
        {
            let p = positions[i];
            b.stretch_to(p);
            proof {
                assert(positions@.take(i + 1).drop_last() =~= positions@.take(i as int));
                assert(positions@.take(i + 1).last() == p);
            }
            i = i + 1;
        }
        assert(positions@.take(positions@.len() as int) =~= positions@);
        Ok(b)
    }

    /// Widen the extents so that they also cover `pos`.
    pub fn stretch_to(&mut self, pos: Vec3F)
        requires
            old(self).x.wf(),
            old(self).y.wf(),
            old(self).z.wf(),
        ensures
            *final(self) == stretch_bounds(*old(self), pos),
    {
        self.x.stretch_to(pos.x);
        self.y.stretch_to(pos.y);
        self.z.stretch_to(pos.z);
    }

    /// The center of the box: per axis, the midpoint of min and max
    /// (rounded toward the minimum corner).
    pub fn get_center(&self) -> (r: Vec3F)
        requires
            bounds_wf(*self),
        ensures
            r == center_of(*self),
    {
        Vec3F {
            x: self.x.min + (self.x.max - self.x.min) / 2,
            y: self.y.min + (self.y.max - self.y.min) / 2,
            z: self.z.min + (self.z.max - self.z.min) / 2,
        }
    }

    pub fn get_min(&self) -> (r: Vec3F)
        ensures
            r == (Vec3F { x: self.x.min, y: self.y.min, z: self.z.min }),
    {
        Vec3F { x: self.x.min, y: self.y.min, z: self.z.min }
    }

    pub fn get_max(&self) -> (r: Vec3F)
        ensures
            r == (Vec3F { x: self.x.max, y: self.y.max, z: self.z.max }),
    {
        Vec3F { x: self.x.max, y: self.y.max, z: self.z.max }
    }
}

pub open spec fn center_of(b: Bounds) -> Vec3F {
    Vec3F {
        x: (b.x.min + (b.x.max - b.x.min) / 2) as i64,
        y: (b.y.min + (b.y.max - b.y.min) / 2) as i64,
        z: (b.z.min + (b.z.max - b.z.min) / 2) as i64,
    }
}

/// Squared Euclidean distance between two positions, as a mathematical
/// integer.
pub open spec fn dist2(a: Vec3F, b: Vec3F) -> int {
    (a.x - b.x) * (a.x - b.x) + (a.y - b.y) * (a.y - b.y) + (a.z - b.z) * (a.z - b.z)
}

/// Squared distance from the box center to the farthest corner of the box:
/// per axis the farther of the two corner offsets, squared and summed.
pub open spec fn far_corner_dist2(b: Bounds) -> int {
    axis_far(b.x) * axis_far(b.x) + axis_far(b.y) * axis_far(b.y) + axis_far(b.z) * axis_far(b.z)
}

pub open spec fn axis_far(e: Extent) -> int {
    let c = e.min + (e.max - e.min) / 2;
    if c - e.min >= e.max - c {
        c - e.min
    } else {
        e.max - c
    }
}

/// The extents of a non-empty sequence are well-formed whenever every
/// position has in-range coordinates.
pub proof fn lemma_bounds_of_wf(s: Seq<Vec3F>)
    requires
        s.len() > 0,
        forall|i: int| 0 <= i < s.len() ==> vec3_ok(#[trigger] s[i]),
    ensures
        bounds_wf(bounds_of(s)),
    decreases s.len(),
{
    if s.len() > 1 {
        lemma_bounds_of_wf(s.drop_last());
    }
}

/// Every position of the sequence lies inside the tracked extents.
pub proof fn lemma_bounds_of_contains(s: Seq<Vec3F>, i: int)
    requires
        s.len() > 0,
        0 <= i < s.len(),
    ensures
        bounds_contain(bounds_of(s), s[i]),
    decreases s.len(),
{
    if s.len() > 1 && i < s.len() - 1 {
        lemma_bounds_of_contains(s.drop_last(), i);
    }
}

/// A sphere guaranteed to contain every position its source box contains.
#[derive(Clone, Copy, Debug, PartialEq, Eq, Structural)]
pub struct BoundingSphere {
    pub center: Vec3F,
    pub radius: i64,
}

impl BoundingSphere {
    /// Sphere around the box center whose radius is the distance to the
    /// farthest corner of the box, rounded up to a whole fixed-point unit.
    pub fn from_bounds(b: &Bounds) -> (r: BoundingSphere)
        requires
            bounds_wf(*b),
        ensures
            r.center == center_of(*b),
            r.radius >= 0,
            far_corner_dist2(*b) <= r.radius * r.radius,
            r.radius > 0 ==> (r.radius - 1) * (r.radius - 1) < far_corner_dist2(*b),
    {
        let cx = b.x.min + (b.x.max - b.x.min) / 2;
        let cy = b.y.min + (b.y.max - b.y.min) / 2;
        let cz = b.z.min + (b.z.max - b.z.min) / 2;
        let dx = if cx - b.x.min >= b.x.max - cx {
            cx - b.x.min
        } else {
            b.x.max - cx
        };
        let dy = if cy - b.y.min >= b.y.max - cy {
            cy - b.y.min
        } else {
            b.y.max - cy
        };
        let dz = if cz - b.z.min >= b.z.max - cz {
            cz - b.z.min
        } else {
            b.z.max - cz
        };
        let dxw: u128 = dx as u128;
        let dyw: u128 = dy as u128;
        let dzw: u128 = dz as u128;
        proof {
            assert(dxw * dxw <= 0x4000000000000000000000000000000u128 && dyw * dyw
                <= 0x4000000000000000000000000000000u128 && dzw * dzw
                <= 0x4000000000000000000000000000000u128) by (nonlinear_arith)
                requires
                    dxw <= 0x2000_0000_0000_0000u128,
                    dyw <= 0x2000_0000_0000_0000u128,
                    dzw <= 0x2000_0000_0000_0000u128,
            ;
        }
        let r2: u128 = dxw * dxw + dyw * dyw + dzw * dzw;
        let radius_u = isqrt_ceil(r2);
        proof {
            assert(radius_u <= 0x4000_0000_0000_0000u64) by (nonlinear_arith)
                requires
                    radius_u > 0 ==> (radius_u - 1) * (radius_u - 1) < r2,
                    r2 <= 0xC000000000000000000000000000000u128,
            ;
        }
        BoundingSphere { center: Vec3F { x: cx, y: cy, z: cz }, radius: radius_u as i64 }
    }
}

/// Every position inside the box lies within the sphere's radius of the
/// sphere's center: squared distance at most `radius * radius`.
pub proof fn lemma_sphere_contains(b: Bounds, s: BoundingSphere, p: Vec3F)
    requires
        bounds_wf(b),
        bounds_contain(b, p),
        s.center == center_of(b),
        far_corner_dist2(b) <= s.radius * s.radius,
    ensures
        dist2(p, s.center) <= s.radius * s.radius,
{
    let c = center_of(b);
    assert((p.x - c.x) * (p.x - c.x) <= axis_far(b.x) * axis_far(b.x)) by (nonlinear_arith)
        requires
            -axis_far(b.x) <= p.x - c.x <= axis_far(b.x),
    ;
    assert((p.y - c.y) * (p.y - c.y) <= axis_far(b.y) * axis_far(b.y)) by (nonlinear_arith)
        requires
            -axis_far(b.y) <= p.y - c.y <= axis_far(b.y),
    ;
    assert((p.z - c.z) * (p.z - c.z) <= axis_far(b.z) * axis_far(b.z)) by (nonlinear_arith)
        requires
            -axis_far(b.z) <= p.z - c.z <= axis_far(b.z),
    ;
}

/// One mesh vertex: position, normal and color.
#[derive(Clone, Copy, Debug, PartialEq, Eq, Structural)]
pub struct Vertex {
    pub position: Vec3F,
    pub normal: Vec3F,
    pub color: Vec3F,
}

impl Default for Vertex {
    /// Origin position, a unit `y` normal and white color.
    fn default() -> (r: Self)
        ensures
            r.position == (Vec3F { x: 0, y: 0, z: 0 }),
            r.normal == (Vec3F { x: 0, y: FP_ONE, z: 0 }),
            r.color == (Vec3F { x: FP_ONE, y: FP_ONE, z: FP_ONE }),
    {
        Vertex {
            position: Vec3F { x: 0, y: 0, z: 0 },
            normal: Vec3F { x: 0, y: FP_ONE, z: 0 },
            color: Vec3F { x: FP_ONE, y: FP_ONE, z: FP_ONE },
        }
    }
}

pub open spec fn positions_of(s: Seq<Vertex>) -> Seq<Vec3F> {
    s.map_values(|v: Vertex| v.position)
}

/// A static mesh: vertex and index data plus the bounding sphere computed
/// once at construction.  The device-side buffers for this data are owned
/// by the unverified shell that uploads it.
pub struct StaticMesh {
    vertices: Vec<Vertex>,
    indices: Vec<u32>,
    bounding_sphere: BoundingSphere,
}

impl StaticMesh {
    /// Build a mesh and its bounding sphere.  Fails if, and only if, no
    /// vertex is given.
    pub fn new(vertices: Vec<Vertex>, indices: Vec<u32>) -> (r: Result<StaticMesh, EmptyInputError>)
        requires
            forall|i: int|
                0 <= i < vertices@.len() ==> vec3_ok(#[trigger] vertices@[i].position),
        ensures
            r is Ok <==> vertices@.len() > 0,
            r is Ok ==> {
                let m = r->Ok_0;
                &&& m.spec_vertices() == vertices@
                &&& m.spec_indices() == indices@
                &&& m.spec_bounds().center == center_of(bounds_of(positions_of(vertices@)))
                &&& m.spec_bounds().radius >= 0
                &&& far_corner_dist2(bounds_of(positions_of(vertices@))) <= m.spec_bounds().radius
                    * m.spec_bounds().radius
                &&& m.spec_bounds().radius > 0 ==> (m.spec_bounds().radius - 1)
                    * (m.spec_bounds().radius - 1) < far_corner_dist2(
                    bounds_of(positions_of(vertices@)),
                )
                &&& forall|i: int|
                    0 <= i < vertices@.len() ==> dist2(
                        #[trigger] vertices@[i].position,
                        m.spec_bounds().center,
                    ) <= m.spec_bounds().radius * m.spec_bounds().radius
            },
    {
        let mut positions: Vec<Vec3F> = Vec::new();
        let mut i: usize = 0;
        while i < vertices.len()
            invariant
                0 <= i <= vertices@.len(),
                positions@ == positions_of(vertices@.take(i as int)),
            decreases vertices@.len() - i,
        {
            positions.push(vertices[i].position);
            proof {
                assert(positions_of(vertices@.take(i + 1)) =~= positions_of(
                    vertices@.take(i as int),
                ).push(vertices@[i as int].position));
            }
            i = i + 1;
        }
        proof {
            assert(vertices@.take(vertices@.len() as int) =~= vertices@);
        }
        let bounds = match Bounds::new(&positions) {
            Ok(b) => b,
            Err(e) => {
                return Err(e);
            },
        };
        proof {
            lemma_bounds_of_wf(positions@);
        }
        let sphere = BoundingSphere::from_bounds(&bounds);
        proof {
            assert forall|j: int| 0 <= j < vertices@.len() implies dist2(
                #[trigger] vertices@[j].position,
                sphere.center,
            ) <= sphere.radius * sphere.radius by {
                lemma_bounds_of_contains(positions@, j);
                lemma_sphere_contains(bounds, sphere, positions@[j]);
            }
        }
        Ok(StaticMesh { vertices, indices, bounding_sphere: sphere })
    }

    pub fn bounds(&self) -> (r: &BoundingSphere)
        ensures
            r == self.spec_bounds(),
    {
        &self.bounding_sphere
    }

    pub fn vertices(&self) -> (r: &Vec<Vertex>)
        ensures
            r@ == self.spec_vertices(),
    {
        &self.vertices
    }

    pub fn indices(&self) -> (r: &Vec<u32>)
        ensures
            r@ == self.spec_indices(),
    {
        &self.indices
    }

    pub closed spec fn spec_vertices(self) -> Seq<Vertex> {
        self.vertices@
    }

    pub closed spec fn spec_indices(self) -> Seq<u32> {
        self.indices@
    }

    pub closed spec fn spec_bounds(self) -> BoundingSphere {
        self.bounding_sphere
    }
}

} // verus!
