use vstd::prelude::*;

use crate::camera::{
    fx3_nonzero, length_fx, mat_view_ok, spec_len3, spec_normalize3, Camera, Mat4R, Vec3R,
};
use crate::rational::spec_rat_to_fixed;
use crate::material::{spec_bind_commands, GlCommand, Material};
use crate::mesh::{normalized, spec_normalized, vec3_ok, StaticMesh, Vec3F};
use crate::rational::Rat;

verus! {

/// A generation-checked index into a resource pool.  Holding one never
/// keeps the resource alive: it observes identity and existence only.
#[derive(Clone, Copy, Debug, PartialEq, Eq, Structural)]
pub struct ResourceId {
    pub index: usize,
    pub generation: u64,
}

struct PoolSlot<T> {
    value: T,
    generation: u64,
    strong: u64,
}

/// An arena of shared resources with explicit strong counts.  It stands
/// where a weak-keyed map would: a resource whose strong count has
/// dropped to zero is dead, and every lookup and count treats it as
/// absent, whether or not its slot has been reused.
pub struct Pool<T> {
    slots: Vec<PoolSlot<T>>,
}

impl<T> Pool<T> {
    pub closed spec fn spec_slot_count(self) -> int {
        self.slots@.len() as int
    }

    /// The id denotes a living resource: its slot exists, the generation
    /// matches, and some strong owner remains.
    pub closed spec fn spec_alive(self, id: ResourceId) -> bool {
        &&& (id.index as int) < self.slots@.len()
        &&& self.slots@[id.index as int].generation == id.generation
        &&& self.slots@[id.index as int].strong > 0
    }

    pub closed spec fn spec_value(self, id: ResourceId) -> T {
        self.slots@[id.index as int].value
    }

    pub closed spec fn spec_strong(self, id: ResourceId) -> u64 {
        if (id.index as int) < self.slots@.len() && self.slots@[id.index as int].generation
            == id.generation {
            self.slots@[id.index as int].strong
        } else {
            0
        }
    }

    pub fn new() -> (p: Pool<T>)
        ensures
            p.spec_slot_count() == 0,
            forall|id: ResourceId| !p.spec_alive(id),
    {
        Pool { slots: Vec::new() }
    }

    /// Store a resource with one strong owner, reusing a dead slot under a
    /// fresh generation where one exists.
    pub fn create(&mut self, value: T) -> (id: ResourceId)
        ensures
            final(self).spec_alive(id),
            final(self).spec_value(id) == value,
            final(self).spec_strong(id) == 1,
            !old(self).spec_alive(id),
            forall|i2: ResourceId|
                old(self).spec_alive(i2) ==> final(self).spec_alive(i2) && final(self).spec_value(
                    i2,
                ) == old(self).spec_value(i2) && final(self).spec_strong(i2) == old(self).spec_strong(i2),
            forall|i2: ResourceId|
                i2 != id && !old(self).spec_alive(i2) ==> !final(self).spec_alive(i2),
    {
        let mut i: usize = 0;
        let n = self.slots.len();
        while i < n
            invariant
                0 <= i <= n,
                n == self.slots@.len(),
                *self == *old(self),
                forall|j: int|
                    0 <= j < i ==> !((#[trigger] self.slots@[j]).strong == 0
                        && self.slots@[j].generation < 0xFFFF_FFFF_FFFF_FFFEu64),
            decreases n - i,
        {
            if self.slots[i].strong == 0 && self.slots[i].generation < 0xFFFF_FFFF_FFFF_FFFE {
                let next_gen = self.slots[i].generation + 1;
                let slot = &mut self.slots[i];
                slot.value = value;
                slot.generation = next_gen;
                slot.strong = 1;
                let id = ResourceId { index: i, generation: next_gen };
                proof {
                    assert forall|i2: ResourceId| old(self).spec_alive(i2) implies self.spec_alive(
                        i2,
                    ) && self.spec_value(i2) == old(self).spec_value(i2) && self.spec_strong(i2)
                        == old(self).spec_strong(i2) by {
                        assert(i2.index != i);
                        assert(self.slots@[i2.index as int] == old(self).slots@[i2.index as int]);
                    }
                    assert forall|i2: ResourceId|
                        i2 != id && !old(self).spec_alive(i2) implies !self.spec_alive(i2) by {
                        let k: int = i2.index as int;
                        if i2.index != i && k < self.slots@.len() {
                            assert(self.slots@[k] == old(self).slots@[k]);
                        }
                    }
                }
                return id;
            }
            i = i + 1;
        }
        let idx = self.slots.len();
        self.slots.push(PoolSlot { value, generation: 0, strong: 1 });
        let id = ResourceId { index: idx, generation: 0 };
        proof {
            assert forall|i2: ResourceId| old(self).spec_alive(i2) implies self.spec_alive(i2)
                && self.spec_value(i2) == old(self).spec_value(i2) && self.spec_strong(i2) == old(self).spec_strong(i2) by {
                assert(self.slots@[i2.index as int] == old(self).slots@[i2.index as int]);
            }
            assert forall|i2: ResourceId|
                i2 != id && !old(self).spec_alive(i2) implies !self.spec_alive(i2) by {
                if (i2.index as int) < old(self).slots@.len() {
                    assert(self.slots@[i2.index as int] == old(self).slots@[i2.index as int]);
                }
            }
        }
        id
    }

    /// One more strong owner of a living resource; no effect on a dead id.
    pub fn retain(&mut self, id: ResourceId)
        requires
            old(self).spec_strong(id) < u64::MAX,
        ensures
            old(self).spec_alive(id) ==> final(self).spec_strong(id) == old(self).spec_strong(id)
                + 1,
            !old(self).spec_alive(id) ==> *final(self) == *old(self),
            forall|i2: ResourceId|
                final(self).spec_alive(i2) == old(self).spec_alive(i2),
            forall|i2: ResourceId|
                old(self).spec_alive(i2) ==> final(self).spec_value(i2) == old(self).spec_value(
                    i2,
                ),
            forall|i2: ResourceId|
                i2 != id ==> final(self).spec_strong(i2) == old(self).spec_strong(i2),
    {
        if id.index < self.slots.len() {
            if self.slots[id.index].generation == id.generation && self.slots[id.index].strong > 0 {
                let slot = &mut self.slots[id.index];
                slot.strong = slot.strong + 1;
                proof {
                    assert(self.slots@ =~= old(self).slots@.update(
                        id.index as int,
                        self.slots@[id.index as int],
                    ));
                }
            }
        }
    }

    /// One strong owner fewer.  When the last owner releases, the resource
    /// dies: every later lookup and count treats it as absent.
    pub fn release(&mut self, id: ResourceId)
        ensures
            old(self).spec_alive(id) ==> final(self).spec_strong(id) == old(self).spec_strong(id)
                - 1,
            old(self).spec_alive(id) ==> (final(self).spec_alive(id) <==> old(self).spec_strong(id)
                > 1),
            !old(self).spec_alive(id) ==> *final(self) == *old(self),
            forall|i2: ResourceId|
                i2 != id ==> final(self).spec_alive(i2) == old(self).spec_alive(i2),
            forall|i2: ResourceId|
                old(self).spec_alive(i2) && i2 != id ==> final(self).spec_value(i2) == old(self).spec_value(i2) && final(self).spec_strong(i2) == old(self).spec_strong(i2),
    {
        if id.index < self.slots.len() {
            if self.slots[id.index].generation == id.generation && self.slots[id.index].strong > 0 {
                let slot = &mut self.slots[id.index];
                slot.strong = slot.strong - 1;
            }
        }
    }

    /// The resource, when it is alive; nothing for an expired id.
    pub fn get(&self, id: ResourceId) -> (r: Option<&T>)
        ensures
            r is Some <==> self.spec_alive(id),
            r is Some ==> *r->0 == self.spec_value(id),
    {
        if id.index < self.slots.len() {
            if self.slots[id.index].generation == id.generation && self.slots[id.index].strong > 0 {
                return Some(&self.slots[id.index].value);
            }
        }
        None
    }

    pub fn is_alive(&self, id: ResourceId) -> (r: bool)
        ensures
            r == self.spec_alive(id),
    {
        id.index < self.slots.len() && self.slots[id.index].generation == id.generation
            && self.slots[id.index].strong > 0
    }
}

/// A drawable object: a transform plus shared references to one mesh and
/// one material.
pub struct SceneObject {
    pub transform: Mat4R,
    pub mesh: ResourceId,
    pub material: ResourceId,
}

/// A transform split into translation, rotation and scale for inspection.
/// The rotation is given as its three normalized basis columns.
pub struct TransformComponents {
    pub position: Vec3R,
    pub rotation_x: Vec3R,
    pub rotation_y: Vec3R,
    pub rotation_z: Vec3R,
    pub scale: Vec3R,
}

impl SceneObject {
    pub fn new(transform: Mat4R, mesh: ResourceId, material: ResourceId) -> (o: SceneObject)
        ensures
            o.transform == transform,
            o.mesh == mesh,
            o.material == material,
    {
        SceneObject { transform, mesh, material }
    }

    pub fn mesh(&self) -> (r: ResourceId)
        ensures
            r == self.mesh,
    {
        self.mesh
    }

    pub fn material(&self) -> (r: ResourceId)
        ensures
            r == self.material,
    {
        self.material
    }

    /// Decompose the transform: the translation column, the column lengths
    /// as scale, and the normalized columns as rotation basis.
    pub fn get_transform_components(&self) -> (r: TransformComponents)
        requires
            mat_view_ok(self.transform),
            fx3_nonzero(self.transform.e00, self.transform.e01, self.transform.e02),
            fx3_nonzero(self.transform.e10, self.transform.e11, self.transform.e12),
            fx3_nonzero(self.transform.e20, self.transform.e21, self.transform.e22),
        ensures
            r.position == (Vec3R {
                x: self.transform.e30,
                y: self.transform.e31,
                z: self.transform.e32,
            }),
            r.rotation_x == spec_normalize3(
                spec_rat_to_fixed(self.transform.e00),
                spec_rat_to_fixed(self.transform.e01),
                spec_rat_to_fixed(self.transform.e02),
            ),
            r.rotation_y == spec_normalize3(
                spec_rat_to_fixed(self.transform.e10),
                spec_rat_to_fixed(self.transform.e11),
                spec_rat_to_fixed(self.transform.e12),
            ),
            r.rotation_z == spec_normalize3(
                spec_rat_to_fixed(self.transform.e20),
                spec_rat_to_fixed(self.transform.e21),
                spec_rat_to_fixed(self.transform.e22),
            ),
            r.scale.x == (Rat {
                num: spec_len3(
                    spec_rat_to_fixed(self.transform.e00),
                    spec_rat_to_fixed(self.transform.e01),
                    spec_rat_to_fixed(self.transform.e02),
                ) as i128,
                den: 0x1_0000_0000,
            }),
            r.scale.y == (Rat {
                num: spec_len3(
                    spec_rat_to_fixed(self.transform.e10),
                    spec_rat_to_fixed(self.transform.e11),
                    spec_rat_to_fixed(self.transform.e12),
                ) as i128,
                den: 0x1_0000_0000,
            }),
            r.scale.z == (Rat {
                num: spec_len3(
                    spec_rat_to_fixed(self.transform.e20),
                    spec_rat_to_fixed(self.transform.e21),
                    spec_rat_to_fixed(self.transform.e22),
                ) as i128,
                den: 0x1_0000_0000,
            }),
    {
        let t = &self.transform;
        TransformComponents {
            position: Vec3R { x: t.e30, y: t.e31, z: t.e32 },
            rotation_x: crate::camera::normalize3(t.e00, t.e01, t.e02),
            rotation_y: crate::camera::normalize3(t.e10, t.e11, t.e12),
            rotation_z: crate::camera::normalize3(t.e20, t.e21, t.e22),
            scale: Vec3R {
                x: Rat { num: length_fx(t.e00, t.e01, t.e02) as i128, den: 0x1_0000_0000 },
                y: Rat { num: length_fx(t.e10, t.e11, t.e12) as i128, den: 0x1_0000_0000 },
                z: Rat { num: length_fx(t.e20, t.e21, t.e22) as i128, den: 0x1_0000_0000 },
            },
        }
    }
}

/// All objects of one (material, mesh) pair.
pub struct ObjectGroup {
    pub material: ResourceId,
    pub mesh: ResourceId,
    pub objects: Vec<SceneObject>,
}

pub open spec fn group_is(g: ObjectGroup, mat: ResourceId, mesh: ResourceId) -> bool {
    g.material == mat && g.mesh == mesh
}

/// How many stored objects carry the given (material, mesh) pair.
pub open spec fn pair_len_in(s: Seq<ObjectGroup>, mat: ResourceId, mesh: ResourceId) -> int
    decreases s.len(),
{
    if s.len() == 0 {
        0
    } else {
        pair_len_in(s.drop_last(), mat, mesh) + if group_is(s.last(), mat, mesh) {
            s.last().objects@.len() as int
        } else {
            0
        }
    }
}

/// A group for the given (material, mesh) pair exists.
pub open spec fn has_pair_in(s: Seq<ObjectGroup>, mat: ResourceId, mesh: ResourceId) -> bool {
    exists|i: int| 0 <= i < s.len() && group_is(#[trigger] s[i], mat, mesh)
}

/// How many objects are stored in all, dead or alive.
pub open spec fn total_len_in(s: Seq<ObjectGroup>) -> int
    decreases s.len(),
{
    if s.len() == 0 {
        0
    } else {
        total_len_in(s.drop_last()) + s.last().objects@.len()
    }
}

/// How many stored objects are reachable: only groups whose material and
/// mesh are both still alive count.
pub open spec fn live_len_in<A, B>(
    s: Seq<ObjectGroup>,
    materials: Pool<A>,
    meshes: Pool<B>,
) -> int
    decreases s.len(),
{
    if s.len() == 0 {
        0
    } else {
        live_len_in(s.drop_last(), materials, meshes) + if materials.spec_alive(s.last().material)
            && meshes.spec_alive(s.last().mesh) {
            s.last().objects@.len() as int
        } else {
            0
        }
    }
}

/// How many stored objects one material contributes while its meshes are
/// alive.
pub open spec fn mat_live_len_in<B>(s: Seq<ObjectGroup>, mat: ResourceId, meshes: Pool<B>) -> int
    decreases s.len(),
{
    if s.len() == 0 {
        0
    } else {
        mat_live_len_in(s.drop_last(), mat, meshes) + if s.last().material == mat
            && meshes.spec_alive(s.last().mesh) {
            s.last().objects@.len() as int
        } else {
            0
        }
    }
}

/// The indices of the groups whose material and mesh are both alive, in
/// storage order.
pub open spec fn live_indices_in<A, B>(
    s: Seq<ObjectGroup>,
    materials: Pool<A>,
    meshes: Pool<B>,
) -> Seq<usize>
    decreases s.len(),
{
    if s.len() == 0 {
        Seq::empty()
    } else {
        let rest = live_indices_in(s.drop_last(), materials, meshes);
        if materials.spec_alive(s.last().material) && meshes.spec_alive(s.last().mesh) {
            rest.push((s.len() - 1) as usize)
        } else {
            rest
        }
    }
}

/// Groups hold distinct pairs, every group is non-empty, and each object
/// carries its group's identities.
pub open spec fn storage_wf(s: Seq<ObjectGroup>) -> bool {
    &&& forall|i: int, j: int|
        0 <= i < j < s.len() ==> !((#[trigger] s[i]).material == (#[trigger] s[j]).material
            && s[i].mesh == s[j].mesh)
    &&& forall|i: int| 0 <= i < s.len() ==> (#[trigger] s[i]).objects@.len() >= 1
    &&& forall|i: int, k: int|
        0 <= i < s.len() && 0 <= k < s[i].objects@.len() ==> ((#[trigger] s[i].objects@[k]).material
            == s[i].material && s[i].objects@[k].mesh == s[i].mesh)
}

/// Replacing a group with one of the same pair shifts the counts by the
/// change in that group's size.
proof fn lemma_counts_update(
    s: Seq<ObjectGroup>,
    i: int,
    g: ObjectGroup,
    mat: ResourceId,
    mesh: ResourceId,
)
    requires
        0 <= i < s.len(),
        g.material == s[i].material,
        g.mesh == s[i].mesh,
    ensures
        pair_len_in(s.update(i, g), mat, mesh) == pair_len_in(s, mat, mesh) + (if group_is(
            s[i],
            mat,
            mesh,
        ) {
            g.objects@.len() - s[i].objects@.len()
        } else {
            0
        }),
        total_len_in(s.update(i, g)) == total_len_in(s) + g.objects@.len() - s[i].objects@.len(),
    decreases s.len(),
{
    let s2 = s.update(i, g);
    if i == s.len() - 1 {
        assert(s2.drop_last() =~= s.drop_last());
        assert(s2.last() == g);
    } else {
        assert(s2.drop_last() =~= s.drop_last().update(i, g));
        assert(s2.last() == s.last());
        lemma_counts_update(s.drop_last(), i, g, mat, mesh);
    }
}

/// Appending a group extends the counts by its size.
proof fn lemma_counts_push(s: Seq<ObjectGroup>, g: ObjectGroup, mat: ResourceId, mesh: ResourceId)
    ensures
        pair_len_in(s.push(g), mat, mesh) == pair_len_in(s, mat, mesh) + (if group_is(
            g,
            mat,
            mesh,
        ) {
            g.objects@.len() as int
        } else {
            0
        }),
        total_len_in(s.push(g)) == total_len_in(s) + g.objects@.len(),
{
    assert(s.push(g).drop_last() =~= s);
    assert(s.push(g).last() == g);
}

/// The two-level grouping structure: objects keyed by material identity,
/// then mesh identity.  The keys observe the pools weakly; a group whose
/// material or mesh has died is skipped by every count and iteration.
pub struct ObjectStorage {
    pub groups: Vec<ObjectGroup>,
}

impl ObjectStorage {
    pub fn new() -> (s: ObjectStorage)
        ensures
            s.groups@.len() == 0,
            storage_wf(s.groups@),
            total_len_in(s.groups@) == 0,
    {
        let s = ObjectStorage { groups: Vec::new() };
        s
    }

    /// File the object under its (material, mesh) pair, creating the
    /// group on demand.  Exactly that pair's count grows by one; a group
    /// is created if, and only if, the pair is new.
    pub fn insert(&mut self, object: SceneObject)
        requires
            storage_wf(old(self).groups@),
            total_len_in(old(self).groups@) < usize::MAX,
        ensures
            storage_wf(final(self).groups@),
            total_len_in(final(self).groups@) == total_len_in(old(self).groups@) + 1,
            forall|mat: ResourceId, mesh: ResourceId|
                pair_len_in(final(self).groups@, mat, mesh) == pair_len_in(
                    old(self).groups@,
                    mat,
                    mesh,
                ) + (if mat == object.material && mesh == object.mesh {
                    1int
                } else {
                    0int
                }),
            forall|mat: ResourceId, mesh: ResourceId|
                has_pair_in(final(self).groups@, mat, mesh) <==> (has_pair_in(
                    old(self).groups@,
                    mat,
                    mesh,
                ) || (mat == object.material && mesh == object.mesh)),
            final(self).groups@.len() == old(self).groups@.len() + (if has_pair_in(
                old(self).groups@,
                object.material,
                object.mesh,
            ) {
                0int
            } else {
                1int
            }),
            has_pair_in(old(self).groups@, object.material, object.mesh) ==> exists|i: int|
                0 <= i < old(self).groups@.len() && group_is(
                    #[trigger] old(self).groups@[i],
                    object.material,
                    object.mesh,
                ) && final(self).groups@[i].material == old(self).groups@[i].material && final(self).groups@[i].mesh == old(self).groups@[i].mesh && final(self).groups@[i].objects@
                    == old(self).groups@[i].objects@.push(object) && (forall|j: int|
                    0 <= j < old(self).groups@.len() && j != i ==> #[trigger] final(self).groups@[j]
                        == old(self).groups@[j]),
            !has_pair_in(old(self).groups@, object.material, object.mesh) ==> ((forall|j: int|
                0 <= j < old(self).groups@.len() ==> #[trigger] final(self).groups@[j] == old(self).groups@[j]) && final(self).groups@.last().material == object.material && final(self).groups@.last().mesh == object.mesh && final(self).groups@.last().objects@ == seq![
                object
            ]),
    {
        let ghost old_g = self.groups@;
        let ghost obj = object;
        let n = self.groups.len();
        let mut i: usize = 0;
        while i < n
            invariant
                0 <= i <= n,
                n == self.groups@.len(),
                *self == *old(self),
                old_g == self.groups@,
                storage_wf(old_g),
                total_len_in(old_g) < usize::MAX,
                obj == object,
                forall|j: int|
                    0 <= j < i ==> !((#[trigger] self.groups@[j]).material == obj.material
                        && self.groups@[j].mesh == obj.mesh),
            decreases n - i,
        {
            if self.groups[i].material == object.material && self.groups[i].mesh == object.mesh {
                let ghost old_grp = self.groups@[i as int];
                let grp = &mut self.groups[i];
                grp.objects.push(object);
                proof {
                    let gi = self.groups@[i as int];
                    let sn = self.groups@;
                    assert(sn =~= old_g.update(i as int, gi));
                    assert(gi.objects@ =~= old_grp.objects@.push(obj));
                    assert forall|mat: ResourceId, mesh: ResourceId|
                        pair_len_in(sn, mat, mesh) == pair_len_in(old_g, mat, mesh) + (
                        if mat == obj.material && mesh == obj.mesh {
                            1int
                        } else {
                            0int
                        }) by {
                        lemma_counts_update(old_g, i as int, gi, mat, mesh);
                    }
                    lemma_counts_update(old_g, i as int, gi, obj.material, obj.mesh);
                    assert forall|mat: ResourceId, mesh: ResourceId|
                        has_pair_in(sn, mat, mesh) <==> (has_pair_in(old_g, mat, mesh)
                            || (mat == obj.material && mesh == obj.mesh)) by {
                        if has_pair_in(sn, mat, mesh) {
                            let j = choose|j: int| 0 <= j < sn.len() && group_is(#[trigger] sn[j], mat, mesh);
                            assert(group_is(old_g[j], mat, mesh));
                            assert(has_pair_in(old_g, mat, mesh));
                        }
                        if has_pair_in(old_g, mat, mesh) {
                            let j = choose|j: int|
                                0 <= j < old_g.len() && group_is(#[trigger] old_g[j], mat, mesh);
                            assert(group_is(sn[j], mat, mesh));
                            assert(has_pair_in(sn, mat, mesh));
                        }
                        if mat == obj.material && mesh == obj.mesh {
                            assert(group_is(sn[i as int], mat, mesh));
                            assert(has_pair_in(sn, mat, mesh));
                        }
                    }
                    // the matched group grows by the object; the rest stand
                    assert(group_is(old_g[i as int], obj.material, obj.mesh));
                    assert(sn[i as int].objects@ == old_grp.objects@.push(obj));
                    assert forall|j: int|
                        0 <= j < old_g.len() && j != i implies #[trigger] sn[j] == old_g[j] by {}
                    // well-formedness carries over to the widened group
                    assert forall|a: int, b: int| 0 <= a < b < sn.len() implies !((
                    #[trigger] sn[a]).material == (#[trigger] sn[b]).material && sn[a].mesh
                        == sn[b].mesh) by {
                        assert(sn[a].material == old_g[a].material && sn[a].mesh == old_g[a].mesh);
                        assert(sn[b].material == old_g[b].material && sn[b].mesh == old_g[b].mesh);
                    }
                    assert forall|a: int| 0 <= a < sn.len() implies (#[trigger] sn[a]).objects@.len()
                        >= 1 by {
                        if a != i {
                            assert(sn[a] == old_g[a]);
                        }
                    }
                    assert forall|a: int, k: int|
                        0 <= a < sn.len() && 0 <= k < sn[a].objects@.len() implies ((
                        #[trigger] sn[a].objects@[k]).material == sn[a].material
                            && sn[a].objects@[k].mesh == sn[a].mesh) by {
                        if a != i {
                            assert(sn[a] == old_g[a]);
                        } else {
                            if k < old_grp.objects@.len() {
                                assert(sn[a].objects@[k] == old_grp.objects@[k]);
                            } else {
                                assert(sn[a].objects@[k] == obj);
                            }
                        }
                    }
                }
                return ;
            }
            i = i + 1;
        }
        let material = object.material;
        let mesh = object.mesh;
        let mut objects: Vec<SceneObject> = Vec::new();
        objects.push(object);
        let g = ObjectGroup { material, mesh, objects };
        self.groups.push(g);
        proof {
            let sn = self.groups@;
            let gg = sn.last();
            assert(sn =~= old_g.push(gg));
            assert(gg.objects@ =~= Seq::empty().push(obj));
            assert forall|mat: ResourceId, mesh: ResourceId|
                pair_len_in(sn, mat, mesh) == pair_len_in(old_g, mat, mesh) + (if mat
                    == obj.material && mesh == obj.mesh {
                    1int
                } else {
                    0int
                }) by {
                lemma_counts_push(old_g, gg, mat, mesh);
            }
            lemma_counts_push(old_g, gg, obj.material, obj.mesh);
            assert(!has_pair_in(old_g, obj.material, obj.mesh));
            assert forall|mat: ResourceId, mesh: ResourceId|
                has_pair_in(sn, mat, mesh) <==> (has_pair_in(old_g, mat, mesh) || (mat
                    == obj.material && mesh == obj.mesh)) by {
                if has_pair_in(sn, mat, mesh) {
                    let j = choose|j: int| 0 <= j < sn.len() && group_is(#[trigger] sn[j], mat, mesh);
                    if j < old_g.len() {
                        assert(group_is(old_g[j], mat, mesh));
                        assert(has_pair_in(old_g, mat, mesh));
                    } else {
                        assert(sn[j] == gg);
                    }
                }
                if has_pair_in(old_g, mat, mesh) {
                    let j = choose|j: int|
                        0 <= j < old_g.len() && group_is(#[trigger] old_g[j], mat, mesh);
                    assert(group_is(sn[j], mat, mesh));
                    assert(has_pair_in(sn, mat, mesh));
                }
                if mat == obj.material && mesh == obj.mesh {
                    assert(group_is(sn[old_g.len() as int], mat, mesh));
                    assert(has_pair_in(sn, mat, mesh));
                }
            }
            assert forall|a: int, b: int| 0 <= a < b < sn.len() implies !((#[trigger] sn[a]).material
                == (#[trigger] sn[b]).material && sn[a].mesh == sn[b].mesh) by {
                if b < old_g.len() {
                    assert(sn[a] == old_g[a] && sn[b] == old_g[b]);
                } else {
                    assert(sn[a] == old_g[a] && sn[b] == gg);
                }
            }
            assert forall|a: int| 0 <= a < sn.len() implies (#[trigger] sn[a]).objects@.len()
                >= 1 by {
                if a < old_g.len() {
                    assert(sn[a] == old_g[a]);
                }
            }
            assert forall|a: int, k: int|
                0 <= a < sn.len() && 0 <= k < sn[a].objects@.len() implies ((
                #[trigger] sn[a].objects@[k]).material == sn[a].material && sn[a].objects@[k].mesh
                    == sn[a].mesh) by {
                if a < old_g.len() {
                    assert(sn[a] == old_g[a]);
                } else {
                    assert(sn[a].objects@[k] == obj);
                }
            }
            // the new group holds exactly the object; the rest stand
            assert(sn.last().objects@ =~= seq![obj]);
            assert forall|j: int| 0 <= j < old_g.len() implies #[trigger] sn[j] == old_g[j] by {}
        }
    }
}

/// A prefix stores no more objects than the whole.
proof fn lemma_total_take_le(s: Seq<ObjectGroup>, i: int)
    requires
        0 <= i <= s.len(),
    ensures
        total_len_in(s.take(i)) <= total_len_in(s),
    decreases s.len(),
{
    if i == s.len() {
        assert(s.take(i) =~= s);
    } else {
        assert(s.drop_last().take(i) =~= s.take(i));
        lemma_total_take_le(s.drop_last(), i);
    }
}

/// Every listed index points at a group whose material and mesh are
/// alive.
pub proof fn lemma_live_indices_props<A, B>(s: Seq<ObjectGroup>, materials: Pool<A>, meshes: Pool<B>)
    requires
        s.len() <= usize::MAX,
    ensures
        forall|k: int|
            0 <= k < live_indices_in(s, materials, meshes).len() ==> (#[trigger] live_indices_in(
                s,
                materials,
                meshes,
            )[k] as int) < s.len(),
        forall|k: int|
            0 <= k < live_indices_in(s, materials, meshes).len() ==> materials.spec_alive(
                s[#[trigger] live_indices_in(s, materials, meshes)[k] as int].material,
            ) && meshes.spec_alive(s[live_indices_in(s, materials, meshes)[k] as int].mesh),
    decreases s.len(),
{
    if s.len() > 0 {
        lemma_live_indices_props(s.drop_last(), materials, meshes);
        let rest = live_indices_in(s.drop_last(), materials, meshes);
        let all = live_indices_in(s, materials, meshes);
        assert forall|k: int| 0 <= k < all.len() implies (#[trigger] all[k] as int) < s.len() by {
            if k < rest.len() {
                assert(all[k] == rest[k]);
            }
        }
        assert forall|k: int| 0 <= k < all.len() implies materials.spec_alive(
            s[#[trigger] all[k] as int].material,
        ) && meshes.spec_alive(s[all[k] as int].mesh) by {
            if materials.spec_alive(s.last().material) && meshes.spec_alive(s.last().mesh) {
                assert(all == rest.push((s.len() - 1) as usize));
                if k < rest.len() {
                    assert(all[k] == rest[k]);
                    assert((rest[k] as int) < s.drop_last().len());
                    assert(s.drop_last()[rest[k] as int] == s[rest[k] as int]);
                } else {
                    assert(all[k] == (s.len() - 1) as usize);
                    assert(s.last() == s[s.len() - 1]);
                }
            } else {
                assert(all == rest);
                assert(all[k] == rest[k]);
                assert((rest[k] as int) < s.drop_last().len());
                assert(s.drop_last()[rest[k] as int] == s[rest[k] as int]);
            }
        }
    }
}

/// Releasing the last owner of a material removes exactly that
/// material's objects from the reachable count; no other group is
/// affected.  This is the weak-key discipline: the storage never keeps a
/// material alive, and expired keys are treated as absent.
pub proof fn lemma_released_material_uncounted<A, B>(
    s: Seq<ObjectGroup>,
    before: Pool<A>,
    after: Pool<A>,
    meshes: Pool<B>,
    dead: ResourceId,
)
    requires
        !after.spec_alive(dead),
        forall|id: ResourceId| id != dead ==> after.spec_alive(id) == before.spec_alive(id),
    ensures
        live_len_in(s, after, meshes) == live_len_in(s, before, meshes) - (if before.spec_alive(
            dead,
        ) {
            mat_live_len_in(s, dead, meshes)
        } else {
            0int
        }),
    decreases s.len(),
{
    if s.len() > 0 {
        lemma_released_material_uncounted(s.drop_last(), before, after, meshes, dead);
    }
}

impl ObjectStorage {
    /// How many objects are reachable: objects in groups whose material
    /// and mesh are both still alive.  Groups with expired keys are
    /// treated as absent even though their entries still sit in memory.
    pub fn len<A, B>(&self, materials: &Pool<A>, meshes: &Pool<B>) -> (r: usize)
        requires
            total_len_in(self.groups@) <= usize::MAX,
        ensures
            r == live_len_in(self.groups@, *materials, *meshes),
    {
        let s = &self.groups;
        let mut acc: usize = 0;
        let mut i: usize = 0;
        proof {
            assert(s@.take(0) =~= Seq::<ObjectGroup>::empty());
        }
        while i < s.len()
            invariant
                0 <= i <= s@.len(),
                s@ == self.groups@,
                total_len_in(s@) <= usize::MAX,
                acc == live_len_in(s@.take(i as int), *materials, *meshes),
                acc <= total_len_in(s@.take(i as int)),
            decreases s@.len() - i,
        {
            proof {
                assert(s@.take(i + 1).drop_last() =~= s@.take(i as int));
                assert(s@.take(i + 1).last() == s@[i as int]);
                lemma_total_take_le(s@, i + 1);
            }
            if materials.is_alive(s[i].material) && meshes.is_alive(s[i].mesh) {
                acc = acc + s[i].objects.len();
            }
            i = i + 1;
        }
        proof {
            assert(s@.take(s@.len() as int) =~= s@);
        }
        acc
    }

    /// The indices of the groups a frame traverses: exactly those whose
    /// material and mesh are both alive, in storage order.
    pub fn iter_material_groups<A, B>(&self, materials: &Pool<A>, meshes: &Pool<B>) -> (r: Vec<
        usize,
    >)
        ensures
            r@ == live_indices_in(self.groups@, *materials, *meshes),
    {
        let s = &self.groups;
        let mut r: Vec<usize> = Vec::new();
        let mut i: usize = 0;
        proof {
            assert(s@.take(0) =~= Seq::<ObjectGroup>::empty());
        }
        while i < s.len()
            invariant
                0 <= i <= s@.len(),
                s@ == self.groups@,
                r@ == live_indices_in(s@.take(i as int), *materials, *meshes),
            decreases s@.len() - i,
        {
            proof {
                assert(s@.take(i + 1).drop_last() =~= s@.take(i as int));
                assert(s@.take(i + 1).last() == s@[i as int]);
            }
            if materials.is_alive(s[i].material) && meshes.is_alive(s[i].mesh) {
                r.push(i);
            }
            i = i + 1;
        }
        proof {
            assert(s@.take(s@.len() as int) =~= s@);
        }
        r
    }
}

/// The per-frame constants handed to the shaders: the cached
/// view-projection matrix, the normalized sun direction and the sun
/// color.
pub struct FrameData {
    pub view_proj: Mat4R,
    pub sun_dir: Vec3F,
    pub sun_color: Vec3F,
}

/// One draw batch: a (material, mesh) group's bind commands and the
/// transforms of its objects.  The material is bound exactly once per
/// batch.
pub struct DrawBatch {
    pub material: ResourceId,
    pub mesh: ResourceId,
    pub commands: Vec<GlCommand>,
    pub transforms: Vec<Mat4R>,
}

/// Everything a frame draws, in traversal order.
pub struct RenderPlan {
    pub frame: FrameData,
    pub batches: Vec<DrawBatch>,
}

/// The batch renders the group: same keys, the material's bind commands,
/// and the group's object transforms in order.
pub open spec fn batch_matches(b: DrawBatch, g: ObjectGroup, materials: Pool<Material>) -> bool {
    &&& b.material == g.material
    &&& b.mesh == g.mesh
    &&& b.commands@ == spec_bind_commands(materials.spec_value(g.material))
    &&& b.transforms@ == g.objects@.map_values(|o: SceneObject| o.transform)
}

/// The scene: the object storage, the mesh and material pools its keys
/// observe, the sun, and the camera.
pub struct Scene {
    pub objects: ObjectStorage,
    pub meshes: Pool<StaticMesh>,
    pub materials: Pool<Material>,
    pub sun_direction: Vec3F,
    pub sun_color: Vec3F,
    pub camera: Camera,
}

impl Scene {
    pub fn new(sun_direction: Vec3F, sun_color: Vec3F, camera: Camera) -> (s: Scene)
        ensures
            s.objects.groups@.len() == 0,
            storage_wf(s.objects.groups@),
            total_len_in(s.objects.groups@) == 0,
            forall|id: ResourceId| !s.meshes.spec_alive(id),
            forall|id: ResourceId| !s.materials.spec_alive(id),
            s.sun_direction == sun_direction,
            s.sun_color == sun_color,
            s.camera == camera,
    {
        Scene {
            objects: ObjectStorage::new(),
            meshes: Pool::new(),
            materials: Pool::new(),
            sun_direction,
            sun_color,
            camera,
        }
    }

    /// Put a mesh under scene ownership; the returned id is its identity.
    pub fn add_mesh(&mut self, mesh: StaticMesh) -> (id: ResourceId)
        ensures
            final(self).meshes.spec_alive(id),
            final(self).meshes.spec_value(id) == mesh,
            !old(self).meshes.spec_alive(id),
            forall|i2: ResourceId|
                old(self).meshes.spec_alive(i2) ==> final(self).meshes.spec_alive(i2) && final(self).meshes.spec_value(i2) == old(self).meshes.spec_value(i2),
            forall|i2: ResourceId|
                i2 != id && !old(self).meshes.spec_alive(i2) ==> !final(self).meshes.spec_alive(i2),
            final(self).objects == old(self).objects,
            final(self).materials == old(self).materials,
            final(self).sun_direction == old(self).sun_direction,
            final(self).sun_color == old(self).sun_color,
            final(self).camera == old(self).camera,
    {
        self.meshes.create(mesh)
    }

    /// Put a material under scene ownership; the returned id is its
    /// identity.
    pub fn add_material(&mut self, material: Material) -> (id: ResourceId)
        ensures
            final(self).materials.spec_alive(id),
            final(self).materials.spec_value(id) == material,
            !old(self).materials.spec_alive(id),
            forall|i2: ResourceId|
                old(self).materials.spec_alive(i2) ==> final(self).materials.spec_alive(i2)
                    && final(self).materials.spec_value(i2) == old(self).materials.spec_value(i2),
            forall|i2: ResourceId|
                i2 != id && !old(self).materials.spec_alive(i2) ==> !final(self).materials.spec_alive(i2),
            final(self).objects == old(self).objects,
            final(self).meshes == old(self).meshes,
            final(self).sun_direction == old(self).sun_direction,
            final(self).sun_color == old(self).sun_color,
            final(self).camera == old(self).camera,
    {
        self.materials.create(material)
    }

    /// Release one strong owner of a mesh.
    pub fn release_mesh(&mut self, id: ResourceId)
        ensures
            old(self).meshes.spec_alive(id) ==> (final(self).meshes.spec_alive(id) <==> old(self).meshes.spec_strong(id) > 1),
            !old(self).meshes.spec_alive(id) ==> final(self).meshes == old(self).meshes,
            forall|i2: ResourceId|
                i2 != id ==> final(self).meshes.spec_alive(i2) == old(self).meshes.spec_alive(i2),
            forall|i2: ResourceId|
                old(self).meshes.spec_alive(i2) && i2 != id ==> final(self).meshes.spec_value(i2)
                    == old(self).meshes.spec_value(i2),
            final(self).objects == old(self).objects,
            final(self).materials == old(self).materials,
            final(self).sun_direction == old(self).sun_direction,
            final(self).sun_color == old(self).sun_color,
            final(self).camera == old(self).camera,
    {
        self.meshes.release(id)
    }

    /// Release one strong owner of a material.
    pub fn release_material(&mut self, id: ResourceId)
        ensures
            old(self).materials.spec_alive(id) ==> (final(self).materials.spec_alive(id) <==> old(self).materials.spec_strong(id) > 1),
            !old(self).materials.spec_alive(id) ==> final(self).materials == old(self).materials,
            forall|i2: ResourceId|
                i2 != id ==> final(self).materials.spec_alive(i2) == old(self).materials.spec_alive(i2),
            forall|i2: ResourceId|
                old(self).materials.spec_alive(i2) && i2 != id ==> final(self).materials.spec_value(i2) == old(self).materials.spec_value(i2),
            final(self).objects == old(self).objects,
            final(self).meshes == old(self).meshes,
            final(self).sun_direction == old(self).sun_direction,
            final(self).sun_color == old(self).sun_color,
            final(self).camera == old(self).camera,
    {
        self.materials.release(id)
    }

    /// File a drawable object under its (material, mesh) pair.
    pub fn add_object(&mut self, object: SceneObject)
        requires
            storage_wf(old(self).objects.groups@),
            total_len_in(old(self).objects.groups@) < usize::MAX,
        ensures
            storage_wf(final(self).objects.groups@),
            total_len_in(final(self).objects.groups@) == total_len_in(old(self).objects.groups@)
                + 1,
            forall|mat: ResourceId, mesh: ResourceId|
                pair_len_in(final(self).objects.groups@, mat, mesh) == pair_len_in(
                    old(self).objects.groups@,
                    mat,
                    mesh,
                ) + (if mat == object.material && mesh == object.mesh {
                    1int
                } else {
                    0int
                }),
            forall|mat: ResourceId, mesh: ResourceId|
                has_pair_in(final(self).objects.groups@, mat, mesh) <==> (has_pair_in(
                    old(self).objects.groups@,
                    mat,
                    mesh,
                ) || (mat == object.material && mesh == object.mesh)),
            final(self).objects.groups@.len() == old(self).objects.groups@.len() + (if has_pair_in(
                old(self).objects.groups@,
                object.material,
                object.mesh,
            ) {
                0int
            } else {
                1int
            }),
            has_pair_in(old(self).objects.groups@, object.material, object.mesh) ==> exists|i: int|
                0 <= i < old(self).objects.groups@.len() && group_is(
                    #[trigger] old(self).objects.groups@[i],
                    object.material,
                    object.mesh,
                ) && final(self).objects.groups@[i].material == old(self).objects.groups@[i].material && final(self).objects.groups@[i].mesh == old(self).objects.groups@[i].mesh && final(self).objects.groups@[i].objects@ == old(self).objects.groups@[i].objects@.push(object) && (forall|j: int|
                    0 <= j < old(self).objects.groups@.len() && j != i ==> #[trigger] final(self).objects.groups@[j] == old(self).objects.groups@[j]),
            !has_pair_in(old(self).objects.groups@, object.material, object.mesh) ==> ((forall|j: int|
                0 <= j < old(self).objects.groups@.len() ==> #[trigger] final(self).objects.groups@[j] == old(self).objects.groups@[j]) && final(self).objects.groups@.last().material == object.material && final(self).objects.groups@.last().mesh == object.mesh && final(self).objects.groups@.last().objects@ == seq![object]),
            final(self).meshes == old(self).meshes,
            final(self).materials == old(self).materials,
            final(self).sun_direction == old(self).sun_direction,
            final(self).sun_color == old(self).sun_color,
            final(self).camera == old(self).camera,
    {
        self.objects.insert(object)
    }

    /// Assemble everything a frame draws: the per-frame constants, then
    /// one batch per living (material, mesh) group, each batch binding
    /// its material exactly once and listing its objects' transforms.
    /// The traversal order is storage order; no order across distinct
    /// materials is promised.
    pub fn render(&self) -> (r: RenderPlan)
        requires
            storage_wf(self.objects.groups@),
            total_len_in(self.objects.groups@) <= usize::MAX,
            vec3_ok(self.sun_direction),
            self.sun_direction.x != 0 || self.sun_direction.y != 0 || self.sun_direction.z != 0,
        ensures
            r.frame.view_proj == self.camera.view_proj,
            r.frame.sun_dir == spec_normalized(self.sun_direction),
            r.frame.sun_color == self.sun_color,
            r.batches@.len() == live_indices_in(
                self.objects.groups@,
                self.materials,
                self.meshes,
            ).len(),
            forall|k: int|
                0 <= k < r.batches@.len() ==> batch_matches(
                    #[trigger] r.batches@[k],
                    self.objects.groups@[live_indices_in(
                        self.objects.groups@,
                        self.materials,
                        self.meshes,
                    )[k] as int],
                    self.materials,
                ),
    {
        let frame = FrameData {
            view_proj: self.camera.view_proj,
            sun_dir: normalized(self.sun_direction),
            sun_color: self.sun_color,
        };
        let ngroups = self.objects.groups.len();
        let idxs = self.objects.iter_material_groups(&self.materials, &self.meshes);
        proof {
            assert(self.objects.groups@.len() == ngroups);
            lemma_live_indices_props(self.objects.groups@, self.materials, self.meshes);
        }
        let mut batches: Vec<DrawBatch> = Vec::new();
        let mut k: usize = 0;
        while k < idxs.len()
            invariant
                0 <= k <= idxs@.len(),
                idxs@ == live_indices_in(self.objects.groups@, self.materials, self.meshes),
                forall|kk: int|
                    0 <= kk < idxs@.len() ==> {
                        let gi = #[trigger] idxs@[kk];
                        &&& (gi as int) < self.objects.groups@.len()
                        &&& self.materials.spec_alive(self.objects.groups@[gi as int].material)
                        &&& self.meshes.spec_alive(self.objects.groups@[gi as int].mesh)
                    },
                batches@.len() == k,
                forall|kk: int|
                    0 <= kk < k ==> batch_matches(
                        #[trigger] batches@[kk],
                        self.objects.groups@[idxs@[kk] as int],
                        self.materials,
                    ),
            decreases idxs@.len() - k,
        {
            let gi = idxs[k];
            let g = &self.objects.groups[gi];
            let mat_opt = self.materials.get(g.material);
            proof {
                assert(mat_opt is Some);
            }
            let mat = match mat_opt {
                Some(m) => m,
                None => {
                    proof {
                        assert(false);
                    }
                    return RenderPlan { frame, batches };
                },
            };
            let commands = mat.bind();
            let mut transforms: Vec<Mat4R> = Vec::new();
            let ghost tmap = g.objects@.map_values(|o: SceneObject| o.transform);
            let mut j: usize = 0;
            proof {
                assert(tmap.take(0) =~= Seq::<Mat4R>::empty());
            }
            while j < g.objects.len()
                invariant
                    0 <= j <= g.objects@.len(),
                    tmap == g.objects@.map_values(|o: SceneObject| o.transform),
                    transforms@ == tmap.take(j as int),
                decreases g.objects@.len() - j,
            {
                transforms.push(g.objects[j].transform);
                proof {
                    assert(tmap.take(j + 1) =~= tmap.take(j as int).push(tmap[j as int]));
                }
                j = j + 1;
            }
            proof {
                assert(tmap.take(g.objects@.len() as int) =~= tmap);
            }
            batches.push(DrawBatch { material: g.material, mesh: g.mesh, commands, transforms });
            k = k + 1;
        }
        RenderPlan { frame, batches }
    }
}

impl Default for Scene {
    /// An empty scene lit from (1, 1, 1) in white, with the default
    /// camera.
    fn default() -> (s: Self)
        ensures
            s.objects.groups@.len() == 0,
            storage_wf(s.objects.groups@),
            total_len_in(s.objects.groups@) == 0,
            forall|id: ResourceId| !s.meshes.spec_alive(id),
            forall|id: ResourceId| !s.materials.spec_alive(id),
            s.sun_direction == (Vec3F { x: 0x1_0000_0000, y: 0x1_0000_0000, z: 0x1_0000_0000 }),
            s.sun_color == (Vec3F { x: 0x1_0000_0000, y: 0x1_0000_0000, z: 0x1_0000_0000 }),
    {
        let sun = Vec3F { x: 0x1_0000_0000, y: 0x1_0000_0000, z: 0x1_0000_0000 };
        Scene::new(sun, sun, Camera::new())
    }
}

} // verus!
