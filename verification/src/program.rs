use vstd::prelude::*;

use crate::handle::GLHandle;
use crate::hash::{fnv1a, str_hash};
use vstd::string::StringSliceAdditionalSpecFns;

verus! {

/// The hash of a uniform name given by its characters.
pub open spec fn name_hash(s: Seq<char>) -> u32 {
    fnv1a(vstd::utf8::encode_utf8(s))
}

/// One entry of a program's uniform table: the hash of the uniform's name
/// and its resolved location.
#[derive(Clone, Copy, Debug)]
pub struct UniformLocationInfo {
    pub hash: u32,
    pub location: u32,
}

impl PartialEq for UniformLocationInfo {
    /// Entries compare by hash alone, as the table forbids duplicates.
    fn eq(&self, other: &Self) -> (r: bool) {
        self.hash == other.hash
    }
}

impl Eq for UniformLocationInfo {

}

impl vstd::std_specs::cmp::PartialEqSpecImpl for UniformLocationInfo {
    open spec fn obeys_eq_spec() -> bool {
        true
    }

    open spec fn eq_spec(&self, other: &Self) -> bool {
        self.hash == other.hash
    }
}

/// Two distinct uniform names of one shader program hashed to the same
/// value; the table cannot distinguish them, so its construction fails.
#[derive(Clone, Copy, Debug, PartialEq, Eq, Structural)]
pub struct HashCollisionError;

/// The table holds strictly increasing hashes: sorted, no duplicates.
pub open spec fn table_sorted(t: Seq<UniformLocationInfo>) -> bool {
    forall|i: int, j: int| 0 <= i < j < t.len() ==> t[i].hash < t[j].hash
}

pub open spec fn table_has(t: Seq<UniformLocationInfo>, h: u32, l: u32) -> bool {
    exists|j: int| 0 <= j < t.len() && t[j].hash == h && t[j].location == l
}

pub open spec fn entry_pair(e: (String, u32)) -> (u32, u32) {
    (name_hash(e.0@), e.1)
}

/// The table lists exactly the (hash, location) pairs of the entries.
pub open spec fn table_matches(entries: Seq<(String, u32)>, t: Seq<UniformLocationInfo>) -> bool {
    &&& forall|k: int|
        0 <= k < entries.len() ==> table_has(
            t,
            entry_pair(#[trigger] entries[k]).0,
            entry_pair(entries[k]).1,
        )
    &&& forall|j: int|
        0 <= j < t.len() ==> exists|k: int|
            0 <= k < entries.len() && entry_pair(entries[k]) == (
            (#[trigger] t[j]).hash,
            t[j].location,
            )
}

/// No two entries' names hash alike.
pub open spec fn no_collision(entries: Seq<(String, u32)>) -> bool {
    forall|i: int, j: int|
        0 <= i < j < entries.len() ==> name_hash((#[trigger] entries[i]).0@) != name_hash((#[trigger] entries[j]).0@)
}

/// Build the sorted uniform table from (name, location) pairs, hashing
/// each name.  Fails if, and only if, two entries' hashes collide.
pub fn build_uniform_table(entries: &Vec<(String, u32)>) -> (r: Result<
    Vec<UniformLocationInfo>,
    HashCollisionError,
>)
    ensures
        r is Ok <==> no_collision(entries@),
        r is Ok ==> table_sorted(r->Ok_0@),
        r is Ok ==> table_matches(entries@, r->Ok_0@),
{
    let mut t: Vec<UniformLocationInfo> = Vec::new();
    let mut k: usize = 0;
    while k < entries.len()
        invariant
            0 <= k <= entries@.len(),
            table_sorted(t@),
            table_matches(entries@.take(k as int), t@),
            no_collision(entries@.take(k as int)),
        decreases entries@.len() - k,
    {
        let h = str_hash(entries[k].0.as_str());
        let loc = entries[k].1;
        // Find the insertion position for `h` among the sorted hashes.
        let mut pos: usize = 0;
        while pos < t.len() && t[pos].hash < h
            invariant
                0 <= pos <= t@.len(),
                forall|i: int| 0 <= i < pos ==> (#[trigger] t@[i]).hash < h,
                table_sorted(t@),
            decreases t@.len() - pos,
        {
            pos = pos + 1;
        }
        if pos < t.len() && t[pos].hash == h {
            proof {
                let j = pos as int;
                let kk = choose|kk: int|
                    0 <= kk < k && entry_pair(entries@[kk]) == (t@[j].hash, t@[j].location);
                assert(name_hash(entries@[kk].0@) == name_hash(entries@[k as int].0@));
                assert(!no_collision(entries@));
            }
            return Err(HashCollisionError);
        }
        let ghost old_t = t@;
        proof {
            // No table entry carries hash `h`: those before `pos` are
            // smaller, `t[pos]` is larger, and the rest exceed `t[pos]`.
            assert forall|j: int| 0 <= j < old_t.len() implies (#[trigger] old_t[j]).hash != h by {
                if j >= pos {
                    if j > pos {
                        assert(old_t[pos as int].hash < old_t[j].hash);
                    }
                }
            }
            // Hence no earlier entry's name hashes to `h` either.
            assert forall|i: int| 0 <= i < k implies name_hash(
                (#[trigger] entries@[i]).0@,
            ) != h by {
                assert(table_has(
                    old_t,
                    entry_pair(entries@.take(k as int)[i]).0,
                    entry_pair(entries@.take(k as int)[i]).1,
                ));
                let j = choose|j: int|
                    0 <= j < old_t.len() && old_t[j].hash == entry_pair(
                        entries@.take(k as int)[i],
                    ).0 && old_t[j].location == entry_pair(entries@.take(k as int)[i]).1;
            }
            assert forall|i: int, j: int| 0 <= i < j < k + 1 implies name_hash(
                (#[trigger] entries@.take(k + 1)[i]).0@,
            ) != name_hash((#[trigger] entries@.take(k + 1)[j]).0@) by {
                if j < k {
                    assert(name_hash(entries@.take(k as int)[i].0@) != name_hash(
                        entries@.take(k as int)[j].0@,
                    ));
                }
            }
        }
        t.insert(pos, UniformLocationInfo { hash: h, location: loc });
        proof {
            let p = pos as int;
            assert forall|i: int, j: int| 0 <= i < j < t@.len() implies t@[i].hash < t@[j].hash by {
                if j < p {
                } else if i < p && j == p {
                } else if i < p && j > p {
                    assert(t@[j] == old_t[j - 1]);
                } else if i == p {
                    assert(t@[j] == old_t[j - 1]);
                    assert(old_t[j - 1].hash >= old_t[p].hash || j - 1 == p) by {
                        if j - 1 > p {
                            assert(old_t[p].hash < old_t[j - 1].hash);
                        }
                    }
                } else {
                    assert(t@[i] == old_t[i - 1]);
                    assert(t@[j] == old_t[j - 1]);
                }
            }
            assert forall|kk: int| 0 <= kk < k + 1 implies table_has(
                t@,
                entry_pair(#[trigger] entries@.take(k + 1)[kk]).0,
                entry_pair(entries@.take(k + 1)[kk]).1,
            ) by {
                if kk < k {
                    assert(table_has(
                        old_t,
                        entry_pair(entries@.take(k as int)[kk]).0,
                        entry_pair(entries@.take(k as int)[kk]).1,
                    ));
                    let j = choose|j: int|
                        0 <= j < old_t.len() && old_t[j].hash == entry_pair(
                            entries@.take(k as int)[kk],
                        ).0 && old_t[j].location == entry_pair(entries@.take(k as int)[kk]).1;
                    if j < p {
                        assert(t@[j] == old_t[j]);
                    } else {
                        assert(t@[j + 1] == old_t[j]);
                    }
                } else {
                    assert(t@[p].hash == h && t@[p].location == loc);
                }
            }
            assert forall|j: int| 0 <= j < t@.len() implies exists|kk: int|
                0 <= kk < entries@.take(k + 1).len() && #[trigger] entry_pair(
                    entries@.take(k + 1)[kk],
                ) == ((#[trigger] t@[j]).hash, t@[j].location) by {
                if j < p {
                    assert(t@[j] == old_t[j]);
                    let kk = choose|kk: int|
                        0 <= kk < k && entry_pair(entries@.take(k as int)[kk]) == (
                        old_t[j].hash,
                        old_t[j].location,
                        );
                    assert(entry_pair(entries@.take(k + 1)[kk]) == (t@[j].hash, t@[j].location));
                } else if j == p {
                    assert(entry_pair(entries@.take(k + 1)[k as int]) == (
                        t@[j].hash,
                        t@[j].location,
                    ));
                } else {
                    assert(t@[j] == old_t[j - 1]);
                    let kk = choose|kk: int|
                        0 <= kk < k && entry_pair(entries@.take(k as int)[kk]) == (
                        old_t[j - 1].hash,
                        old_t[j - 1].location,
                        );
                    assert(entry_pair(entries@.take(k + 1)[kk]) == (t@[j].hash, t@[j].location));
                }
            }
        }
        k = k + 1;
    }
    proof {
        assert(entries@.take(entries@.len() as int) =~= entries@);
    }
    Ok(t)
}

pub open spec fn table_contains_hash(t: Seq<UniformLocationInfo>, h: u32) -> bool {
    exists|j: int| 0 <= j < t.len() && (#[trigger] t[j]).hash == h
}

/// Look a hash up in a uniform table: the location of the first entry
/// with that hash, or nothing when the hash is absent.
pub fn find_location_in(table: &Vec<UniformLocationInfo>, hash: u32) -> (r: Option<u32>)
    ensures
        r is Some <==> table_contains_hash(table@, hash),
        r is Some ==> exists|j: int|
            0 <= j < table@.len() && (#[trigger] table@[j]).hash == hash && table@[j].location
                == r->0,
{
    let mut i: usize = 0;
    while i < table.len()
        invariant
            0 <= i <= table@.len(),
            forall|j: int| 0 <= j < i ==> (#[trigger] table@[j]).hash != hash,
        decreases table@.len() - i,
    {
        if table[i].hash == hash {
            return Some(table[i].location);
        }
        i = i + 1;
    }
    None
}

/// One shader-uniform value: the closed set of value kinds a program
/// accepts.  Scalars, vectors and matrices carry 32.32 fixed-point
/// components; the unverified shell converts them to the device's floats.
#[derive(Clone, Copy, Debug, PartialEq, Eq)]
pub enum UniformValue {
    U32(u32),
    Scalar(i64),
    Vec2([i64; 2]),
    Vec3([i64; 3]),
    Vec4([i64; 4]),
    Mat2([[i64; 2]; 2]),
    Mat3([[i64; 3]; 3]),
    Mat4([[i64; 4]; 4]),
}

/// A resolved uniform store: write `value` at `location` of the program.
#[derive(Clone, Copy, Debug, PartialEq, Eq)]
pub struct UniformCommand {
    pub location: u32,
    pub value: UniformValue,
}

/// Paths of the shader stages a program is linked from.
pub struct ShaderPaths {
    pub vertex: String,
    pub geometry: Option<String>,
    pub tess_control: Option<String>,
    pub tess_evaluation: Option<String>,
    pub fragment: String,
}

/// A linked shader program: its device handle and the uniform table built
/// once at link time.  Compiling and linking the stages is device work and
/// belongs to the unverified shell; it hands the active-uniform names and
/// locations it queried to `from_uniform_entries`.
pub struct Program {
    handle: GLHandle,
    uniform_locations: Vec<UniformLocationInfo>,
    is_compute: bool,
}

impl Program {
    pub closed spec fn spec_handle(self) -> GLHandle {
        self.handle
    }

    pub closed spec fn spec_table(self) -> Seq<UniformLocationInfo> {
        self.uniform_locations@
    }

    pub closed spec fn spec_is_compute(self) -> bool {
        self.is_compute
    }

    /// Build a program's uniform cache from the queried (name, location)
    /// pairs.  Fails if, and only if, two names hash alike.
    pub fn from_uniform_entries(
        handle: GLHandle,
        entries: &Vec<(String, u32)>,
        is_compute: bool,
    ) -> (r: Result<Program, HashCollisionError>)
        ensures
            r is Ok <==> no_collision(entries@),
            r is Ok ==> {
                let p = r->Ok_0;
                &&& p.spec_handle() == handle
                &&& p.spec_is_compute() == is_compute
                &&& table_sorted(p.spec_table())
                &&& table_matches(entries@, p.spec_table())
            },
    {
        let table = match build_uniform_table(entries) {
            Ok(t) => t,
            Err(e) => {
                return Err(e);
            },
        };
        Ok(Program { handle, uniform_locations: table, is_compute })
    }

    pub fn handle(&self) -> (r: u32)
        ensures
            r == self.spec_handle().spec_get(),
    {
        self.handle.get()
    }

    pub fn is_compute(&self) -> (r: bool)
        ensures
            r == self.spec_is_compute(),
    {
        self.is_compute
    }

    /// The location the given name hash resolves to in this program, if
    /// the program has such a uniform.
    pub fn find_location(&self, hash: u32) -> (r: Option<u32>)
        ensures
            r is Some <==> table_contains_hash(self.spec_table(), hash),
            r is Some ==> exists|j: int|
                0 <= j < self.spec_table().len() && (#[trigger] self.spec_table()[j]).hash == hash
                    && self.spec_table()[j].location == r->0,
    {
        find_location_in(&self.uniform_locations, hash)
    }

    /// Resolve a uniform store.  A name hash unknown to this program is a
    /// silent no-op — no command — so materials may reference uniforms
    /// absent from a shader variant.
    pub fn set_uniform(&self, name_hash: u32, value: UniformValue) -> (r: Option<UniformCommand>)
        ensures
            r is Some <==> table_contains_hash(self.spec_table(), name_hash),
            r is Some ==> exists|j: int|
                0 <= j < self.spec_table().len() && (#[trigger] self.spec_table()[j]).hash
                    == name_hash && self.spec_table()[j].location == r->0.location,
            r is Some ==> r->0.value == value,
    {
        match self.find_location(name_hash) {
            Some(location) => Some(UniformCommand { location, value }),
            None => None,
        }
    }
}

} // verus!
