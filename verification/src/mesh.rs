//! Triangle meshes in fixed point.
//!
//! A mesh is positions, per-vertex normals and a flat triangle index list.
//! Appending one mesh to another rebases the incoming indices by the number
//! of vertices already present, so a combined mesh never aliases vertices of
//! different objects.

use crate::fx;
use crate::quat::{q4_bounded, q4_rotate, Q4, QuatFx, QUNIT_LIMIT};
use crate::vec3::{v3_add, v3_bounded, v3_norm, v3_normalize, V3, Vec3Fx, UNIT_LIMIT};
use vstd::prelude::*;

verus! {

/// Largest coordinate magnitude a mesh vertex may carry: local geometry
/// stays within `COORD_LIMIT`, and one rotation plus one translation keeps
/// the result under this.
pub const MESH_POS_LIMIT: i128 = 0x800000000000;

/// Cap on vertex and index counts, far below any index-arithmetic overflow.
pub const MESH_LEN_CAP: usize = 0x1000000;

/// Mathematical view of a mesh.
pub ghost struct MeshV {
    pub positions: Seq<V3>,
    pub normals: Seq<V3>,
    pub indices: Seq<int>,
}

/// A triangle mesh: positions, per-vertex normals, and triangle indices.
#[derive(Clone, Debug)]
pub struct TriMesh {
    pub positions: Vec<Vec3Fx>,
    pub normals: Vec<Vec3Fx>,
    pub indices: Vec<u32>,
}

impl View for TriMesh {
    type V = MeshV;

    open spec fn view(&self) -> MeshV {
        MeshV {
            positions: self.positions@.map_values(|p: Vec3Fx| p@),
            normals: self.normals@.map_values(|n: Vec3Fx| n@),
            indices: self.indices@.map_values(|i: u32| i as int),
        }
    }
}

/// A well-formed mesh: one normal per vertex, whole triangles, indices in
/// range, and coordinates within the working bounds.
pub open spec fn mesh_wf(m: MeshV) -> bool {
    &&& m.normals.len() == m.positions.len()
    &&& m.indices.len() % 3 == 0
    &&& forall|i: int|
        0 <= i < m.indices.len() ==> 0 <= #[trigger] m.indices[i] < m.positions.len()
    &&& forall|i: int|
        0 <= i < m.positions.len() ==> v3_bounded(#[trigger] m.positions[i], MESH_POS_LIMIT as int)
    &&& forall|i: int|
        0 <= i < m.normals.len() ==> v3_bounded(#[trigger] m.normals[i], UNIT_LIMIT as int)
    &&& m.positions.len() <= MESH_LEN_CAP
    &&& m.indices.len() <= MESH_LEN_CAP
}

/// Number of triangles in a mesh.
pub open spec fn tri_count(m: MeshV) -> int {
    m.indices.len() as int / 3
}

/// A local-space point carried into world space: rotated, then translated.
pub open spec fn tr_point(q: Q4, t: V3, p: V3) -> V3 {
    v3_add(q4_rotate(q, p), t)
}

/// A local-space normal carried into world space: rotated, then normalized,
/// falling back to the world Y unit when the rotation rounds it away.
pub open spec fn tr_normal(q: Q4, n: V3) -> V3 {
    let r = q4_rotate(q, n);
    if v3_norm(r) == 0 {
        V3 { x: 0, y: fx::ONE as int, z: 0 }
    } else {
        v3_normalize(r)
    }
}

/// The mesh `dst` with every vertex of `src` appended in world space and
/// `src`'s indices rebased past `dst`'s vertices.
pub open spec fn mesh_append_transformed(dst: MeshV, src: MeshV, q: Q4, t: V3) -> MeshV {
    MeshV {
        positions: dst.positions + src.positions.map_values(|p: V3| tr_point(q, t, p)),
        normals: dst.normals + src.normals.map_values(|n: V3| tr_normal(q, n)),
        indices: dst.indices + src.indices.map_values(|i: int| i + dst.positions.len()),
    }
}

/// The mesh `dst` with `src` appended unchanged, indices rebased.
pub open spec fn mesh_append(dst: MeshV, src: MeshV) -> MeshV {
    MeshV {
        positions: dst.positions + src.positions,
        normals: dst.normals + src.normals,
        indices: dst.indices + src.indices.map_values(|i: int| i + dst.positions.len()),
    }
}

impl TriMesh {
    /// The empty mesh.
    pub fn new() -> (r: TriMesh)
        ensures
            r@.positions.len() == 0,
            r@.normals.len() == 0,
            r@.indices.len() == 0,
            mesh_wf(r@),
    {
        let r = TriMesh { positions: Vec::new(), normals: Vec::new(), indices: Vec::new() };
        proof {
            assert(0int % 3 == 0);
            assert(r@.positions =~= Seq::<V3>::empty());
            assert(r@.normals =~= Seq::<V3>::empty());
            assert(r@.indices =~= Seq::<int>::empty());
        }
        r
    }

    /// Append one vertex with its normal.
    pub fn push_vertex(&mut self, p: Vec3Fx, n: Vec3Fx)
        requires
            old(self)@.positions.len() < MESH_LEN_CAP,
        ensures
            final(self)@.positions == old(self)@.positions.push(p@),
            final(self)@.normals == old(self)@.normals.push(n@),
            final(self)@.indices == old(self)@.indices,
    {
        let ghost prep = self.positions@;
        let ghost pren = self.normals@;
        self.positions.push(p);
        self.normals.push(n);
        proof {
            prep.lemma_push_map_commute(|p: Vec3Fx| p@, p);
            pren.lemma_push_map_commute(|n: Vec3Fx| n@, n);
            assert(self@.positions =~= prep.map_values(|p: Vec3Fx| p@).push(p@));
            assert(self@.normals =~= pren.map_values(|n: Vec3Fx| n@).push(n@));
        }
    }

    /// Append one triangle index.
    pub fn push_index(&mut self, i: u32)
        requires
            old(self)@.indices.len() < MESH_LEN_CAP,
        ensures
            final(self)@.indices == old(self)@.indices.push(i as int),
            final(self)@.positions == old(self)@.positions,
            final(self)@.normals == old(self)@.normals,
    {
        let ghost pre = self.indices@;
        self.indices.push(i);
        proof {
            pre.lemma_push_map_commute(|i: u32| i as int, i);
            assert(self@.indices =~= pre.map_values(|i: u32| i as int).push(i as int));
        }
    }

    /// An element-for-element copy.
    pub fn duplicate(&self) -> (r: TriMesh)
        requires
            mesh_wf(self@),
        ensures
            r@ == self@,
    {
        let mut out = TriMesh::new();
        let mut i: usize = 0;
        while i < self.positions.len()
            invariant
                mesh_wf(self@),
                i <= self.positions.len(),
                out@.positions =~= self@.positions.subrange(0, i as int),
                out@.normals =~= self@.normals.subrange(0, i as int),
                out@.indices.len() == 0,
            decreases self.positions.len() - i,
        {
            let p = self.positions[i];
            let n = self.normals[i];
            proof {
                assert(self@.positions[i as int] == p@);
                assert(self@.normals[i as int] == n@);
            }
            out.push_vertex(p, n);
            proof {
                assert(out@.positions =~= self@.positions.subrange(0, i + 1));
                assert(out@.normals =~= self@.normals.subrange(0, i + 1));
            }
            i = i + 1;
        }
        let mut k: usize = 0;
        while k < self.indices.len()
            invariant
                mesh_wf(self@),
                k <= self.indices.len(),
                out@.positions =~= self@.positions,
                out@.normals =~= self@.normals,
                out@.indices =~= self@.indices.subrange(0, k as int),
            decreases self.indices.len() - k,
        {
            let idx = self.indices[k];
            proof {
                assert(self@.indices[k as int] == idx as int);
            }
            out.push_index(idx);
            proof {
                assert(out@.indices =~= self@.indices.subrange(0, k + 1));
            }
            k = k + 1;
        }
        proof {
            assert(self@.positions.subrange(0, self@.positions.len() as int) =~= self@.positions);
            assert(self@.normals.subrange(0, self@.normals.len() as int) =~= self@.normals);
            assert(self@.indices.subrange(0, self@.indices.len() as int) =~= self@.indices);
        }
        out
    }

    /// Append another mesh as-is, rebasing its indices.
    pub fn append(&mut self, other: TriMesh)
        requires
            mesh_wf(old(self)@),
            mesh_wf(other@),
            old(self)@.positions.len() + other@.positions.len() <= MESH_LEN_CAP,
            old(self)@.indices.len() + other@.indices.len() <= MESH_LEN_CAP,
        ensures
            final(self)@ == mesh_append(old(self)@, other@),
            mesh_wf(final(self)@),
    {
        let base: u32 = self.positions.len() as u32;
        let ghost base_i = self@.positions.len() as int;
        let mut i: usize = 0;
        while i < other.positions.len()
            invariant
                mesh_wf(old(self)@),
                mesh_wf(other@),
                i <= other.positions.len(),
                self@.positions =~= old(self)@.positions + other@.positions.subrange(0, i as int),
                self@.normals == old(self)@.normals,
                self@.indices == old(self)@.indices,
                self.positions.len() == old(self)@.positions.len() + i,
                old(self)@.positions.len() + other@.positions.len() <= MESH_LEN_CAP,
                self.positions.len() <= MESH_LEN_CAP,
            decreases other.positions.len() - i,
        {
            let p = other.positions[i];
            let ghost pre = self.positions@;
            self.positions.push(p);
            proof {
                pre.lemma_push_map_commute(|p: Vec3Fx| p@, p);
                assert(self@.positions =~= pre.map_values(|p: Vec3Fx| p@).push(p@));
                assert(other@.positions.subrange(0, i + 1) =~= other@.positions.subrange(
                    0,
                    i as int,
                ).push(p@));
                assert(self@.positions =~= old(self)@.positions + other@.positions.subrange(
                    0,
                    i + 1,
                ));
            }
            i = i + 1;
        }
        let mut j: usize = 0;
        while j < other.normals.len()
            invariant
                mesh_wf(old(self)@),
                mesh_wf(other@),
                j <= other.normals.len(),
                self@.positions =~= old(self)@.positions + other@.positions,
                self@.normals =~= old(self)@.normals + other@.normals.subrange(0, j as int),
                self@.indices == old(self)@.indices,
            decreases other.normals.len() - j,
        {
            let n = other.normals[j];
            let ghost pre = self.normals@;
            self.normals.push(n);
            proof {
                pre.lemma_push_map_commute(|n: Vec3Fx| n@, n);
                assert(self@.normals =~= pre.map_values(|n: Vec3Fx| n@).push(n@));
                assert(other@.normals.subrange(0, j + 1) =~= other@.normals.subrange(
                    0,
                    j as int,
                ).push(n@));
                assert(self@.normals =~= old(self)@.normals + other@.normals.subrange(0, j + 1));
            }
            j = j + 1;
        }
        let mut k: usize = 0;
        while k < other.indices.len()
            invariant
                mesh_wf(old(self)@),
                mesh_wf(other@),
                k <= other.indices.len(),
                base_i == old(self)@.positions.len(),
                base as int == base_i,
                self@.positions =~= old(self)@.positions + other@.positions,
                self@.normals =~= old(self)@.normals + other@.normals,
                self@.indices =~= old(self)@.indices + other@.indices.subrange(0, k as int)
                    .map_values(|i: int| i + base_i),
            decreases other.indices.len() - k,
        {
            let idx = other.indices[k];
            proof {
                assert(other@.indices[k as int] == idx as int);
                assert((idx as int) < other@.positions.len());
            }
            let ghost pre = self.indices@;
            self.indices.push(idx + base);
            proof {
                pre.lemma_push_map_commute(|i: u32| i as int, (idx + base) as u32);
                assert(self@.indices =~= pre.map_values(|i: u32| i as int).push(
                    idx as int + base_i,
                ));
                assert(other@.indices.subrange(0, k + 1) =~= other@.indices.subrange(
                    0,
                    k as int,
                ).push(idx as int));
                other@.indices.subrange(0, k as int).lemma_push_map_commute(
                    |i: int| i + base_i,
                    idx as int,
                );
                assert(self@.indices =~= old(self)@.indices + other@.indices.subrange(0, k + 1)
                    .map_values(|i: int| i + base_i));
            }
            k = k + 1;
        }
        proof {
            assert(other@.positions.subrange(0, other@.positions.len() as int) =~= other@.positions);
            assert(self@.positions =~= mesh_append(old(self)@, other@).positions);
            assert(self@.normals =~= mesh_append(old(self)@, other@).normals);
            assert(other@.indices.subrange(0, other@.indices.len() as int) =~= other@.indices);
            assert(self@.indices =~= mesh_append(old(self)@, other@).indices);
            lemma_append_wf(old(self)@, other@);
        }
    }
}

/// An axis-aligned bounding box as two corner points.
#[derive(Clone, Copy, PartialEq, Eq, Structural, Debug)]
pub struct Aabb {
    pub min: Vec3Fx,
    pub max: Vec3Fx,
}

/// A local mesh: well formed, with every vertex within `COORD_LIMIT` of the
/// object's own origin.
pub open spec fn mesh_local(m: MeshV) -> bool {
    &&& mesh_wf(m)
    &&& forall|i: int|
        0 <= i < m.positions.len() ==> v3_bounded(
            #[trigger] m.positions[i],
            fx::COORD_LIMIT as int,
        )
}

impl TriMesh {
    /// Append another mesh carried into world space by a rotation and a
    /// translation, rebasing its indices.
    pub fn append_transformed(&mut self, other: &TriMesh, t: Vec3Fx, q: QuatFx)
        requires
            mesh_wf(old(self)@),
            mesh_local(other@),
            v3_bounded(t@, fx::COORD_LIMIT as int),
            q4_bounded(q@, QUNIT_LIMIT as int),
            old(self)@.positions.len() + other@.positions.len() <= MESH_LEN_CAP,
            old(self)@.indices.len() + other@.indices.len() <= MESH_LEN_CAP,
        ensures
            final(self)@ == mesh_append_transformed(old(self)@, other@, q@, t@),
            mesh_wf(final(self)@),
    {
        let base: u32 = self.positions.len() as u32;
        let ghost base_i = self@.positions.len() as int;
        let mut i: usize = 0;
        while i < other.positions.len()
            invariant
                mesh_wf(old(self)@),
                mesh_local(other@),
                v3_bounded(t@, fx::COORD_LIMIT as int),
                q4_bounded(q@, QUNIT_LIMIT as int),
                i <= other.positions.len(),
                self@.positions =~= old(self)@.positions + other@.positions.subrange(
                    0,
                    i as int,
                ).map_values(|p: V3| tr_point(q@, t@, p)),
                self@.normals == old(self)@.normals,
                self@.indices == old(self)@.indices,
                self.positions.len() == old(self)@.positions.len() + i,
                old(self)@.positions.len() + other@.positions.len() <= MESH_LEN_CAP,
            decreases other.positions.len() - i,
        {
            let p = other.positions[i];
            proof {
                assert(other@.positions[i as int] == p@);
                crate::quat::lemma_rotate_bound(q@, p@, fx::COORD_LIMIT as int);
            }
            let moved = q.rotate(p).add(t);
            let ghost pre = self.positions@;
            self.positions.push(moved);
            proof {
                assert(moved@ == tr_point(q@, t@, p@));
                assert(v3_bounded(moved@, MESH_POS_LIMIT as int));
                pre.lemma_push_map_commute(|p: Vec3Fx| p@, moved);
                assert(self@.positions =~= pre.map_values(|p: Vec3Fx| p@).push(moved@));
                assert(other@.positions.subrange(0, i + 1) =~= other@.positions.subrange(
                    0,
                    i as int,
                ).push(p@));
                other@.positions.subrange(0, i as int).lemma_push_map_commute(
                    |p: V3| tr_point(q@, t@, p),
                    p@,
                );
                assert(self@.positions =~= old(self)@.positions + other@.positions.subrange(
                    0,
                    i + 1,
                ).map_values(|p: V3| tr_point(q@, t@, p)));
            }
            i = i + 1;
        }
        let mut j: usize = 0;
        while j < other.normals.len()
            invariant
                mesh_wf(old(self)@),
                mesh_local(other@),
                q4_bounded(q@, QUNIT_LIMIT as int),
                j <= other.normals.len(),
                self@.positions =~= old(self)@.positions + other@.positions.map_values(
                    |p: V3| tr_point(q@, t@, p),
                ),
                self@.normals =~= old(self)@.normals + other@.normals.subrange(0, j as int)
                    .map_values(|n: V3| tr_normal(q@, n)),
                self@.indices == old(self)@.indices,
            decreases other.normals.len() - j,
        {
            let n = other.normals[j];
            proof {
                assert(other@.normals[j as int] == n@);
            }
            let rotated = q.rotate(n);
            let ln = rotated.length();
            let carried = if ln == 0 {
                Vec3Fx::unit_y()
            } else {
                rotated.normalized()
            };
            let ghost pre = self.normals@;
            self.normals.push(carried);
            proof {
                assert(carried@ == tr_normal(q@, n@));
                assert(v3_bounded(carried@, UNIT_LIMIT as int));
                pre.lemma_push_map_commute(|n: Vec3Fx| n@, carried);
                assert(self@.normals =~= pre.map_values(|n: Vec3Fx| n@).push(carried@));
                assert(other@.normals.subrange(0, j + 1) =~= other@.normals.subrange(
                    0,
                    j as int,
                ).push(n@));
                other@.normals.subrange(0, j as int).lemma_push_map_commute(
                    |n: V3| tr_normal(q@, n),
                    n@,
                );
                assert(self@.normals =~= old(self)@.normals + other@.normals.subrange(0, j + 1)
                    .map_values(|n: V3| tr_normal(q@, n)));
            }
            j = j + 1;
        }
        let mut k: usize = 0;
        while k < other.indices.len()
            invariant
                mesh_wf(old(self)@),
                mesh_local(other@),
                k <= other.indices.len(),
                base_i == old(self)@.positions.len(),
                base as int == base_i,
                self@.positions =~= old(self)@.positions + other@.positions.map_values(
                    |p: V3| tr_point(q@, t@, p),
                ),
                self@.normals =~= old(self)@.normals + other@.normals.map_values(
                    |n: V3| tr_normal(q@, n),
                ),
                self@.indices =~= old(self)@.indices + other@.indices.subrange(0, k as int)
                    .map_values(|i: int| i + base_i),
            decreases other.indices.len() - k,
        {
            let idx = other.indices[k];
            proof {
                assert(other@.indices[k as int] == idx as int);
                assert((idx as int) < other@.positions.len());
            }
            let ghost pre = self.indices@;
            self.indices.push(idx + base);
            proof {
                pre.lemma_push_map_commute(|i: u32| i as int, (idx + base) as u32);
                assert(self@.indices =~= pre.map_values(|i: u32| i as int).push(
                    idx as int + base_i,
                ));
                assert(other@.indices.subrange(0, k + 1) =~= other@.indices.subrange(
                    0,
                    k as int,
                ).push(idx as int));
                other@.indices.subrange(0, k as int).lemma_push_map_commute(
                    |i: int| i + base_i,
                    idx as int,
                );
                assert(self@.indices =~= old(self)@.indices + other@.indices.subrange(0, k + 1)
                    .map_values(|i: int| i + base_i));
            }
            k = k + 1;
        }
        proof {
            let target = mesh_append_transformed(old(self)@, other@, q@, t@);
            assert(other@.positions.subrange(0, other@.positions.len() as int)
                =~= other@.positions);
            assert(other@.normals.subrange(0, other@.normals.len() as int) =~= other@.normals);
            assert(other@.indices.subrange(0, other@.indices.len() as int) =~= other@.indices);
            assert(self@.positions =~= target.positions);
            assert(self@.normals =~= target.normals);
            assert(self@.indices =~= target.indices);
            lemma_append_transformed_wf(old(self)@, other@, q@, t@);
        }
    }
}

/// `r` is the bounding radius of `m`: no vertex lies farther from the local
/// origin, some vertex attains it, and an empty mesh has radius 0.
pub open spec fn is_radius_of(m: MeshV, r: int) -> bool {
    &&& r >= 0
    &&& forall|i: int| 0 <= i < m.positions.len() ==> v3_norm(#[trigger] m.positions[i]) <= r
    &&& m.positions.len() == 0 ==> r == 0
    &&& m.positions.len() > 0 ==> exists|i: int|
        0 <= i < m.positions.len() && r == v3_norm(#[trigger] m.positions[i])
}

/// `a` is the bounding box of `m`: it contains every vertex, each of its six
/// planes touches one, and it is zero-sized at the origin for an empty mesh.
pub open spec fn is_aabb_of(m: MeshV, a: Aabb) -> bool {
    &&& m.positions.len() == 0 ==> a.min@ == crate::vec3::v3_zero() && a.max@
        == crate::vec3::v3_zero()
    &&& forall|i: int|
        0 <= i < m.positions.len() ==> {
            let p = #[trigger] m.positions[i];
            a.min@.x <= p.x <= a.max@.x && a.min@.y <= p.y <= a.max@.y && a.min@.z <= p.z
                <= a.max@.z
        }
    &&& m.positions.len() > 0 ==> {
        &&& exists|i: int| 0 <= i < m.positions.len() && a.min@.x == #[trigger] m.positions[i].x
        &&& exists|i: int| 0 <= i < m.positions.len() && a.min@.y == #[trigger] m.positions[i].y
        &&& exists|i: int| 0 <= i < m.positions.len() && a.min@.z == #[trigger] m.positions[i].z
        &&& exists|i: int| 0 <= i < m.positions.len() && a.max@.x == #[trigger] m.positions[i].x
        &&& exists|i: int| 0 <= i < m.positions.len() && a.max@.y == #[trigger] m.positions[i].y
        &&& exists|i: int| 0 <= i < m.positions.len() && a.max@.z == #[trigger] m.positions[i].z
    }
}

/// Greatest distance from the local origin to any vertex, in raw units; 0
/// for an empty mesh.
pub fn mesh_bounds_radius(mesh: &TriMesh) -> (r: i128)
    requires
        mesh_wf(mesh@),
    ensures
        is_radius_of(mesh@, r as int),
{
    let mut best: i128 = 0;
    let mut i: usize = 0;
    while i < mesh.positions.len()
        invariant
            mesh_wf(mesh@),
            i <= mesh@.positions.len(),
            best >= 0,
            forall|j: int| 0 <= j < i ==> v3_norm(#[trigger] mesh@.positions[j]) <= best,
            i == 0 ==> best == 0,
            i > 0 ==> exists|j: int|
                0 <= j < i && best == v3_norm(#[trigger] mesh@.positions[j]),
        decreases mesh.positions.len() - i,
    {
        let p = mesh.positions[i];
        proof {
            assert(mesh@.positions[i as int] == p@);
        }
        let ln = p.length();
        if ln > best || i == 0 {
            best = ln;
        }
        i = i + 1;
    }
    best
}

/// Smallest axis-aligned box containing every vertex; zero-sized at the
/// origin for an empty mesh.
pub fn mesh_bounds_aabb(mesh: &TriMesh) -> (r: Aabb)
    requires
        mesh_wf(mesh@),
    ensures
        is_aabb_of(mesh@, r),
{
    if mesh.positions.len() == 0 {
        return Aabb { min: Vec3Fx::zero(), max: Vec3Fx::zero() };
    }
    let first = mesh.positions[0];
    proof {
        assert(mesh@.positions[0] == first@);
    }
    let mut lo = first;
    let mut hi = first;
    let mut i: usize = 1;
    while i < mesh.positions.len()
        invariant
            mesh_wf(mesh@),
            mesh@.positions.len() > 0,
            1 <= i <= mesh@.positions.len(),
            forall|j: int|
                0 <= j < i ==> {
                    let p = #[trigger] mesh@.positions[j];
                    lo@.x <= p.x <= hi@.x && lo@.y <= p.y <= hi@.y && lo@.z <= p.z <= hi@.z
                },
            exists|j: int| 0 <= j < i && lo@.x == #[trigger] mesh@.positions[j].x,
            exists|j: int| 0 <= j < i && lo@.y == #[trigger] mesh@.positions[j].y,
            exists|j: int| 0 <= j < i && lo@.z == #[trigger] mesh@.positions[j].z,
            exists|j: int| 0 <= j < i && hi@.x == #[trigger] mesh@.positions[j].x,
            exists|j: int| 0 <= j < i && hi@.y == #[trigger] mesh@.positions[j].y,
            exists|j: int| 0 <= j < i && hi@.z == #[trigger] mesh@.positions[j].z,
        decreases mesh.positions.len() - i,
    {
        let p = mesh.positions[i];
        proof {
            assert(mesh@.positions[i as int] == p@);
        }
        if p.x < lo.x {
            lo.x = p.x;
        }
        if p.y < lo.y {
            lo.y = p.y;
        }
        if p.z < lo.z {
            lo.z = p.z;
        }
        if p.x > hi.x {
            hi.x = p.x;
        }
        if p.y > hi.y {
            hi.y = p.y;
        }
        if p.z > hi.z {
            hi.z = p.z;
        }
        i = i + 1;
    }
    Aabb { min: lo, max: hi }
}

/// Appending a transformed well-formed local mesh yields a well-formed mesh.
pub proof fn lemma_append_transformed_wf(dst: MeshV, src: MeshV, q: Q4, t: V3)
    requires
        mesh_wf(dst),
        mesh_local(src),
        v3_bounded(t, fx::COORD_LIMIT as int),
        q4_bounded(q, QUNIT_LIMIT as int),
        dst.positions.len() + src.positions.len() <= MESH_LEN_CAP,
        dst.indices.len() + src.indices.len() <= MESH_LEN_CAP,
    ensures
        mesh_wf(mesh_append_transformed(dst, src, q, t)),
{
    let m = mesh_append_transformed(dst, src, q, t);
    vstd::arithmetic::div_mod::lemma_add_mod_noop(
        dst.indices.len() as int,
        src.indices.len() as int,
        3,
    );
    assert forall|i: int| 0 <= i < m.indices.len() implies 0 <= #[trigger] m.indices[i]
        < m.positions.len() by {
        if i >= dst.indices.len() {
            assert(m.indices[i] == src.indices[i - dst.indices.len()] + dst.positions.len());
        }
    }
    assert forall|i: int| 0 <= i < m.positions.len() implies v3_bounded(
        #[trigger] m.positions[i],
        MESH_POS_LIMIT as int,
    ) by {
        if i >= dst.positions.len() {
            let p = src.positions[i - dst.positions.len()];
            crate::quat::lemma_rotate_bound(q, p, fx::COORD_LIMIT as int);
            assert(m.positions[i] == tr_point(q, t, p));
        }
    }
    assert forall|i: int| 0 <= i < m.normals.len() implies v3_bounded(
        #[trigger] m.normals[i],
        UNIT_LIMIT as int,
    ) by {
        if i >= dst.normals.len() {
            let n = src.normals[i - dst.normals.len()];
            assert(m.normals[i] == tr_normal(q, n));
            lemma_tr_normal_bounded(q, n);
        }
    }
}

/// A carried normal stays within the unit bound.
proof fn lemma_tr_normal_bounded(q: Q4, n: V3)
    requires
        q4_bounded(q, QUNIT_LIMIT as int),
        v3_bounded(n, UNIT_LIMIT as int),
    ensures
        v3_bounded(tr_normal(q, n), UNIT_LIMIT as int),
{
    let r = q4_rotate(q, n);
    if v3_norm(r) != 0 {
        crate::vec3::lemma_self_dot_nonneg(r);
        crate::fx::lemma_sqrt_floor_bounds(crate::vec3::v3_dot(r, r) * (fx::ONE as int));
        crate::vec3::lemma_normalize_bounded(r, v3_norm(r));
    }
}

/// Appending one well-formed mesh to another yields a well-formed mesh.
proof fn lemma_append_wf(dst: MeshV, src: MeshV)
    requires
        mesh_wf(dst),
        mesh_wf(src),
        dst.positions.len() + src.positions.len() <= MESH_LEN_CAP,
        dst.indices.len() + src.indices.len() <= MESH_LEN_CAP,
    ensures
        mesh_wf(mesh_append(dst, src)),
{
    let m = mesh_append(dst, src);
    vstd::arithmetic::div_mod::lemma_add_mod_noop(
        dst.indices.len() as int,
        src.indices.len() as int,
        3,
    );
    assert(m.indices.len() == dst.indices.len() + src.indices.len());
    assert(forall|i: int| 0 <= i < m.indices.len() ==> 0 <= #[trigger] m.indices[i]
        < m.positions.len()) by {
        assert forall|i: int| 0 <= i < m.indices.len() implies 0 <= #[trigger] m.indices[i]
            < m.positions.len() by {
            if i >= dst.indices.len() {
                assert(m.indices[i] == src.indices[i - dst.indices.len()]
                    + dst.positions.len());
            }
        }
    }
}

} // verus!
