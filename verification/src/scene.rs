//! The scene: objects, their cached local meshes, and the combined render
//! mesh.
//!
//! The combined mesh is a cache, never a source of truth. Its invariant,
//! part of [`scene_wf`], is that whenever it is present it equals the
//! combination of every object's current local mesh and placement — so no
//! reader ever sees a stale object mixed with a fresh one. Every mutation
//! clears it; [`GeomScene::mesh`] rebuilds it on the next read.

use crate::fx;
use crate::mesh::{
    is_aabb_of, is_radius_of, mesh_append_transformed, mesh_local, mesh_wf, tri_count, Aabb,
    MeshV, TriMesh, MESH_LEN_CAP,
};
use crate::model::{
    kind_wf, model_wf, object_wf, transform_wf, Model, ModelObject, ModelV, ObjectId, ObjectKind,
    Transform, MODEL_LEN_CAP,
};
use crate::quat::Q4;
use crate::shapes::{box_mesh_v, cyl_mesh_v, tessellate_box, tessellate_cylinder};
use crate::vec3::V3;
use vstd::prelude::*;

verus! {

/// What can go wrong when reading the scene.
#[derive(Clone, Copy, PartialEq, Eq, Structural, Debug)]
pub enum GeomError {
    EmptyScene,
}

impl GeomError {
    /// A short description, in place of a formatted display.
    pub fn message(&self) -> (r: &'static str)
        ensures
            r@ == "no solids in scene"@,
    {
        "no solids in scene"
    }
}

/// The empty mesh.
pub open spec fn empty_mesh_v() -> MeshV {
    MeshV { positions: Seq::empty(), normals: Seq::empty(), indices: Seq::empty() }
}

/// The combination of the first `n` objects: each local mesh carried into
/// world space by its object's placement and appended in order.
pub open spec fn combined_upto(objs: Seq<ModelObject>, meshes: Seq<MeshV>, n: int) -> MeshV
    decreases n,
{
    if n <= 0 {
        empty_mesh_v()
    } else {
        mesh_append_transformed(
            combined_upto(objs, meshes, n - 1),
            meshes[n - 1],
            objs[n - 1].transform.rotation@,
            objs[n - 1].transform.translation@,
        )
    }
}

/// Mathematical view of a scene.
pub ghost struct SceneV {
    pub objects: Seq<ModelObject>,
    pub next_id: int,
    pub meshes: Seq<MeshV>,
    pub radii: Seq<int>,
    pub aabbs: Seq<Aabb>,
    pub cache: Option<MeshV>,
}

/// The combined render mesh the scene currently describes.
pub open spec fn combined_of(s: SceneV) -> MeshV {
    combined_upto(s.objects, s.meshes, s.objects.len() as int)
}

/// Per-object cap on local mesh vertices.
pub const LOCAL_POS_CAP: usize = 256;

/// Per-object cap on local mesh indices.
pub const LOCAL_IDX_CAP: usize = 512;

/// Scene that keeps model data separate from render meshes.
pub struct GeomScene {
    pub model: Model,
    pub local_meshes: Vec<TriMesh>,
    pub bounds_radius: Vec<i128>,
    pub local_aabbs: Vec<Aabb>,
    pub mesh_cache: Option<TriMesh>,
}

impl View for GeomScene {
    type V = SceneV;

    open spec fn view(&self) -> SceneV {
        SceneV {
            objects: self.model@.objects,
            next_id: self.model@.next_id,
            meshes: self.local_meshes@.map_values(|m: TriMesh| m@),
            radii: self.bounds_radius@.map_values(|r: i128| r as int),
            aabbs: self.local_aabbs@,
            cache: match self.mesh_cache {
                Option::Some(ref m) => Option::Some(m@),
                Option::None => Option::None,
            },
        }
    }
}

/// A well-formed scene: a well-formed model, one local mesh with its two
/// summaries per object, and a combined-mesh cache that, when present, is
/// exactly the combination of the current local meshes and placements.
pub open spec fn scene_wf(s: SceneV) -> bool {
    &&& model_wf(ModelV { objects: s.objects, next_id: s.next_id })
    &&& s.meshes.len() == s.objects.len()
    &&& s.radii.len() == s.objects.len()
    &&& s.aabbs.len() == s.objects.len()
    &&& forall|i: int| 0 <= i < s.meshes.len() ==> mesh_local(#[trigger] s.meshes[i])
    &&& forall|i: int|
        0 <= i < s.meshes.len() ==> (#[trigger] s.meshes[i]).positions.len() <= LOCAL_POS_CAP
            && s.meshes[i].indices.len() <= LOCAL_IDX_CAP
    &&& forall|i: int|
        0 <= i < s.meshes.len() ==> is_radius_of(#[trigger] s.meshes[i], s.radii[i])
    &&& forall|i: int| 0 <= i < s.meshes.len() ==> is_aabb_of(#[trigger] s.meshes[i], s.aabbs[i])
    &&& match s.cache {
        Option::Some(c) => c == combined_of(s),
        Option::None => true,
    }
}

/// The combination of the first `n` objects is well formed and its sizes
/// stay within the global mesh caps.
pub proof fn lemma_combined_upto_wf(objs: Seq<ModelObject>, meshes: Seq<MeshV>, n: int)
    requires
        0 <= n <= objs.len(),
        meshes.len() == objs.len(),
        objs.len() <= MODEL_LEN_CAP,
        forall|i: int| 0 <= i < meshes.len() ==> mesh_local(#[trigger] meshes[i]),
        forall|i: int|
            0 <= i < meshes.len() ==> (#[trigger] meshes[i]).positions.len() <= LOCAL_POS_CAP
                && meshes[i].indices.len() <= LOCAL_IDX_CAP,
        forall|i: int| 0 <= i < objs.len() ==> object_wf(#[trigger] objs[i]),
    ensures
        mesh_wf(combined_upto(objs, meshes, n)),
        combined_upto(objs, meshes, n).positions.len() <= n * LOCAL_POS_CAP,
        combined_upto(objs, meshes, n).indices.len() <= n * LOCAL_IDX_CAP,
    decreases n,
{
    if n <= 0 {
        assert(0int % 3 == 0);
    } else {
        lemma_combined_upto_wf(objs, meshes, n - 1);
        let prev = combined_upto(objs, meshes, n - 1);
        assert(prev.positions.len() + meshes[n - 1].positions.len() <= MESH_LEN_CAP);
        assert(prev.indices.len() + meshes[n - 1].indices.len() <= MESH_LEN_CAP);
        crate::mesh::lemma_append_transformed_wf(
            prev,
            meshes[n - 1],
            objs[n - 1].transform.rotation@,
            objs[n - 1].transform.translation@,
        );
    }
}

/// A cached bounding radius never exceeds twice the coordinate limit.
pub proof fn lemma_scene_radius_bounded(s: SceneV, i: int)
    requires
        scene_wf(s),
        0 <= i < s.objects.len(),
    ensures
        0 <= s.radii[i] <= 2 * fx::COORD_LIMIT,
{
    let m = s.meshes[i];
    assert(is_radius_of(m, s.radii[i]));
    if m.positions.len() > 0 {
        let j = choose|j: int|
            0 <= j < m.positions.len() && s.radii[i] == crate::vec3::v3_norm(
                #[trigger] m.positions[j],
            );
        crate::vec3::lemma_norm_bounded(m.positions[j], fx::COORD_LIMIT as int);
    }
}

/// Total index count of the first `n` local meshes.
pub open spec fn total_indices(meshes: Seq<MeshV>, n: int) -> int
    decreases n,
{
    if n <= 0 {
        0
    } else {
        total_indices(meshes, n - 1) + meshes[n - 1].indices.len()
    }
}

/// Total triangle count of the first `n` local meshes.
pub open spec fn total_tris(meshes: Seq<MeshV>, n: int) -> int
    decreases n,
{
    if n <= 0 {
        0
    } else {
        total_tris(meshes, n - 1) + tri_count(meshes[n - 1])
    }
}

/// The combined mesh neither loses nor duplicates geometry: its index count
/// is the sum of every object's local index count, and its triangle count
/// the sum of their triangle counts.
pub proof fn lemma_combined_triangle_count(s: SceneV)
    requires
        scene_wf(s),
    ensures
        combined_of(s).indices.len() == total_indices(s.meshes, s.objects.len() as int),
        tri_count(combined_of(s)) == total_tris(s.meshes, s.objects.len() as int),
{
    lemma_combined_count_upto(s.objects, s.meshes, s.objects.len() as int);
}

/// Induction for [`lemma_combined_triangle_count`].
proof fn lemma_combined_count_upto(objs: Seq<ModelObject>, meshes: Seq<MeshV>, n: int)
    requires
        0 <= n <= objs.len(),
        meshes.len() == objs.len(),
        forall|i: int| 0 <= i < meshes.len() ==> mesh_local(#[trigger] meshes[i]),
    ensures
        combined_upto(objs, meshes, n).indices.len() == total_indices(meshes, n),
        combined_upto(objs, meshes, n).indices.len() % 3 == 0,
        tri_count(combined_upto(objs, meshes, n)) == total_tris(meshes, n),
    decreases n,
{
    if n <= 0 {
        assert(0int % 3 == 0);
        assert(0int / 3 == 0);
    } else {
        lemma_combined_count_upto(objs, meshes, n - 1);
        let a = combined_upto(objs, meshes, n - 1).indices.len() as int;
        let b = meshes[n - 1].indices.len() as int;
        vstd::arithmetic::div_mod::lemma_fundamental_div_mod(a, 3);
        vstd::arithmetic::div_mod::lemma_fundamental_div_mod(b, 3);
        let qa = a / 3;
        let qb = b / 3;
        assert(a + b == 3 * (qa + qb));
        vstd::arithmetic::div_mod::lemma_div_multiples_vanish(qa + qb, 3);
        vstd::arithmetic::div_mod::lemma_mod_multiples_basic(qa + qb, 3);
        assert((qa + qb) * 3 == 3 * (qa + qb)) by (nonlinear_arith);
        assert((a + b) / 3 == qa + qb);
        assert((a + b) % 3 == 0);
    }
}

impl GeomScene {
    /// The empty scene.
    pub fn new() -> (r: GeomScene)
        ensures
            r@.objects.len() == 0,
            r@.cache is None,
            scene_wf(r@),
    {
        let r = GeomScene {
            model: Model::new(),
            local_meshes: Vec::new(),
            bounds_radius: Vec::new(),
            local_aabbs: Vec::new(),
            mesh_cache: None,
        };
        proof {
            assert(r@.meshes =~= Seq::<MeshV>::empty());
            assert(r@.radii =~= Seq::<int>::empty());
        }
        r
    }

    /// The underlying model.
    pub fn model(&self) -> (r: &Model)
        ensures
            r@.objects == self@.objects,
            r@.next_id == self@.next_id,
    {
        &self.model
    }

    /// The placement of the object carrying `id`, if any.
    pub fn object_transform(&self, id: ObjectId) -> (r: Option<Transform>)
        ensures
            match r {
                Some(t) => exists|i: int|
                    0 <= i < self@.objects.len() && (#[trigger] self@.objects[i]).id == id && t
                        == self@.objects[i].transform,
                None => forall|i: int|
                    0 <= i < self@.objects.len() ==> (#[trigger] self@.objects[i]).id != id,
            },
    {
        match self.model.object(id) {
            Some(o) => Some(o.transform),
            None => None,
        }
    }

    /// The bounding radius of the object carrying `id`, if any.
    pub fn bounds_radius(&self, id: ObjectId) -> (r: Option<i128>)
        requires
            scene_wf(self@),
        ensures
            match r {
                Some(rv) => exists|i: int|
                    0 <= i < self@.objects.len() && (#[trigger] self@.objects[i]).id == id
                        && rv as int == self@.radii[i] && is_radius_of(self@.meshes[i], rv as int),
                None => forall|i: int|
                    0 <= i < self@.objects.len() ==> (#[trigger] self@.objects[i]).id != id,
            },
    {
        match self.model.index_of(id) {
            Some(i) => Some(self.bounds_radius[i]),
            None => None,
        }
    }

    /// The local-space bounding box of the object carrying `id`, if any.
    pub fn local_aabb(&self, id: ObjectId) -> (r: Option<Aabb>)
        requires
            scene_wf(self@),
        ensures
            match r {
                Some(a) => exists|i: int|
                    0 <= i < self@.objects.len() && (#[trigger] self@.objects[i]).id == id && a
                        == self@.aabbs[i] && is_aabb_of(self@.meshes[i], a),
                None => forall|i: int|
                    0 <= i < self@.objects.len() ==> (#[trigger] self@.objects[i]).id != id,
            },
    {
        match self.model.index_of(id) {
            Some(i) => Some(self.local_aabbs[i]),
            None => None,
        }
    }

    /// Replace the placement of the object carrying `id` and clear the
    /// combined-mesh cache; false (and no change) when no object carries it.
    pub fn set_object_transform(&mut self, id: ObjectId, transform: Transform) -> (r: bool)
        requires
            scene_wf(old(self)@),
            transform_wf(transform@),
        ensures
            scene_wf(final(self)@),
            r == exists|i: int|
                0 <= i < old(self)@.objects.len() && (#[trigger] old(self)@.objects[i]).id == id,
            r ==> exists|i: int|
                {
                    &&& 0 <= i < old(self)@.objects.len()
                    &&& (#[trigger] old(self)@.objects[i]).id == id
                    &&& final(self)@.objects == old(self)@.objects.update(
                        i,
                        ModelObject {
                            id: old(self)@.objects[i].id,
                            kind: old(self)@.objects[i].kind,
                            transform,
                        },
                    )
                },
            r ==> final(self)@.cache is None,
            !r ==> final(self)@ == old(self)@,
            final(self)@.meshes == old(self)@.meshes,
            final(self)@.radii == old(self)@.radii,
            final(self)@.aabbs == old(self)@.aabbs,
            final(self)@.next_id == old(self)@.next_id,
    {
        let changed = self.model.set_transform(id, transform);
        if changed {
            self.mesh_cache = None;
        }
        changed
    }

    /// Add a box; its local mesh and bounding summaries are computed now,
    /// and the combined-mesh cache is cleared.
    pub fn add_box(&mut self, w: i128, h: i128, d: i128) -> (r: ObjectId)
        requires
            scene_wf(old(self)@),
            old(self)@.objects.len() < MODEL_LEN_CAP,
            0 <= w <= fx::COORD_LIMIT,
            0 <= h <= fx::COORD_LIMIT,
            0 <= d <= fx::COORD_LIMIT,
        ensures
            scene_wf(final(self)@),
            r as int == old(self)@.next_id,
            final(self)@.next_id == old(self)@.next_id + 1,
            final(self)@.objects == old(self)@.objects.push(
                ModelObject {
                    id: r,
                    kind: ObjectKind::Box { w, h, d },
                    transform: Transform {
                        translation: crate::vec3::Vec3Fx { x: 0, y: 0, z: 0 },
                        rotation: crate::quat::QuatFx { x: 0, y: 0, z: 0, w: fx::ONE },
                    },
                },
            ),
            final(self)@.meshes == old(self)@.meshes.push(box_mesh_v(w as int, h as int, d as int)),
            final(self)@.radii.len() == old(self)@.radii.len() + 1,
            is_radius_of(box_mesh_v(w as int, h as int, d as int), final(self)@.radii.last()),
            is_aabb_of(box_mesh_v(w as int, h as int, d as int), final(self)@.aabbs.last()),
            final(self)@.cache is None,
    {
        let id = self.model.add_box(w, h, d);
        let mesh = tessellate_box(w, h, d);
        let radius = crate::mesh::mesh_bounds_radius(&mesh);
        let aabb = crate::mesh::mesh_bounds_aabb(&mesh);
        self.push_cached_entry(mesh, radius, aabb);
        id
    }

    /// Add a cylinder; its local mesh and bounding summaries are computed
    /// now, and the combined-mesh cache is cleared.
    pub fn add_cylinder(&mut self, rad: i128, h: i128) -> (r: ObjectId)
        requires
            scene_wf(old(self)@),
            old(self)@.objects.len() < MODEL_LEN_CAP,
            0 <= rad <= fx::COORD_LIMIT,
            0 <= h <= fx::COORD_LIMIT,
        ensures
            scene_wf(final(self)@),
            r as int == old(self)@.next_id,
            final(self)@.next_id == old(self)@.next_id + 1,
            final(self)@.objects == old(self)@.objects.push(
                ModelObject {
                    id: r,
                    kind: ObjectKind::Cylinder { r: rad, h },
                    transform: Transform {
                        translation: crate::vec3::Vec3Fx { x: 0, y: 0, z: 0 },
                        rotation: crate::quat::QuatFx { x: 0, y: 0, z: 0, w: fx::ONE },
                    },
                },
            ),
            final(self)@.meshes == old(self)@.meshes.push(cyl_mesh_v(rad as int, h as int)),
            final(self)@.radii.len() == old(self)@.radii.len() + 1,
            is_radius_of(cyl_mesh_v(rad as int, h as int), final(self)@.radii.last()),
            is_aabb_of(cyl_mesh_v(rad as int, h as int), final(self)@.aabbs.last()),
            final(self)@.cache is None,
    {
        let id = self.model.add_cylinder(rad, h);
        let mesh = tessellate_cylinder(rad, h);
        let radius = crate::mesh::mesh_bounds_radius(&mesh);
        let aabb = crate::mesh::mesh_bounds_aabb(&mesh);
        self.push_cached_entry(mesh, radius, aabb);
        id
    }

    /// Record a freshly tessellated local mesh with its summaries and clear
    /// the combined-mesh cache.
    fn push_cached_entry(&mut self, mesh: TriMesh, radius: i128, aabb: Aabb)
        requires
            mesh_local(mesh@),
            mesh@.positions.len() <= LOCAL_POS_CAP,
            mesh@.indices.len() <= LOCAL_IDX_CAP,
            is_radius_of(mesh@, radius as int),
            is_aabb_of(mesh@, aabb),
        ensures
            final(self)@.meshes == old(self)@.meshes.push(mesh@),
            final(self)@.radii == old(self)@.radii.push(radius as int),
            final(self)@.aabbs == old(self)@.aabbs.push(aabb),
            final(self)@.cache is None,
            final(self)@.objects == old(self)@.objects,
            final(self)@.next_id == old(self)@.next_id,
            final(self)@.radii.last() == radius as int,
            final(self)@.aabbs.last() == aabb,
    {
        let ghost prem = self.local_meshes@;
        let ghost prer = self.bounds_radius@;
        self.local_meshes.push(mesh);
        self.bounds_radius.push(radius);
        self.local_aabbs.push(aabb);
        self.mesh_cache = None;
        proof {
            prem.lemma_push_map_commute(|m: TriMesh| m@, self.local_meshes@.last());
            assert(self@.meshes =~= prem.map_values(|m: TriMesh| m@).push(
                self.local_meshes@.last()@,
            ));
            prer.lemma_push_map_commute(|r: i128| r as int, radius);
            assert(self@.radii =~= prer.map_values(|r: i128| r as int).push(radius as int));
        }
    }

    /// The combined render mesh: every object's local mesh carried into
    /// world space by its current placement and appended in order. Returns
    /// the cache when it is present, rebuilds and fills it otherwise; fails
    /// exactly on an empty scene.
    pub fn mesh(&mut self) -> (r: Result<TriMesh, GeomError>)
        requires
            scene_wf(old(self)@),
        ensures
            scene_wf(final(self)@),
            final(self)@.objects == old(self)@.objects,
            final(self)@.meshes == old(self)@.meshes,
            final(self)@.radii == old(self)@.radii,
            final(self)@.aabbs == old(self)@.aabbs,
            final(self)@.next_id == old(self)@.next_id,
            match r {
                Ok(c) => old(self)@.objects.len() > 0 && c@ == combined_of(old(self)@)
                    && final(self)@.cache == Option::Some(c@),
                Err(e) => old(self)@.objects.len() == 0 && e == GeomError::EmptyScene
                    && final(self)@ == old(self)@,
            },
            old(self)@.cache is Some ==> final(self)@ == old(self)@,
    {
        proof {
            lemma_combined_upto_wf(
                self@.objects,
                self@.meshes,
                self@.objects.len() as int,
            );
        }
        if self.model.objects.len() == 0 {
            return Err(GeomError::EmptyScene);
        }
        match &self.mesh_cache {
            Some(cached) => {
                return Ok(cached.duplicate());
            },
            None => {},
        }
        let mut combined = TriMesh::new();
        proof {
            assert(combined@.positions =~= empty_mesh_v().positions);
            assert(combined@.normals =~= empty_mesh_v().normals);
            assert(combined@.indices =~= empty_mesh_v().indices);
        }
        let mut idx: usize = 0;
        while idx < self.model.objects.len()
            invariant
                scene_wf(self@),
                self@.objects.len() > 0,
                idx <= self@.objects.len(),
                combined@ == combined_upto(self@.objects, self@.meshes, idx as int),
                mesh_wf(combined@),
            decreases self.model.objects.len() - idx,
        {
            proof {
                lemma_combined_upto_wf(self@.objects, self@.meshes, idx as int);
                assert(self@.meshes[idx as int] == self.local_meshes@[idx as int]@);
            }
            let obj = self.model.objects[idx];
            combined.append_transformed(
                &self.local_meshes[idx],
                obj.transform.translation,
                obj.transform.rotation,
            );
            idx = idx + 1;
        }
        self.mesh_cache = Some(combined.duplicate());
        Ok(combined)
    }
}

} // verus!
