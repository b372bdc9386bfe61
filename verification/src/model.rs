//! Object identities, shapes and placements.
//!
//! A `Model` owns the ordered list of objects. Identifiers count up from
//! zero, are never reused, and lookups find the first object carrying an id.
//! A `Transform` always holds a renormalized rotation: constructors route
//! every incoming quaternion through `q4_renormalize`, which falls back to
//! the identity when the input's length rounds to zero.

use crate::fx;
use crate::quat::{q4_bounded, q4_identity, q4_renormalize, Q4, QuatFx, QUNIT_LIMIT};
use crate::vec3::{v3_bounded, v3_zero, V3, Vec3Fx};
use vstd::prelude::*;

verus! {

pub type ObjectId = u64;

/// Cap on the number of objects a model may hold, so that the combined mesh
/// of the whole scene stays within the mesh size caps.
pub const MODEL_LEN_CAP: usize = 0x8000;

/// Mathematical view of a placement.
pub ghost struct TransformV {
    pub translation: V3,
    pub rotation: Q4,
}

/// A rigid placement: a translation and a rotation.
#[derive(Clone, Copy, PartialEq, Eq, Structural, Debug)]
pub struct Transform {
    pub translation: Vec3Fx,
    pub rotation: QuatFx,
}

impl View for Transform {
    type V = TransformV;

    open spec fn view(&self) -> TransformV {
        TransformV { translation: self.translation@, rotation: self.rotation@ }
    }
}

/// A well-formed placement: the translation is within the scene bounds and
/// the rotation is near-unit.
pub open spec fn transform_wf(t: TransformV) -> bool {
    &&& v3_bounded(t.translation, fx::COORD_LIMIT as int)
    &&& q4_bounded(t.rotation, QUNIT_LIMIT as int)
}

impl Transform {
    /// The identity placement.
    pub fn identity() -> (r: Transform)
        ensures
            r@.translation == v3_zero(),
            r@.rotation == q4_identity(),
            transform_wf(r@),
    {
        Transform { translation: Vec3Fx::zero(), rotation: QuatFx::identity() }
    }

    /// A placement from a translation and a rotation; the rotation is
    /// renormalized, and one whose length rounds to zero becomes the
    /// identity.
    pub fn new(translation: Vec3Fx, rotation: QuatFx) -> (r: Transform)
        requires
            v3_bounded(translation@, fx::COORD_LIMIT as int),
            q4_bounded(rotation@, 0x4000000000000000),
        ensures
            r@.translation == translation@,
            r@.rotation == q4_renormalize(rotation@),
            transform_wf(r@),
    {
        Transform { translation, rotation: rotation.renormalize() }
    }
}

impl Default for Transform {
    /// The identity placement.
    fn default() -> (r: Transform)
        ensures
            r@.translation == v3_zero(),
            r@.rotation == q4_identity(),
            transform_wf(r@),
    {
        Transform::identity()
    }
}

/// The shape a solid was created from, in raw units.
#[derive(Clone, Copy, PartialEq, Eq, Structural, Debug)]
pub enum ObjectKind {
    Box { w: i128, h: i128, d: i128 },
    Cylinder { r: i128, h: i128 },
}

/// A well-formed shape: every extent is nonnegative and within the scene
/// bounds.
pub open spec fn kind_wf(k: ObjectKind) -> bool {
    match k {
        ObjectKind::Box { w, h, d } => 0 <= w <= fx::COORD_LIMIT && 0 <= h <= fx::COORD_LIMIT && 0
            <= d <= fx::COORD_LIMIT,
        ObjectKind::Cylinder { r, h } => 0 <= r <= fx::COORD_LIMIT && 0 <= h <= fx::COORD_LIMIT,
    }
}

/// One object: its identity, its shape, and its placement.
#[derive(Clone, Copy, PartialEq, Eq, Structural, Debug)]
pub struct ModelObject {
    pub id: ObjectId,
    pub kind: ObjectKind,
    pub transform: Transform,
}

pub open spec fn object_wf(o: ModelObject) -> bool {
    &&& kind_wf(o.kind)
    &&& transform_wf(o.transform@)
}

/// Mathematical view of a model.
pub ghost struct ModelV {
    pub objects: Seq<ModelObject>,
    pub next_id: int,
}

/// The ordered store of objects.
#[derive(Clone, Debug)]
pub struct Model {
    pub objects: Vec<ModelObject>,
    pub next_id: ObjectId,
}

impl View for Model {
    type V = ModelV;

    open spec fn view(&self) -> ModelV {
        ModelV { objects: self.objects@, next_id: self.next_id as int }
    }
}

/// A well-formed model: every object is well formed, the object at position
/// `i` carries id `i`, and the next id is the object count.
pub open spec fn model_wf(m: ModelV) -> bool {
    &&& forall|i: int| 0 <= i < m.objects.len() ==> object_wf(#[trigger] m.objects[i])
    &&& forall|i: int| 0 <= i < m.objects.len() ==> (#[trigger] m.objects[i]).id as int == i
    &&& m.next_id == m.objects.len()
    &&& m.objects.len() <= MODEL_LEN_CAP
}

impl Model {
    /// The empty model.
    pub fn new() -> (r: Model)
        ensures
            r@.objects.len() == 0,
            r@.next_id == 0,
            model_wf(r@),
    {
        Model { objects: Vec::new(), next_id: 0 }
    }

    /// All objects, in creation order.
    pub fn objects(&self) -> (r: &Vec<ModelObject>)
        ensures
            r@ == self@.objects,
    {
        &self.objects
    }

    /// The position of the first object carrying `id`, if any.
    pub fn index_of(&self, id: ObjectId) -> (r: Option<usize>)
        ensures
            match r {
                Some(i) => i < self@.objects.len() && self@.objects[i as int].id == id && forall|
                    j: int,
                |
                    0 <= j < i ==> (#[trigger] self@.objects[j]).id != id,
                None => forall|j: int|
                    0 <= j < self@.objects.len() ==> (#[trigger] self@.objects[j]).id != id,
            },
    {
        let mut i: usize = 0;
        while i < self.objects.len()
            invariant
                i <= self@.objects.len(),
                forall|j: int| 0 <= j < i ==> (#[trigger] self@.objects[j]).id != id,
            decreases self.objects.len() - i,
        {
            if self.objects[i].id == id {
                return Some(i);
            }
            i = i + 1;
        }
        None
    }

    /// The first object carrying `id`, if any.
    pub fn object(&self, id: ObjectId) -> (r: Option<ModelObject>)
        ensures
            match r {
                Some(o) => exists|i: int|
                    0 <= i < self@.objects.len() && (#[trigger] self@.objects[i]).id == id && o
                        == self@.objects[i],
                None => forall|i: int|
                    0 <= i < self@.objects.len() ==> (#[trigger] self@.objects[i]).id != id,
            },
    {
        match self.index_of(id) {
            Some(i) => Some(self.objects[i]),
            None => None,
        }
    }

    /// Replace the placement of the first object carrying `id`; false when
    /// no object carries it.
    pub fn set_transform(&mut self, id: ObjectId, transform: Transform) -> (r: bool)
        requires
            model_wf(old(self)@),
            transform_wf(transform@),
        ensures
            model_wf(final(self)@),
            final(self)@.next_id == old(self)@.next_id,
            r == exists|i: int|
                0 <= i < old(self)@.objects.len() && (#[trigger] old(self)@.objects[i]).id == id,
            r ==> exists|i: int|
                {
                    &&& 0 <= i < old(self)@.objects.len()
                    &&& (#[trigger] old(self)@.objects[i]).id == id
                    &&& final(self)@.objects == old(self)@.objects.update(
                        i,
                        ModelObject {
                            id: old(self)@.objects[i].id,
                            kind: old(self)@.objects[i].kind,
                            transform,
                        },
                    )
                },
            !r ==> final(self)@.objects == old(self)@.objects,
    {
        match self.index_of(id) {
            Some(i) => {
                let prev = self.objects[i];
                let ghost preobjs = self.objects@;
                self.objects.set(
                    i,
                    ModelObject { id: prev.id, kind: prev.kind, transform },
                );
                proof {
                    assert(self@.objects =~= preobjs.update(
                        i as int,
                        ModelObject { id: prev.id, kind: prev.kind, transform },
                    ));
                }
                true
            },
            None => false,
        }
    }

    /// Add a box of the given extents with the identity placement.
    pub fn add_box(&mut self, w: i128, h: i128, d: i128) -> (r: ObjectId)
        requires
            model_wf(old(self)@),
            old(self)@.objects.len() < MODEL_LEN_CAP,
            0 <= w <= fx::COORD_LIMIT,
            0 <= h <= fx::COORD_LIMIT,
            0 <= d <= fx::COORD_LIMIT,
        ensures
            model_wf(final(self)@),
            r as int == old(self)@.next_id,
            final(self)@.next_id == old(self)@.next_id + 1,
            final(self)@.objects == old(self)@.objects.push(
                ModelObject {
                    id: r,
                    kind: ObjectKind::Box { w, h, d },
                    transform: Transform {
                        translation: Vec3Fx { x: 0, y: 0, z: 0 },
                        rotation: QuatFx { x: 0, y: 0, z: 0, w: fx::ONE },
                    },
                },
            ),
    {
        self.add_object(ObjectKind::Box { w, h, d })
    }

    /// Add a cylinder of the given radius and height with the identity
    /// placement.
    pub fn add_cylinder(&mut self, rad: i128, h: i128) -> (r: ObjectId)
        requires
            model_wf(old(self)@),
            old(self)@.objects.len() < MODEL_LEN_CAP,
            0 <= rad <= fx::COORD_LIMIT,
            0 <= h <= fx::COORD_LIMIT,
        ensures
            model_wf(final(self)@),
            r as int == old(self)@.next_id,
            final(self)@.next_id == old(self)@.next_id + 1,
            final(self)@.objects == old(self)@.objects.push(
                ModelObject {
                    id: r,
                    kind: ObjectKind::Cylinder { r: rad, h },
                    transform: Transform {
                        translation: Vec3Fx { x: 0, y: 0, z: 0 },
                        rotation: QuatFx { x: 0, y: 0, z: 0, w: fx::ONE },
                    },
                },
            ),
    {
        self.add_object(ObjectKind::Cylinder { r: rad, h })
    }

    /// Append an object under the next id; the id counter saturates rather
    /// than wrap, though the object cap keeps it far from the limit.
    fn add_object(&mut self, kind: ObjectKind) -> (r: ObjectId)
        requires
            model_wf(old(self)@),
            old(self)@.objects.len() < MODEL_LEN_CAP,
            kind_wf(kind),
        ensures
            model_wf(final(self)@),
            r as int == old(self)@.next_id,
            final(self)@.next_id == old(self)@.next_id + 1,
            final(self)@.objects == old(self)@.objects.push(
                ModelObject {
                    id: r,
                    kind,
                    transform: Transform {
                        translation: Vec3Fx { x: 0, y: 0, z: 0 },
                        rotation: QuatFx { x: 0, y: 0, z: 0, w: fx::ONE },
                    },
                },
            ),
    {
        let id = self.next_id;
        self.next_id = self.next_id.saturating_add(1);
        self.objects.push(
            ModelObject { id, kind, transform: Transform::identity() },
        );
        id
    }
}

impl Default for Model {
    /// The empty model.
    fn default() -> (r: Model)
        ensures
            r@.objects.len() == 0,
            r@.next_id == 0,
            model_wf(r@),
    {
        Model::new()
    }
}

} // verus!
