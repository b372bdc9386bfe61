//! The editor's pointer-event state machine.
//!
//! Each pointer event is a pure transition on the editor state. Pointer-down
//! tries the gizmo first when the move tool is active and an object is
//! selected; otherwise it falls back to broad-phase picking. Pointer-move
//! while a drag session is live recomputes the dragged object's placement
//! from the session captured at drag start and pushes it into the scene,
//! which clears the combined-mesh cache. Pointer-up discards the session.

use crate::camera::{camera_wf, Camera};
use crate::fx;
use crate::gizmo::{
    drag_plane_applies, drag_rotate, drag_translate, gizmo_hit_spec, hit_gizmo, imax,
    rotate_update, translate_update, DragMode, DragState, GizmoHitV,
};
use crate::model::{transform_wf, ObjectId, TransformV};
use crate::pick::{obj_sphere_hit, obj_sphere_t, pick_object};
use crate::scene::{scene_wf, GeomScene};
use crate::trig::HALF_TURN;
use crate::vec3::{v3_bounded, v3_dot, v3_norm, v3_normalize, V3, Vec3Fx, UNIT_LIMIT};
use vstd::prelude::*;

verus! {

/// The active tool.
#[derive(Clone, Copy, PartialEq, Eq, Structural, Debug)]
pub enum EditorTool {
    Idle,
    Move,
    SketchSelect,
    SketchDraw,
}

/// The interactive state the event loop drives: the scene, the camera, the
/// tool, the selection, and the drag session while one is live.
pub struct Editor {
    pub scene: GeomScene,
    pub camera: Camera,
    pub tool: EditorTool,
    pub selected: Option<ObjectId>,
    pub drag: Option<DragState>,
}

/// A well-formed drag session: every anchoring vector near-unit, scalars in
/// range, and the captured placement well formed.
pub open spec fn drag_wf(ds: DragState) -> bool {
    &&& transform_wf(ds.start_transform@)
    &&& v3_bounded(ds.start_origin_world@, fx::COORD_LIMIT as int)
    &&& v3_bounded(ds.axis_dir_world@, UNIT_LIMIT as int)
    &&& v3_bounded(ds.plane_normal_world@, UNIT_LIMIT as int)
    &&& v3_bounded(ds.ring_u_world@, UNIT_LIMIT as int)
    &&& v3_bounded(ds.ring_v_world@, UNIT_LIMIT as int)
    &&& -0x400000000000 <= ds.start_axis_t <= 0x400000000000
    &&& -HALF_TURN < ds.start_angle <= HALF_TURN
}

/// A well-formed editor: scene and camera well formed, and the drag session,
/// when live, well formed too.
pub open spec fn editor_wf(e: &Editor) -> bool {
    &&& scene_wf(e.scene@)
    &&& camera_wf(e.camera@)
    &&& match e.drag {
        Option::Some(ds) => drag_wf(ds),
        Option::None => true,
    }
}

/// The gizmo hit the move tool would test against object `i` of the scene,
/// seen from the camera's clamped eye.
pub open spec fn object_gizmo_hit(e: &Editor, i: int, o: V3, d: V3) -> Option<GizmoHitV> {
    gizmo_hit_spec(
        e.scene@.objects[i].transform@.translation,
        e.scene@.objects[i].transform@.rotation,
        imax(e.scene@.radii[i], crate::gizmo::MIN_GIZMO_RADIUS as int),
        crate::camera::camera_eye_clamped(e.camera@),
        o,
        d,
    )
}

/// Pointer-down opens a drag session exactly when the move tool is active,
/// an object is selected and live, and the gizmo hit test meets one of its
/// affordances.
pub open spec fn pointer_down_opens_drag(e: &Editor, o: V3, d: V3) -> bool {
    &&& e.tool == EditorTool::Move
    &&& e.selected is Some
    &&& exists|i: int|
        0 <= i < e.scene@.objects.len() && (#[trigger] e.scene@.objects[i]).id
            == e.selected->Some_0 && object_gizmo_hit(e, i, o, d) is Some
}

/// The placement a live drag session yields for the current ray.
pub open spec fn drag_session_update(ds: DragState, o: V3, d: V3) -> TransformV {
    match ds.mode {
        DragMode::Translate => translate_update(ds, o, d),
        DragMode::Rotate(axis) => rotate_update(ds, axis, o, d),
    }
}

impl Editor {
    /// A fresh session: empty scene, default camera, no tool, nothing
    /// selected, no drag.
    pub fn new() -> (r: Editor)
        ensures
            editor_wf(&r),
            r.scene@.objects.len() == 0,
            r.tool == EditorTool::Idle,
            r.selected is None,
            r.drag is None,
    {
        Editor {
            scene: GeomScene::new(),
            camera: Camera::new(1280, 720),
            tool: EditorTool::Idle,
            selected: None,
            drag: None,
        }
    }

    /// Pointer-down: with the move tool and a selection, try the gizmo and
    /// open a drag session on a hit; otherwise pick by bounding sphere and
    /// update the selection. A direction whose square rounds to zero is a
    /// degenerate event and changes nothing.
    pub fn on_pointer_down(&mut self, ray_o: Vec3Fx, ray_d: Vec3Fx)
        requires
            editor_wf(old(self)),
            v3_bounded(ray_o@, fx::COORD_LIMIT as int),
            v3_bounded(ray_d@, UNIT_LIMIT as int),
            old(self).drag is None,
        ensures
            editor_wf(final(self)),
            final(self).scene@ == old(self).scene@,
            final(self).camera == old(self).camera,
            final(self).tool == old(self).tool,
            v3_dot(ray_d@, ray_d@) < 1 ==> final(self).selected == old(self).selected
                && final(self).drag is None,
            v3_dot(ray_d@, ray_d@) >= 1 ==> (final(self).drag is Some <==> pointer_down_opens_drag(
                old(self),
                ray_o@,
                ray_d@,
            )),
            match final(self).drag {
                Option::Some(ds) => {
                    &&& old(self).tool == EditorTool::Move
                    &&& old(self).selected is Some
                    &&& final(self).selected == old(self).selected
                    &&& ds.object_id == old(self).selected->Some_0
                    &&& exists|i: int|
                        {
                            &&& 0 <= i < old(self).scene@.objects.len()
                            &&& (#[trigger] old(self).scene@.objects[i]).id == ds.object_id
                            &&& ds.start_transform == old(self).scene@.objects[i].transform
                            &&& object_gizmo_hit(old(self), i, ray_o@, ray_d@) matches Option::Some(h)
                                && ds.mode == h.mode && ds.axis_dir_world@ == h.axis_dir
                                && ds.plane_normal_world@ == h.plane_normal && ds.ring_u_world@
                                == h.ring_u && ds.ring_v_world@ == h.ring_v
                                && ds.start_axis_t as int == h.start_axis_t
                                && ds.start_angle as int == h.start_angle
                        }
                },
                Option::None => true,
            },
            (v3_dot(ray_d@, ray_d@) >= 1 && final(self).drag is None) ==> match final(self).selected {
                Option::Some(id2) => {
                    let dn = v3_normalize(ray_d@);
                    &&& v3_norm(ray_d@) != 0
                    &&& exists|j: int|
                        {
                            &&& 0 <= j < old(self).scene@.objects.len()
                            &&& (#[trigger] old(self).scene@.objects[j]).id == id2
                            &&& obj_sphere_hit(old(self).scene@, ray_o@, dn, j)
                            &&& forall|l: int|
                                0 <= l < old(self).scene@.objects.len() && obj_sphere_hit(
                                    old(self).scene@,
                                    ray_o@,
                                    dn,
                                    l,
                                ) ==> obj_sphere_t(old(self).scene@, ray_o@, dn, j)
                                    <= obj_sphere_t(old(self).scene@, ray_o@, dn, l)
                            &&& forall|l: int|
                                0 <= l < j && obj_sphere_hit(old(self).scene@, ray_o@, dn, l)
                                    ==> obj_sphere_t(old(self).scene@, ray_o@, dn, j)
                                    < obj_sphere_t(old(self).scene@, ray_o@, dn, l)
                        }
                },
                Option::None => v3_norm(ray_d@) == 0 || forall|j: int|
                    0 <= j < old(self).scene@.objects.len() ==> !obj_sphere_hit(
                        old(self).scene@,
                        ray_o@,
                        v3_normalize(ray_d@),
                        j,
                    ),
            },
    {
        let dd = ray_d.dot(ray_d);
        if dd < 1 {
            return ;
        }
        if self.tool == EditorTool::Move {
            match self.selected {
                Some(id) => {
                    let eye = self.camera.eye_clamped();
                    match hit_gizmo(&self.scene, eye, id, ray_o, ray_d) {
                        Some(h) => {
                            match self.scene.object_transform(id) {
                                Some(t) => {
                                    self.drag = Some(
                                        DragState {
                                            object_id: id,
                                            mode: h.mode,
                                            start_transform: t,
                                            start_origin_world: t.translation,
                                            axis_dir_world: h.axis_dir,
                                            plane_normal_world: h.plane_normal,
                                            start_axis_t: h.start_axis_t,
                                            ring_u_world: h.ring_u,
                                            ring_v_world: h.ring_v,
                                            start_angle: h.start_angle,
                                        },
                                    );
                                    return ;
                                },
                                None => {},
                            }
                        },
                        None => {},
                    }
                },
                None => {},
            }
        }
        match pick_object(&self.scene, ray_o, ray_d) {
            Some(id) => {
                self.selected = Some(id);
            },
            None => {
                self.selected = None;
            },
        }
    }

    /// Pointer-move: while a drag session is live, recompute the dragged
    /// object's placement from the session and the current ray; a degenerate
    /// ray, or an update that would leave the scene bounds, skips the frame.
    pub fn on_pointer_move(&mut self, ray_o: Vec3Fx, ray_d: Vec3Fx)
        requires
            editor_wf(old(self)),
            v3_bounded(ray_o@, fx::COORD_LIMIT as int),
            v3_bounded(ray_d@, UNIT_LIMIT as int),
        ensures
            editor_wf(final(self)),
            final(self).camera == old(self).camera,
            final(self).tool == old(self).tool,
            final(self).selected == old(self).selected,
            final(self).drag == old(self).drag,
            match old(self).drag {
                Option::None => final(self).scene@ == old(self).scene@,
                Option::Some(ds) => {
                    let t_new = drag_session_update(ds, ray_o@, ray_d@);
                    if drag_plane_applies(ds, ray_o@, ray_d@) && transform_wf(t_new) {
                        &&& final(self).scene@.meshes == old(self).scene@.meshes
                        &&& final(self).scene@.radii == old(self).scene@.radii
                        &&& final(self).scene@.aabbs == old(self).scene@.aabbs
                        &&& final(self).scene@.next_id == old(self).scene@.next_id
                        &&& final(self).scene@.objects.len() == old(self).scene@.objects.len()
                        &&& (exists|i: int|
                            0 <= i < old(self).scene@.objects.len() && (#[trigger] old(
                                self,
                            ).scene@.objects[i]).id == ds.object_id) ==> {
                            &&& final(self).scene@.cache is None
                            &&& exists|i: int|
                                {
                                    &&& 0 <= i < old(self).scene@.objects.len()
                                    &&& (#[trigger] old(self).scene@.objects[i]).id
                                        == ds.object_id
                                    &&& final(self).scene@.objects[i].id == old(
                                        self,
                                    ).scene@.objects[i].id
                                    &&& final(self).scene@.objects[i].kind == old(
                                        self,
                                    ).scene@.objects[i].kind
                                    &&& final(self).scene@.objects[i].transform@ == t_new
                                    &&& forall|j: int|
                                        0 <= j < old(self).scene@.objects.len() && j != i
                                            ==> final(self).scene@.objects[j] == old(
                                            self,
                                        ).scene@.objects[j]
                                }
                        }
                        &&& (forall|i: int|
                            0 <= i < old(self).scene@.objects.len() ==> (#[trigger] old(
                                self,
                            ).scene@.objects[i]).id != ds.object_id) ==> final(self).scene@
                            == old(self).scene@
                    } else {
                        final(self).scene@ == old(self).scene@
                    }
                },
            },
    {
        let ds = match &self.drag {
            Some(ds) => *ds,
            None => {
                return ;
            },
        };
        let new_t = match ds.mode {
            DragMode::Translate => {
                match drag_translate(&ds, ray_o, ray_d) {
                    Some(t) => t,
                    None => {
                        return ;
                    },
                }
            },
            DragMode::Rotate(axis) => {
                match drag_rotate(&ds, axis, ray_o, ray_d) {
                    Some(t) => t,
                    None => {
                        return ;
                    },
                }
            },
        };
        if new_t.translation.x < -fx::COORD_LIMIT || new_t.translation.x > fx::COORD_LIMIT
            || new_t.translation.y < -fx::COORD_LIMIT || new_t.translation.y > fx::COORD_LIMIT
            || new_t.translation.z < -fx::COORD_LIMIT || new_t.translation.z > fx::COORD_LIMIT {
            return ;
        }
        if new_t.rotation.x < -crate::quat::QUNIT_LIMIT || new_t.rotation.x
            > crate::quat::QUNIT_LIMIT || new_t.rotation.y < -crate::quat::QUNIT_LIMIT
            || new_t.rotation.y > crate::quat::QUNIT_LIMIT || new_t.rotation.z
            < -crate::quat::QUNIT_LIMIT || new_t.rotation.z > crate::quat::QUNIT_LIMIT
            || new_t.rotation.w < -crate::quat::QUNIT_LIMIT || new_t.rotation.w
            > crate::quat::QUNIT_LIMIT {
            return ;
        }
        proof {
            assert(new_t@ == drag_session_update(ds, ray_o@, ray_d@));
            assert(transform_wf(new_t@));
        }
        let _ = self.scene.set_object_transform(ds.object_id, new_t);
    }

    /// Pointer-up: discard the drag session; the object's current placement
    /// becomes the new baseline.
    pub fn on_pointer_up(&mut self)
        requires
            editor_wf(old(self)),
        ensures
            editor_wf(final(self)),
            final(self).drag is None,
            final(self).scene@ == old(self).scene@,
            final(self).camera == old(self).camera,
            final(self).tool == old(self).tool,
            final(self).selected == old(self).selected,
    {
        self.drag = None;
    }

    /// Switch tools; entering a new tool never keeps a stale drag session.
    pub fn set_tool(&mut self, tool: EditorTool)
        requires
            editor_wf(old(self)),
        ensures
            editor_wf(final(self)),
            final(self).tool == tool,
            final(self).drag is None,
            final(self).scene@ == old(self).scene@,
            final(self).camera == old(self).camera,
            final(self).selected == old(self).selected,
    {
        self.tool = tool;
        self.drag = None;
    }
}

impl Camera {
    /// The eye position, clamped into the coordinate bounds the pickers
    /// admit.
    pub fn eye_clamped(&self) -> (r: Vec3Fx)
        requires
            camera_wf(self@),
        ensures
            r@ == crate::camera::camera_eye_clamped(self@),
            v3_bounded(r@, fx::COORD_LIMIT as int),
    {
        let e = self.eye();
        Vec3Fx {
            x: fx::clamp(e.x, -fx::COORD_LIMIT, fx::COORD_LIMIT),
            y: fx::clamp(e.y, -fx::COORD_LIMIT, fx::COORD_LIMIT),
            z: fx::clamp(e.z, -fx::COORD_LIMIT, fx::COORD_LIMIT),
        }
    }
}

} // verus!
