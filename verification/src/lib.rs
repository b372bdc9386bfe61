//! Interactive 3D viewport core for a modeling tool.
//!
//! The library owns a scene of rigid-body objects with cached triangle
//! meshes, resolves screen-space rays into object and surface hits, drives a
//! translate/rotate manipulation gizmo, and drives an orbiting camera with
//! discrete view snapping.
//!
//! All geometry is carried in signed fixed-point coordinates: a world unit is
//! `fx::ONE` raw units. Every operation on them is exact integer arithmetic,
//! so contracts can state results to the last raw unit.

pub mod camera;
pub mod editor;
pub mod fx;
pub mod gizmo;
pub mod mesh;
pub mod model;
pub mod overlay;
pub mod pick;
pub mod protocol;
pub mod quat;
pub mod scene;
pub mod shapes;
pub mod trig;
pub mod vec3;

use vstd::prelude::*;

verus! {

/// Builds the state a fresh viewport session starts from: an empty scene,
/// the default camera pose, no tool, no selection, no drag.
pub fn start() -> (r: editor::Editor)
    ensures
        editor::editor_wf(&r),
        r.scene@.objects.len() == 0,
        r.tool == editor::EditorTool::Idle,
        r.selected is None,
        r.drag is None,
{
    editor::Editor::new()
}

} // verus!
