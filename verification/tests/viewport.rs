use cad_viewport::camera::{Camera, CameraSnap};
use cad_viewport::editor::EditorTool;
use cad_viewport::fx;
use cad_viewport::gizmo::{
    drag_rotate, drag_translate, gizmo_dimensions, hit_gizmo, ray_segment_distance, Axis,
    DragMode, DragState,
};
use cad_viewport::mesh::{mesh_bounds_aabb, mesh_bounds_radius};
use cad_viewport::model::{Model, Transform};
use cad_viewport::pick::{pick_object, ray_sphere_intersect, ray_triangle_intersect};
use cad_viewport::protocol::{ClientMsg, ServerMsg};
use cad_viewport::quat::QuatFx;
use cad_viewport::scene::{GeomError, GeomScene};
use cad_viewport::shapes::{tessellate_box, tessellate_cylinder};
use cad_viewport::start;
use cad_viewport::trig;
use cad_viewport::vec3::Vec3Fx;

const ONE: i128 = 65536;
const DEG: i128 = 4096;

fn v(x: i128, y: i128, z: i128) -> Vec3Fx {
    Vec3Fx { x, y, z }
}

#[test]
fn isqrt_exact_values() {
    assert_eq!(fx::isqrt(0), 0);
    assert_eq!(fx::isqrt(1), 1);
    assert_eq!(fx::isqrt(15), 3);
    assert_eq!(fx::isqrt(16), 4);
    assert_eq!(fx::isqrt(65536 * 65536), 65536);
}

#[test]
fn trig_anchor_values() {
    assert_eq!(trig::sin_fx(0), 0);
    assert_eq!(trig::sin_fx(trig::QUARTER_TURN), ONE);
    assert_eq!(trig::sin_fx(trig::HALF_TURN), 0);
    assert_eq!(trig::cos_fx(0), ONE);
    assert_eq!(trig::atan2_fx(0, 100), 0);
    assert_eq!(trig::atan2_fx(100, 0), trig::QUARTER_TURN);
    assert_eq!(trig::atan2_fx(0, -100), trig::HALF_TURN);
}

#[test]
fn wrap_angle_branch_cut() {
    // +179 degrees to -179 degrees is a small positive step, not a whole
    // turn back.
    let a1 = 179 * DEG;
    let a2 = -179 * DEG;
    assert_eq!(trig::wrap_angle(a2 - a1), 2 * DEG);
    assert_eq!(trig::wrap_angle(2 * trig::TURN + 5), 5);
    assert_eq!(trig::wrap_angle(trig::HALF_TURN), trig::HALF_TURN);
    assert_eq!(trig::wrap_angle(-trig::HALF_TURN), trig::HALF_TURN);
}

#[test]
fn rotate_drag_angle_wraps_across_branch_cut() {
    // Ray angles read off the ring near the branch cut: the measured step
    // from +179 degrees to -179 degrees is about +2 degrees.
    let c1 = 65526; // cos(1 degree) in fixed point
    let s1 = 1143; // sin(1 degree) in fixed point
    let a1 = trig::atan2_fx(s1, -c1); // +179 degrees
    let a2 = trig::atan2_fx(-s1, -c1); // -179 degrees
    let delta = trig::wrap_angle(a2 - a1);
    assert!(delta > 0, "delta {delta} should be a small positive step");
    assert!(delta < 4 * DEG, "delta {delta} should be about two degrees");
}

#[test]
fn box_mesh_counts_and_bounds() {
    let m = tessellate_box(2 * ONE, 4 * ONE, 6 * ONE);
    assert_eq!(m.positions.len(), 24);
    assert_eq!(m.normals.len(), 24);
    assert_eq!(m.indices.len(), 36);
    let aabb = mesh_bounds_aabb(&m);
    assert_eq!(aabb.min, v(-ONE, -2 * ONE, -3 * ONE));
    assert_eq!(aabb.max, v(ONE, 2 * ONE, 3 * ONE));
}

#[test]
fn box_radius_is_corner_distance() {
    // The bounding radius of a 2x2x2 box is sqrt(3) in fixed point.
    let m = tessellate_box(2 * ONE, 2 * ONE, 2 * ONE);
    assert_eq!(mesh_bounds_radius(&m), 113511);
}

#[test]
fn cylinder_mesh_counts() {
    let m = tessellate_cylinder(ONE, 2 * ONE);
    assert_eq!(m.positions.len(), 50);
    assert_eq!(m.normals.len(), 50);
    assert_eq!(m.indices.len(), 288);
    let aabb = mesh_bounds_aabb(&m);
    assert_eq!(aabb.min.y, -ONE);
    assert_eq!(aabb.max.y, ONE);
    assert_eq!(aabb.max.x, ONE);
}

#[test]
fn model_ids_count_up_and_lookups_find_first() {
    let mut model = Model::new();
    let a = model.add_box(ONE, ONE, ONE);
    let b = model.add_cylinder(ONE, 2 * ONE);
    assert_eq!(a, 0);
    assert_eq!(b, 1);
    assert_eq!(model.objects().len(), 2);
    assert!(model.object(1).is_some());
    assert!(model.object(7).is_none());
    let moved = Transform {
        translation: v(ONE, 0, 0),
        rotation: QuatFx { x: 0, y: 0, z: 0, w: ONE },
    };
    assert!(model.set_transform(1, moved));
    assert!(!model.set_transform(7, moved));
    assert_eq!(model.object(1).unwrap().transform.translation, v(ONE, 0, 0));
}

#[test]
fn empty_scene_mesh_fails() {
    let mut scene = GeomScene::new();
    let r = scene.mesh();
    assert_eq!(r.err(), Some(GeomError::EmptyScene));
    assert_eq!(GeomError::EmptyScene.message(), "no solids in scene");
}

#[test]
fn combined_mesh_counts_sum_and_rebuild_on_mutation() {
    let mut scene = GeomScene::new();
    let a = scene.add_box(ONE, ONE, ONE);
    let _b = scene.add_cylinder(ONE, 2 * ONE);
    let m1 = scene.mesh().unwrap();
    assert_eq!(m1.indices.len(), 36 + 288);
    assert_eq!(m1.positions.len(), 24 + 50);
    // A second read with no mutation returns the same combination.
    let m2 = scene.mesh().unwrap();
    assert_eq!(m1.positions, m2.positions);
    assert_eq!(m1.indices, m2.indices);
    // Moving one object invalidates the cache; the next read reflects the
    // new placement everywhere.
    let moved = Transform {
        translation: v(3 * ONE, 0, 0),
        rotation: QuatFx { x: 0, y: 0, z: 0, w: ONE },
    };
    assert!(scene.set_object_transform(a, moved));
    let m3 = scene.mesh().unwrap();
    assert_eq!(m3.indices.len(), 36 + 288);
    assert_eq!(m3.positions[0].x, m1.positions[0].x + 3 * ONE);
}

#[test]
fn sphere_pick_hits_the_aimed_object() {
    let mut scene = GeomScene::new();
    let id = scene.add_box(ONE, ONE, ONE);
    let hit = pick_object(&scene, v(0, 0, 5 * ONE), v(0, 0, -ONE));
    assert_eq!(hit, Some(id));
    // A ray fired away from every object picks nothing.
    let miss = pick_object(&scene, v(0, 0, 5 * ONE), v(0, 0, ONE));
    assert_eq!(miss, None);
}

#[test]
fn sphere_pick_prefers_the_nearer_object() {
    let mut scene = GeomScene::new();
    let far = scene.add_box(ONE, ONE, ONE);
    let near = scene.add_box(ONE, ONE, ONE);
    let toward = Transform {
        translation: v(0, 0, 3 * ONE),
        rotation: QuatFx { x: 0, y: 0, z: 0, w: ONE },
    };
    assert!(scene.set_object_transform(near, toward));
    let hit = pick_object(&scene, v(0, 0, 8 * ONE), v(0, 0, -ONE));
    assert_eq!(hit, Some(near));
    assert_ne!(hit, Some(far));
}

#[test]
fn ray_sphere_distance_is_exact_on_axis() {
    // Aimed straight at a unit sphere five units away: near hit at 4.
    let t = ray_sphere_intersect(v(0, 0, 5 * ONE), v(0, 0, -ONE), v(0, 0, 0), ONE);
    assert_eq!(t, Some(4 * ONE));
    // From inside-behind: the near intersection is behind the origin.
    let behind = ray_sphere_intersect(v(0, 0, 0), v(0, 0, -ONE), v(0, 0, 0), ONE);
    assert_eq!(behind, None);
}

#[test]
fn ray_triangle_roundtrip_distance() {
    // A triangle in the plane z = 0, a ray fired from five units above a
    // point strictly inside it: the hit distance is analytic, exactly.
    let v0 = v(-ONE, -ONE, 0);
    let v1 = v(ONE, -ONE, 0);
    let v2 = v(0, ONE, 0);
    let t = ray_triangle_intersect(v(0, 0, 5 * ONE), v(0, 0, -ONE), v0, v1, v2);
    assert_eq!(t, Some(5 * ONE));
    // Outside the triangle: no hit.
    let miss = ray_triangle_intersect(v(3 * ONE, 0, 5 * ONE), v(0, 0, -ONE), v0, v1, v2);
    assert_eq!(miss, None);
    // Parallel to the plane: no hit.
    let par = ray_triangle_intersect(v(0, 0, 5 * ONE), v(ONE, 0, 0), v0, v1, v2);
    assert_eq!(par, None);
}

#[test]
fn surface_pick_reports_point_normal_distance() {
    let mut scene = GeomScene::new();
    let id = scene.add_box(ONE, ONE, ONE);
    let hit = scene.pick_surface(v(0, 0, 5 * ONE), v(0, 0, -ONE)).unwrap();
    assert_eq!(hit.object_id, id);
    // The +Z face of a unit box sits at z = 0.5.
    assert_eq!(hit.distance, 5 * ONE - ONE / 2);
    assert_eq!(hit.point, v(0, 0, ONE / 2));
    assert_eq!(hit.normal, v(0, 0, ONE));
    // A degenerate direction yields no hit.
    assert!(scene.pick_surface(v(0, 0, 5 * ONE), v(0, 0, 0)).is_none());
}

#[test]
fn gizmo_sizes_scale_with_distance() {
    let (axis_len, ring_r) = gizmo_dimensions(2 * ONE, 10 * ONE);
    // 0.12 of the distance wins over a quarter of the radius here.
    assert_eq!(axis_len, 10 * 7864);
    assert_eq!(ring_r, 3 * axis_len / 4);
    let (axis_len2, _) = gizmo_dimensions(40 * ONE, 10 * ONE);
    // A large object floors the axis at a quarter of its radius.
    assert_eq!(axis_len2, 10 * ONE);
}

#[test]
fn ray_segment_distance_on_axis() {
    // A ray passing one unit above the middle of a segment along X.
    let (dist, along) = ray_segment_distance(
        v(ONE, ONE, 5 * ONE),
        v(0, 0, -ONE),
        v(0, 0, 0),
        v(2 * ONE, 0, 0),
    );
    assert_eq!(dist, ONE);
    assert_eq!(along, ONE);
}

#[test]
fn translate_drag_moves_only_along_the_axis() {
    let ds = DragState {
        object_id: 0,
        mode: DragMode::Translate,
        start_transform: Transform {
            translation: v(0, 0, 0),
            rotation: QuatFx { x: 0, y: 0, z: 0, w: ONE },
        },
        start_origin_world: v(0, 0, 0),
        axis_dir_world: v(ONE, 0, 0),
        plane_normal_world: v(0, 0, ONE),
        start_axis_t: 0,
        ring_u_world: v(0, 0, 0),
        ring_v_world: v(0, 0, 0),
        start_angle: 0,
    };
    // Rays in the drag plane at x = 2 and x = -3: the translation follows
    // the axis exactly, with zero sideways component.
    let t2 = drag_translate(&ds, v(2 * ONE, 0, 5 * ONE), v(0, 0, -ONE)).unwrap();
    assert_eq!(t2.translation, v(2 * ONE, 0, 0));
    let t3 = drag_translate(&ds, v(-3 * ONE, ONE, 5 * ONE), v(0, 0, -ONE)).unwrap();
    assert_eq!(t3.translation.x, -3 * ONE);
    assert_eq!(t3.translation.y, 0);
    assert_eq!(t3.translation.z, 0);
    // A ray parallel to the drag plane skips the frame.
    assert!(drag_translate(&ds, v(0, 0, 5 * ONE), v(ONE, 0, 0)).is_none());
}

#[test]
fn rotate_drag_composes_onto_start_transform() {
    let ds = DragState {
        object_id: 0,
        mode: DragMode::Rotate(Axis::Z),
        start_transform: Transform {
            translation: v(ONE, 0, 0),
            rotation: QuatFx { x: 0, y: 0, z: 0, w: ONE },
        },
        start_origin_world: v(ONE, 0, 0),
        axis_dir_world: v(0, 0, ONE),
        plane_normal_world: v(0, 0, ONE),
        start_axis_t: 0,
        ring_u_world: v(ONE, 0, 0),
        ring_v_world: v(0, ONE, 0),
        start_angle: 0,
    };
    // A ray hitting the ring plane a quarter turn around from the start.
    let t2 = drag_rotate(&ds, Axis::Z, v(ONE, 2 * ONE, 5 * ONE), v(0, 0, -ONE)).unwrap();
    // The translation is untouched; the rotation turns about Z by roughly a
    // quarter turn: its z and w components are near sin(45) = cos(45).
    assert_eq!(t2.translation, v(ONE, 0, 0));
    assert!(t2.rotation.x.abs() < 600);
    assert!(t2.rotation.y.abs() < 600);
    assert!((t2.rotation.z - 46341).abs() < 600, "z {}", t2.rotation.z);
    assert!((t2.rotation.w - 46341).abs() < 600, "w {}", t2.rotation.w);
}

#[test]
fn gizmo_hit_picks_translate_axis_through_origin() {
    let mut scene = GeomScene::new();
    let id = scene.add_box(ONE, ONE, ONE);
    let eye = v(0, 0, 5 * ONE);
    let hit = hit_gizmo(&scene, eye, id, v(0, 0, 5 * ONE), v(0, 0, -ONE)).unwrap();
    assert_eq!(hit.mode, DragMode::Translate);
    // The ray passes through the gizmo origin, so the first axis wins.
    assert_eq!(hit.axis_dir, v(ONE, 0, 0));
    assert_eq!(hit.start_axis_t, 0);
    // An unknown object has no gizmo.
    assert!(hit_gizmo(&scene, eye, 9, v(0, 0, 5 * ONE), v(0, 0, -ONE)).is_none());
}

#[test]
fn camera_orbit_zero_delta_is_identity() {
    let mut cam = Camera::new(800, 600);
    let before = cam;
    for _ in 0..10 {
        cam.orbit_arcball((400 * ONE, 300 * ONE), (400 * ONE, 300 * ONE), 800, 600);
    }
    assert_eq!(cam, before);
}

#[test]
fn camera_orbit_keeps_orientation_near_unit_and_unrolled() {
    let mut cam = Camera::new(800, 600);
    // Many small horizontal drags: the orientation stays near unit length
    // and the up axis never dips below the horizon.
    for i in 0..24 {
        let x0 = (300 + 8 * i) * ONE;
        let x1 = (308 + 8 * i) * ONE;
        cam.orbit_arcball((x0, 300 * ONE), (x1, 300 * ONE), 800, 600);
    }
    let q = cam.rotation;
    let norm2 = (q.x * q.x + q.y * q.y + q.z * q.z + q.w * q.w) / ONE;
    assert!((norm2 - ONE).abs() < 2000, "norm2 {norm2}");
    let up = cam.rotation.rotate(Vec3Fx { x: 0, y: ONE, z: 0 });
    assert!(up.y >= 0, "up.y {}", up.y);
}

#[test]
fn camera_pan_moves_target_along_view_axes() {
    let mut cam = Camera::new(800, 600);
    cam.rotation = QuatFx { x: 0, y: 0, z: 0, w: ONE };
    cam.radius = ONE;
    cam.target = v(0, 0, 0);
    cam.pan(ONE, 0);
    assert_eq!(cam.target, v(164, 0, 0));
}

#[test]
fn camera_zoom_scales_and_clamps() {
    let mut cam = Camera::new(800, 600);
    assert_eq!(cam.radius, 4 * ONE);
    cam.zoom(1000 * ONE);
    assert_eq!(cam.radius, 526144);
    // A huge zoom-out factor is floored, and the radius clamped at its
    // minimum.
    let mut cam2 = Camera::new(800, 600);
    cam2.zoom(-1000 * ONE);
    assert_eq!(cam2.radius, 13108);
    for _ in 0..10 {
        cam2.zoom(-1000 * ONE);
    }
    assert_eq!(cam2.radius, 13107);
}

#[test]
fn ease_curve_hits_its_anchors() {
    assert_eq!(cad_viewport::camera::ease_fraction(0), 0);
    assert_eq!(cad_viewport::camera::ease_fraction(ONE), ONE);
    assert_eq!(cad_viewport::camera::ease_fraction(ONE / 2), ONE / 2);
}

#[test]
fn editor_end_to_end_box_drag() {
    // Add a unit box, pick it with a ray down the Z axis, enter a
    // translate-X drag anchored at local x = 0, feed a ray for x = 2 in the
    // drag plane: the translation lands at [2, 0, 0].
    let mut ed = start();
    assert_eq!(ed.tool, EditorTool::Idle);
    let id = ed.scene.add_box(ONE, ONE, ONE);
    ed.on_pointer_down(v(0, 0, 5 * ONE), v(0, 0, -ONE));
    assert_eq!(ed.selected, Some(id));
    ed.set_tool(EditorTool::Move);
    ed.drag = Some(DragState {
        object_id: id,
        mode: DragMode::Translate,
        start_transform: ed.scene.object_transform(id).unwrap(),
        start_origin_world: v(0, 0, 0),
        axis_dir_world: v(ONE, 0, 0),
        plane_normal_world: v(0, 0, ONE),
        start_axis_t: 0,
        ring_u_world: v(0, 0, 0),
        ring_v_world: v(0, 0, 0),
        start_angle: 0,
    });
    ed.on_pointer_move(v(2 * ONE, 0, 5 * ONE), v(0, 0, -ONE));
    ed.on_pointer_up();
    assert!(ed.drag.is_none());
    let t = ed.scene.object_transform(id).unwrap();
    assert_eq!(t.translation, v(2 * ONE, 0, 0));
}

#[test]
fn overlay_wireframe_and_gizmo_counts() {
    let aabb = cad_viewport::mesh::Aabb { min: v(-ONE, -ONE, -ONE), max: v(ONE, ONE, ONE) };
    let rot = QuatFx { x: 0, y: 0, z: 0, w: ONE };
    let plain = cad_viewport::overlay::build_gizmo_overlay(
        v(0, 0, 0),
        rot,
        aabb,
        2 * ONE,
        v(0, 0, 5 * ONE),
        false,
    );
    assert_eq!(plain.len(), 12);
    // Wireframe edge 0 joins corners (min,min,min) and (max,min,min).
    assert_eq!(plain[0].a, v(-ONE, -ONE, -ONE));
    assert_eq!(plain[0].b, v(ONE, -ONE, -ONE));
    let full = cad_viewport::overlay::build_gizmo_overlay(
        v(0, 0, 0),
        rot,
        aabb,
        2 * ONE,
        v(0, 0, 5 * ONE),
        true,
    );
    assert_eq!(full.len(), 165);
    // The X axis shaft starts at the origin and runs along +X.
    assert_eq!(full[12].a, v(0, 0, 0));
    assert_eq!(full[12].b.y, 0);
    assert!(full[12].b.x > 0);
    // The first ring chord starts on the +Y axis of the X ring's plane.
    assert_eq!(full[21].a.z, 0);
}

#[test]
fn point_in_poly_even_odd() {
    let poly = [
        (0, 0),
        (4 * ONE, 0),
        (4 * ONE, 4 * ONE),
        (0, 4 * ONE),
    ];
    assert!(cad_viewport::overlay::point_in_poly(2 * ONE, 2 * ONE, &poly));
    assert!(!cad_viewport::overlay::point_in_poly(5 * ONE, 2 * ONE, &poly));
    assert!(!cad_viewport::overlay::point_in_poly(-ONE, 2 * ONE, &poly));
}

#[test]
fn pointer_down_degenerate_ray_is_skipped() {
    let mut ed = start();
    let id = ed.scene.add_box(ONE, ONE, ONE);
    ed.on_pointer_down(v(0, 0, 5 * ONE), v(0, 0, -ONE));
    assert_eq!(ed.selected, Some(id));
    // A zero-length direction is a degenerate event: nothing changes.
    ed.on_pointer_down(v(0, 0, 5 * ONE), v(0, 0, 0));
    assert_eq!(ed.selected, Some(id));
    assert!(ed.drag.is_none());
}

#[test]
fn camera_snap_interpolates_pose_spherically() {
    let mut cam = Camera::new(800, 600);
    let start_rot = QuatFx { x: 0, y: 0, z: 0, w: ONE };
    let end_rot = QuatFx { x: 0, y: 46341, z: 0, w: 46341 }; // a quarter turn about Y
    let snap = CameraSnap {
        start_target: v(0, 0, 0),
        end_target: v(2 * ONE, 0, 0),
        start_rot,
        end_rot,
        start_radius: 4 * ONE,
        end_radius: 2 * ONE,
    };
    cam.apply_snap(&snap, 0);
    assert_eq!(cam.target, v(0, 0, 0));
    assert_eq!(cam.radius, 4 * ONE);
    assert!((cam.rotation.w - ONE).abs() < 800, "w {}", cam.rotation.w);
    assert!(cam.rotation.y.abs() < 800);
    cam.apply_snap(&snap, ONE);
    assert_eq!(cam.target, v(2 * ONE, 0, 0));
    assert_eq!(cam.radius, 2 * ONE);
    assert!((cam.rotation.y - 46341).abs() < 800, "y {}", cam.rotation.y);
    assert!((cam.rotation.w - 46341).abs() < 800, "w {}", cam.rotation.w);
    // Halfway, the spherical blend sits near the 45-degree rotation about Y.
    cam.apply_snap(&snap, ONE / 2);
    assert_eq!(cam.radius, 3 * ONE);
    assert!((cam.rotation.y - 25080).abs() < 1600, "y {}", cam.rotation.y);
    assert!((cam.rotation.w - 60547).abs() < 1600, "w {}", cam.rotation.w);
}

#[test]
fn protocol_messages_compare_by_content() {
    let a = ServerMsg::JobResult { job_id: 42, payload: "ok".to_string() };
    let b = ServerMsg::JobResult { job_id: 42, payload: "ok".to_string() };
    assert_eq!(a, b);
    assert_ne!(a, ServerMsg::HelloAck);
    let c = ClientMsg::AddBox { w: ONE, h: 2 * ONE, d: 3 * ONE };
    assert_eq!(c.clone(), c);
}
