//! The manipulation gizmo: translate-axis and rotate-ring drags.
//!
//! A drag session captures the object, the mode, the placement at drag
//! start, and the anchoring data of its mode. Every pointer move is a pure
//! function from the session and the current ray to a new placement; a
//! degenerate ray (parallel to the drag plane) yields no update for that
//! frame. Rotation deltas are wrapped into a half-open turn before being
//! applied, so driving the ray across the ring's branch cut never produces a
//! whole-turn jump.

use crate::fx;
use crate::fx::{fxdiv, fxmul, sdiv, tdiv};
use crate::model::{transform_wf, ObjectId, Transform, TransformV};
use crate::quat::{q4_from_axis_angle, q4_mul, q4_renormalize, QuatFx};
use crate::trig::{atan2_units, wrap_units, HALF_TURN};
use crate::vec3::{
    v3_add, v3_bounded, v3_cross, v3_dot, v3_norm, v3_normalize, v3_scale, v3_sub, V3, Vec3Fx,
    UNIT_LIMIT,
};
use vstd::prelude::*;

verus! {

/// A local axis of the manipulated object.
#[derive(Clone, Copy, PartialEq, Eq, Structural, Debug)]
pub enum Axis {
    X,
    Y,
    Z,
}

/// What a drag session manipulates.
#[derive(Clone, Copy, PartialEq, Eq, Structural, Debug)]
pub enum DragMode {
    Translate,
    Rotate(Axis),
}

/// The state captured when a gizmo drag begins.
#[derive(Clone, Copy, PartialEq, Eq, Structural, Debug)]
pub struct DragState {
    pub object_id: ObjectId,
    pub mode: DragMode,
    pub start_transform: Transform,
    pub start_origin_world: Vec3Fx,
    pub axis_dir_world: Vec3Fx,
    pub plane_normal_world: Vec3Fx,
    pub start_axis_t: i128,
    pub ring_u_world: Vec3Fx,
    pub ring_v_world: Vec3Fx,
    pub start_angle: i128,
}

/// Fixed-point factor 0.12: gizmo size per unit of view distance.
pub const GIZMO_DIST_SCALE: i128 = 7864;

/// Floor on the view distance used for sizing, about a thousandth of a
/// world unit.
pub const GIZMO_MIN_DIST: i128 = 66;

/// Bound on view distances the gizmo math admits.
pub const VIEW_DIST_LIMIT: i128 = 0x10000000000;

/// Bound on the gizmo's axis length and ring radius.
pub const GIZMO_LEN_LIMIT: i128 = 0x2000000000;

/// Length of a translate axis: scales with view distance, floored at a
/// quarter of the object's bounding radius.
pub open spec fn gizmo_axis_len(base_r: int, dist: int) -> int {
    let d = if dist < GIZMO_MIN_DIST as int {
        GIZMO_MIN_DIST as int
    } else {
        dist
    };
    let by_dist = fxmul(d, GIZMO_DIST_SCALE as int);
    let by_radius = tdiv(base_r, 4);
    if by_dist < by_radius {
        by_radius
    } else {
        by_dist
    }
}

/// Radius of a rotate ring: three quarters of the axis length.
pub open spec fn gizmo_ring_radius(axis_len: int) -> int {
    tdiv(3 * axis_len, 4)
}

/// Axis length and ring radius for an object of bounding radius `base_r`
/// seen from distance `dist_to_obj`.
pub fn gizmo_dimensions(base_r: i128, dist_to_obj: i128) -> (r: (i128, i128))
    requires
        0 <= base_r <= 2 * fx::COORD_LIMIT,
        0 <= dist_to_obj <= VIEW_DIST_LIMIT,
    ensures
        r.0 == gizmo_axis_len(base_r as int, dist_to_obj as int),
        r.1 == gizmo_ring_radius(r.0 as int),
        0 <= r.0 <= GIZMO_LEN_LIMIT,
        0 <= r.1 <= GIZMO_LEN_LIMIT,
{
    let d = if dist_to_obj < GIZMO_MIN_DIST {
        GIZMO_MIN_DIST
    } else {
        dist_to_obj
    };
    proof {
        crate::vec3::lemma_prod_bound2(
            d as int,
            GIZMO_DIST_SCALE as int,
            VIEW_DIST_LIMIT as int,
            GIZMO_DIST_SCALE as int,
        );
        fx::lemma_tdiv_bound(d as int * GIZMO_DIST_SCALE, fx::ONE as int, GIZMO_LEN_LIMIT as int);
        fx::lemma_tdiv_abs_le(d as int * GIZMO_DIST_SCALE, fx::ONE as int);
        fx::lemma_tdiv_bound(base_r as int, 4, GIZMO_LEN_LIMIT as int);
        fx::lemma_tdiv_abs_le(base_r as int, 4);
    }
    let by_dist = fx::mul_fx(d, GIZMO_DIST_SCALE);
    let by_radius = fx::div_trunc(base_r, 4);
    let axis_len = if by_dist < by_radius {
        by_radius
    } else {
        by_dist
    };
    proof {
        fx::lemma_tdiv_abs_le(3 * axis_len as int, 4);
        fx::lemma_tdiv_bound(3 * axis_len as int, 4, GIZMO_LEN_LIMIT as int);
    }
    let ring = fx::div_trunc(3 * axis_len, 4);
    (axis_len, ring)
}

/// Distance along the ray to the plane through `origin` with normal `n`, as
/// the quotient of the two ray-plane dot products.
pub open spec fn plane_ray_t(o: V3, d: V3, origin: V3, n: V3) -> int {
    fxdiv(v3_dot(n, v3_sub(origin, o)), v3_dot(n, d))
}

/// Intersection of the ray with the plane through `origin` with normal `n`,
/// or nothing when the ray is parallel to the plane or meets it at or behind
/// the origin.
pub fn ray_plane_intersection(ray_o: Vec3Fx, ray_d: Vec3Fx, origin: Vec3Fx, n: Vec3Fx) -> (r:
    Option<Vec3Fx>)
    requires
        v3_bounded(ray_o@, fx::COORD_LIMIT as int),
        v3_bounded(ray_d@, UNIT_LIMIT as int),
        v3_bounded(origin@, fx::COORD_LIMIT as int),
        v3_bounded(n@, UNIT_LIMIT as int),
    ensures
        match r {
            Some(p) => {
                &&& v3_dot(n@, ray_d@) != 0
                &&& 0 < plane_ray_t(ray_o@, ray_d@, origin@, n@) <= RAY_PLANE_T_LIMIT
                &&& p@ == v3_add(
                    ray_o@,
                    v3_scale(ray_d@, plane_ray_t(ray_o@, ray_d@, origin@, n@)),
                )
            },
            None => v3_dot(n@, ray_d@) == 0 || plane_ray_t(ray_o@, ray_d@, origin@, n@) <= 0
                || plane_ray_t(ray_o@, ray_d@, origin@, n@) > RAY_PLANE_T_LIMIT,
        },
{
    let denom = n.dot(ray_d);
    if denom == 0 {
        return None;
    }
    proof {
        crate::vec3::lemma_dot_bound(
            n@,
            v3_sub(origin@, ray_o@),
            UNIT_LIMIT as int,
            2 * fx::COORD_LIMIT as int,
            0x4000000000000,
        );
    }
    let num = n.dot(origin.sub(ray_o));
    let t = fx::div_fx(num, denom);
    if t <= 0 || t > RAY_PLANE_T_LIMIT {
        return None;
    }
    proof {
        crate::vec3::lemma_scale_bound(
            ray_d@,
            t as int,
            UNIT_LIMIT as int,
            RAY_PLANE_T_LIMIT as int,
            0x400000000000000,
        );
    }
    Some(ray_o.add(ray_d.scale(t)))
}

/// Farthest plane intersection a drag accepts, in raw units.
pub const RAY_PLANE_T_LIMIT: i128 = 0x200000000000;

/// Scalar position of the drag plane hit along the translate axis.
pub open spec fn translate_axis_pos(ds: DragState, o: V3, d: V3) -> int {
    let p = v3_add(o, v3_scale(d, plane_ray_t(o, d, ds.start_origin_world@, ds.plane_normal_world@)));
    v3_dot(ds.axis_dir_world@, v3_sub(p, ds.start_origin_world@))
}

/// A drag update applies on this frame: the ray is not parallel to the drag
/// plane and meets it ahead of the origin, within range.
pub open spec fn drag_plane_applies(ds: DragState, o: V3, d: V3) -> bool {
    &&& v3_dot(ds.plane_normal_world@, d) != 0
    &&& 0 < plane_ray_t(o, d, ds.start_origin_world@, ds.plane_normal_world@)
        <= RAY_PLANE_T_LIMIT
}

/// The placement a translate drag produces: the start translation moved by
/// the axis scaled with the change of the axis position since drag start,
/// the rotation untouched.
pub open spec fn translate_update(ds: DragState, o: V3, d: V3) -> TransformV {
    TransformV {
        translation: v3_add(
            ds.start_transform@.translation,
            v3_scale(ds.axis_dir_world@, translate_axis_pos(ds, o, d) - ds.start_axis_t),
        ),
        rotation: ds.start_transform@.rotation,
    }
}

/// Translate drag: intersect the ray with the drag plane, project onto the
/// axis, and move the start translation by the change along the axis. The
/// new placement's translation differs from the start translation by an
/// exact multiple of the axis direction — never in any other direction —
/// and the rotation is untouched.
pub fn drag_translate(ds: &DragState, ray_o: Vec3Fx, ray_d: Vec3Fx) -> (r: Option<Transform>)
    requires
        v3_bounded(ray_o@, fx::COORD_LIMIT as int),
        v3_bounded(ray_d@, UNIT_LIMIT as int),
        v3_bounded(ds.start_origin_world@, fx::COORD_LIMIT as int),
        v3_bounded(ds.axis_dir_world@, UNIT_LIMIT as int),
        v3_bounded(ds.plane_normal_world@, UNIT_LIMIT as int),
        v3_bounded(ds.start_transform@.translation, fx::COORD_LIMIT as int),
        -0x100000000000000 <= ds.start_axis_t <= 0x100000000000000,
    ensures
        r is Some <==> drag_plane_applies(*ds, ray_o@, ray_d@),
        match r {
            Some(t2) => {
                let delta = translate_axis_pos(*ds, ray_o@, ray_d@) - ds.start_axis_t;
                &&& t2@ == translate_update(*ds, ray_o@, ray_d@)
                &&& t2@.translation == v3_add(
                    ds.start_transform@.translation,
                    v3_scale(ds.axis_dir_world@, delta),
                )
                &&& t2@.rotation == ds.start_transform@.rotation
            },
            None => true,
        },
{
    let hit = ray_plane_intersection(ray_o, ray_d, ds.start_origin_world, ds.plane_normal_world);
    match hit {
        Some(p) => {
            proof {
                crate::vec3::lemma_scale_bound(
                    ray_d@,
                    plane_ray_t(ray_o@, ray_d@, ds.start_origin_world@, ds.plane_normal_world@),
                    UNIT_LIMIT as int,
                    RAY_PLANE_T_LIMIT as int,
                    0x400000000000,
                );
                crate::vec3::lemma_dot_bound(
                    ds.axis_dir_world@,
                    v3_sub(p@, ds.start_origin_world@),
                    UNIT_LIMIT as int,
                    0x800000000000,
                    0x4000000000000,
                );
            }
            let axis_t = ds.axis_dir_world.dot(p.sub(ds.start_origin_world));
            let delta = axis_t - ds.start_axis_t;
            proof {
                crate::vec3::lemma_scale_bound(
                    ds.axis_dir_world@,
                    delta as int,
                    UNIT_LIMIT as int,
                    0x200000000000000,
                    0x400000000000000,
                );
            }
            let moved = ds.start_transform.translation.add(ds.axis_dir_world.scale(delta));
            Some(Transform { translation: moved, rotation: ds.start_transform.rotation })
        },
        None => None,
    }
}

/// Angle of the drag-plane hit around the ring, measured against the ring's
/// two in-plane basis vectors.
pub open spec fn ring_angle(ds: DragState, o: V3, d: V3) -> int {
    let p = v3_add(o, v3_scale(d, plane_ray_t(o, d, ds.start_origin_world@, ds.plane_normal_world@)));
    let vdir = v3_normalize(v3_sub(p, ds.start_origin_world@));
    atan2_units(v3_dot(vdir, ds.ring_v_world@), v3_dot(vdir, ds.ring_u_world@))
}

/// The local unit axis a rotation turns about.
pub open spec fn axis_unit(axis: Axis) -> V3 {
    match axis {
        Axis::X => V3 { x: fx::ONE as int, y: 0, z: 0 },
        Axis::Y => V3 { x: 0, y: fx::ONE as int, z: 0 },
        Axis::Z => V3 { x: 0, y: 0, z: fx::ONE as int },
    }
}

/// The placement a rotate drag produces: the wrapped change of ring angle
/// since drag start, turned about the chosen local axis and composed onto
/// the placement captured at drag start; the translation untouched.
pub open spec fn rotate_update(ds: DragState, axis: Axis, o: V3, d: V3) -> TransformV {
    TransformV {
        translation: ds.start_transform@.translation,
        rotation: q4_renormalize(
            q4_mul(
                ds.start_transform@.rotation,
                q4_from_axis_angle(
                    axis_unit(axis),
                    wrap_units(ring_angle(ds, o, d) - ds.start_angle),
                ),
            ),
        ),
    }
}

/// Rotate drag: intersect the ray with the ring's plane, read the hit's
/// angle, and apply the wrapped change since drag start about the chosen
/// local axis, composed onto the placement captured at drag start — never
/// onto the live placement, so error cannot compound across frames. The
/// wrapped delta always lies in the half-open turn `(-HALF_TURN,
/// HALF_TURN]`, which is what keeps a drag across the branch cut a small
/// step instead of a whole-turn jump.
pub fn drag_rotate(ds: &DragState, axis: Axis, ray_o: Vec3Fx, ray_d: Vec3Fx) -> (r: Option<
    Transform,
>)
    requires
        v3_bounded(ray_o@, fx::COORD_LIMIT as int),
        v3_bounded(ray_d@, UNIT_LIMIT as int),
        v3_bounded(ds.start_origin_world@, fx::COORD_LIMIT as int),
        v3_bounded(ds.plane_normal_world@, UNIT_LIMIT as int),
        v3_bounded(ds.ring_u_world@, UNIT_LIMIT as int),
        v3_bounded(ds.ring_v_world@, UNIT_LIMIT as int),
        transform_wf(ds.start_transform@),
        -HALF_TURN < ds.start_angle <= HALF_TURN,
    ensures
        r is Some <==> drag_plane_applies(*ds, ray_o@, ray_d@),
        match r {
            Some(t2) => {
                let delta = wrap_units(ring_angle(*ds, ray_o@, ray_d@) - ds.start_angle);
                &&& -HALF_TURN < delta <= HALF_TURN
                &&& (delta - (ring_angle(*ds, ray_o@, ray_d@) - ds.start_angle)) % (
                crate::trig::TURN as int) == 0
                &&& t2@ == rotate_update(*ds, axis, ray_o@, ray_d@)
                &&& t2@.rotation == q4_renormalize(
                    q4_mul(
                        ds.start_transform@.rotation,
                        q4_from_axis_angle(axis_unit(axis), delta),
                    ),
                )
                &&& t2@.translation == ds.start_transform@.translation
            },
            None => true,
        },
{
    let hit = ray_plane_intersection(ray_o, ray_d, ds.start_origin_world, ds.plane_normal_world);
    match hit {
        Some(p) => {
            proof {
                crate::vec3::lemma_scale_bound(
                    ray_d@,
                    plane_ray_t(ray_o@, ray_d@, ds.start_origin_world@, ds.plane_normal_world@),
                    UNIT_LIMIT as int,
                    RAY_PLANE_T_LIMIT as int,
                    0x400000000000000,
                );
            }
            let vdir = p.sub(ds.start_origin_world).normalized();
            proof {
                crate::vec3::lemma_dot_bound(
                    vdir@,
                    ds.ring_v_world@,
                    UNIT_LIMIT as int,
                    UNIT_LIMIT as int,
                    0x4000000000,
                );
                crate::vec3::lemma_dot_bound(
                    vdir@,
                    ds.ring_u_world@,
                    UNIT_LIMIT as int,
                    UNIT_LIMIT as int,
                    0x4000000000,
                );
            }
            let angle = crate::trig::atan2_fx(
                vdir.dot(ds.ring_v_world),
                vdir.dot(ds.ring_u_world),
            );
            let delta = crate::trig::wrap_angle(angle - ds.start_angle);
            proof {
                crate::trig::lemma_wrap_units(angle as int - ds.start_angle);
            }
            let spin = QuatFx::from_axis_angle(axis_unit_vec(axis), delta);
            let turned = ds.start_transform.rotation.mul(spin).renormalize();
            Some(
                Transform { translation: ds.start_transform.translation, rotation: turned },
            )
        },
        None => None,
    }
}

/// Cap on the ray parameter of the closest approach; anything farther is
/// beyond pick range anyway.
pub const SEG_S_LIMIT: i128 = 0x200000000000;

/// Bound on segment endpoints the closest-point math admits.
pub const SEG_POINT_LIMIT: i128 = 0x8000000000;

/// Ray and segment parameters of the closest approach between the ray
/// `o + s*d` (`s >= 0`, capped at `SEG_S_LIMIT`) and the segment
/// `a + t*(b-a)` (`t` in `[0, ONE]`), by the clamped closest-point solution.
pub open spec fn seg_closest(o: V3, d: V3, a: V3, b: V3) -> (int, int) {
    let v = v3_sub(b, a);
    let w = v3_sub(o, a);
    let aa = v3_dot(d, d);
    let bb = v3_dot(d, v);
    let cc = v3_dot(v, v);
    let dd = v3_dot(d, w);
    let ee = v3_dot(v, w);
    let det = aa * cc - bb * bb;
    let s0 = if det > 0 {
        sdiv((bb * ee - cc * dd) * (fx::ONE as int), det)
    } else {
        0
    };
    let t0 = if det > 0 {
        sdiv((aa * ee - bb * dd) * (fx::ONE as int), det)
    } else if cc > 0 {
        fxdiv(ee, cc)
    } else {
        0
    };
    let s1 = if t0 < 0 {
        fxdiv(-dd, aa)
    } else if t0 > fx::ONE {
        fxdiv(bb - dd, aa)
    } else {
        s0
    };
    let t1 = if t0 < 0 {
        0
    } else if t0 > fx::ONE {
        fx::ONE as int
    } else {
        t0
    };
    let t2 = if s1 < 0 {
        let tr = if cc > 0 {
            fxdiv(ee, cc)
        } else {
            0
        };
        if tr < 0 {
            0
        } else if tr > fx::ONE {
            fx::ONE as int
        } else {
            tr
        }
    } else {
        t1
    };
    let s2 = if s1 < 0 {
        0
    } else if s1 > SEG_S_LIMIT as int {
        SEG_S_LIMIT as int
    } else {
        s1
    };
    (s2, t2)
}

/// Distance between the closest points of the ray and the segment.
pub open spec fn seg_dist(o: V3, d: V3, a: V3, b: V3) -> int {
    let st = seg_closest(o, d, a, b);
    v3_norm(
        v3_sub(v3_add(o, v3_scale(d, st.0)), v3_add(a, v3_scale(v3_sub(b, a), st.1))),
    )
}

/// Position of the closest segment point along the segment, in raw units.
pub open spec fn seg_along(o: V3, d: V3, a: V3, b: V3) -> int {
    fxmul(seg_closest(o, d, a, b).1, v3_norm(v3_sub(b, a)))
}

/// Closest distance between the ray and the segment, and the position of
/// the closest segment point along the segment.
pub fn ray_segment_distance(ray_o: Vec3Fx, ray_d: Vec3Fx, a: Vec3Fx, b: Vec3Fx) -> (r: (
    i128,
    i128,
))
    requires
        v3_bounded(ray_o@, fx::COORD_LIMIT as int),
        v3_bounded(ray_d@, UNIT_LIMIT as int),
        v3_bounded(a@, SEG_POINT_LIMIT as int),
        v3_bounded(b@, SEG_POINT_LIMIT as int),
        v3_dot(ray_d@, ray_d@) >= 1,
    ensures
        r.0 == seg_dist(ray_o@, ray_d@, a@, b@),
        r.1 == seg_along(ray_o@, ray_d@, a@, b@),
        r.0 >= 0,
        0 <= r.1 <= 0x20000000000,
{
    let v = b.sub(a);
    let w = ray_o.sub(a);
    proof {
        crate::vec3::lemma_dot_bound(
            ray_d@,
            ray_d@,
            UNIT_LIMIT as int,
            UNIT_LIMIT as int,
            0x100000,
        );
        crate::vec3::lemma_dot_bound(
            ray_d@,
            v@,
            UNIT_LIMIT as int,
            0x10000000000,
            0x80000000000,
        );
        crate::vec3::lemma_dot_bound(v@, v@, 0x10000000000, 0x10000000000, 0x40000000000000000);
        crate::vec3::lemma_dot_bound(
            ray_d@,
            w@,
            UNIT_LIMIT as int,
            0x10000000000,
            0x80000000000,
        );
        crate::vec3::lemma_dot_bound(v@, w@, 0x10000000000, 0x10000000000, 0x40000000000000000);
    }
    let aa = ray_d.dot(ray_d);
    let bb = ray_d.dot(v);
    let cc = v.dot(v);
    let dd = ray_d.dot(w);
    let ee = v.dot(w);
    proof {
        crate::vec3::lemma_prod_bound2(aa as int, cc as int, 0x100000, 0x40000000000000000);
        crate::vec3::lemma_prod_bound2(bb as int, bb as int, 0x80000000000, 0x80000000000);
        crate::vec3::lemma_prod_bound2(bb as int, ee as int, 0x80000000000, 0x40000000000000000);
        crate::vec3::lemma_prod_bound2(cc as int, dd as int, 0x40000000000000000, 0x80000000000);
        crate::vec3::lemma_prod_bound2(aa as int, ee as int, 0x100000, 0x40000000000000000);
        crate::vec3::lemma_prod_bound2(bb as int, dd as int, 0x80000000000, 0x80000000000);
    }
    let det = aa * cc - bb * bb;
    let s0: i128;
    let t0: i128;
    if det > 0 {
        s0 = fx::div_signed((bb * ee - cc * dd) * fx::ONE, det);
        t0 = fx::div_signed((aa * ee - bb * dd) * fx::ONE, det);
    } else {
        s0 = 0;
        t0 = if cc > 0 {
            fx::div_fx(ee, cc)
        } else {
            0
        };
    }
    let s1: i128;
    let t1: i128;
    if t0 < 0 {
        s1 = fx::div_fx(-dd, aa);
        t1 = 0;
    } else if t0 > fx::ONE {
        s1 = fx::div_fx(bb - dd, aa);
        t1 = fx::ONE;
    } else {
        s1 = s0;
        t1 = t0;
    }
    let s2: i128;
    let t2: i128;
    if s1 < 0 {
        s2 = 0;
        let tr = if cc > 0 {
            fx::div_fx(ee, cc)
        } else {
            0
        };
        t2 = fx::clamp(tr, 0, fx::ONE);
    } else {
        s2 = if s1 > SEG_S_LIMIT {
            SEG_S_LIMIT
        } else {
            s1
        };
        t2 = t1;
    }
    proof {
        assert((s2 as int, t2 as int) == seg_closest(ray_o@, ray_d@, a@, b@));
        crate::vec3::lemma_scale_bound(
            ray_d@,
            s2 as int,
            UNIT_LIMIT as int,
            SEG_S_LIMIT as int,
            0x400000000000,
        );
        crate::vec3::lemma_scale_bound(
            v@,
            t2 as int,
            0x10000000000,
            fx::ONE as int,
            0x10000000000,
        );
    }
    let p_ray = ray_o.add(ray_d.scale(s2));
    let p_seg = a.add(v.scale(t2));
    let dist = p_ray.sub(p_seg).length();
    proof {
        crate::vec3::lemma_norm_bounded(v@, 0x10000000000);
        crate::vec3::lemma_prod_bound2(
            t2 as int,
            v3_norm(v@),
            fx::ONE as int,
            0x20000000000,
        );
        fx::lemma_tdiv_bound(t2 as int * v3_norm(v@), fx::ONE as int, 0x20000000000);
        fx::lemma_tdiv_abs_le(t2 as int * v3_norm(v@), fx::ONE as int);
    }
    let along = fx::mul_fx(t2, v.length());
    (dist, along)
}

/// Mathematical view of a gizmo hit.
pub ghost struct GizmoHitV {
    pub mode: DragMode,
    pub start_axis_t: int,
    pub plane_normal: V3,
    pub axis_dir: V3,
    pub ring_u: V3,
    pub ring_v: V3,
    pub start_angle: int,
}

/// What a successful gizmo hit-test yields: the drag mode and the anchoring
/// data its drag updates need.
#[derive(Clone, Copy, PartialEq, Eq, Structural, Debug)]
pub struct GizmoHit {
    pub mode: DragMode,
    pub start_axis_t: i128,
    pub plane_normal: Vec3Fx,
    pub axis_dir: Vec3Fx,
    pub ring_u: Vec3Fx,
    pub ring_v: Vec3Fx,
    pub start_angle: i128,
}

impl View for GizmoHit {
    type V = GizmoHitV;

    open spec fn view(&self) -> GizmoHitV {
        GizmoHitV {
            mode: self.mode,
            start_axis_t: self.start_axis_t as int,
            plane_normal: self.plane_normal@,
            axis_dir: self.axis_dir@,
            ring_u: self.ring_u@,
            ring_v: self.ring_v@,
            start_angle: self.start_angle as int,
        }
    }
}

/// The greater of two values.
pub open spec fn imax(a: int, b: int) -> int {
    if a < b {
        b
    } else {
        a
    }
}

/// A local axis carried into world space: rotated and normalized.
pub open spec fn rot_axis(rot: crate::quat::Q4, axis: Axis) -> V3 {
    v3_normalize(crate::quat::q4_rotate(rot, axis_unit(axis)))
}

/// Fixed-point factor 0.18: axis pick slack per unit of axis length.
pub const AXIS_PICK_SCALE: i128 = 11796;

/// Fixed-point factor 0.20: ring pick slack per unit of ring radius.
pub const RING_PICK_SCALE: i128 = 13107;

/// Fixed-point factor 0.015: pick slack per unit of view distance.
pub const DIST_PICK_SCALE: i128 = 983;

/// Floor on pick slack, five hundredths of a world unit.
pub const MIN_PICK_SLACK: i128 = 3277;

/// Floor on the bounding radius used for gizmo sizing, a quarter of a world
/// unit.
pub const MIN_GIZMO_RADIUS: i128 = 16384;

/// The hit data of a translate drag along `dir`, anchored where the ray came
/// closest to the axis: the drag plane contains the axis and is turned
/// toward the viewer by projecting the view direction off the axis.
pub open spec fn translate_hit_v(origin: V3, eye: V3, dir: V3, along: int) -> GizmoHitV {
    let view_dir = v3_normalize(v3_sub(origin, eye));
    let pn0 = v3_cross(v3_cross(dir, view_dir), dir);
    let pn1 = if v3_norm(pn0) == 0 {
        v3_cross(v3_cross(dir, V3 { x: 0, y: fx::ONE as int, z: 0 }), dir)
    } else {
        pn0
    };
    let hit_point = v3_add(origin, v3_scale(dir, along));
    GizmoHitV {
        mode: DragMode::Translate,
        start_axis_t: v3_dot(dir, v3_sub(hit_point, origin)),
        plane_normal: v3_normalize(pn1),
        axis_dir: dir,
        ring_u: crate::vec3::v3_zero(),
        ring_v: crate::vec3::v3_zero(),
        start_angle: 0,
    }
}

/// The hit data of a rotate drag about the ring with normal `n` and in-plane
/// basis `u`, `v`, if the ray meets the ring's plane within the slack band
/// around its radius.
pub open spec fn ring_hit_v(
    origin: V3,
    o: V3,
    d: V3,
    n: V3,
    u: V3,
    v: V3,
    axis: Axis,
    ring_r: int,
    ring_thr: int,
) -> Option<GizmoHitV> {
    if v3_dot(n, d) == 0 {
        Option::None
    } else {
        let th = plane_ray_t(o, d, origin, n);
        if th <= 0 || th > RAY_PLANE_T_LIMIT as int {
            Option::None
        } else {
            let p = v3_add(o, v3_scale(d, th));
            let rr = v3_norm(v3_sub(p, origin));
            let dev = if rr - ring_r >= 0 {
                rr - ring_r
            } else {
                ring_r - rr
            };
            if dev <= ring_thr {
                let vdir = v3_normalize(v3_sub(p, origin));
                Option::Some(
                    GizmoHitV {
                        mode: DragMode::Rotate(axis),
                        start_axis_t: 0,
                        plane_normal: n,
                        axis_dir: n,
                        ring_u: u,
                        ring_v: v,
                        start_angle: atan2_units(v3_dot(vdir, v), v3_dot(vdir, u)),
                    },
                )
            } else {
                Option::None
            }
        }
    }
}

/// The whole gizmo hit test against an object at `origin` with rotation
/// `rot` and bounding radius `base_r`, seen from `eye`: the three translate
/// axes are tried first, nearest one under the slack winning, then the three
/// rotate rings in X, Y, Z order.
pub open spec fn gizmo_hit_spec(
    origin: V3,
    rot: crate::quat::Q4,
    base_r: int,
    eye: V3,
    o: V3,
    d: V3,
) -> Option<GizmoHitV> {
    let ax = rot_axis(rot, Axis::X);
    let ay = rot_axis(rot, Axis::Y);
    let az = rot_axis(rot, Axis::Z);
    let dist = imax(v3_norm(v3_sub(eye, origin)), GIZMO_MIN_DIST as int);
    let axis_len = gizmo_axis_len(base_r, dist);
    let ring_r = gizmo_ring_radius(axis_len);
    let thr = imax(
        imax(fxmul(axis_len, AXIS_PICK_SCALE as int), fxmul(dist, DIST_PICK_SCALE as int)),
        MIN_PICK_SLACK as int,
    );
    let tip_x = v3_add(origin, v3_scale(ax, axis_len));
    let tip_y = v3_add(origin, v3_scale(ay, axis_len));
    let tip_z = v3_add(origin, v3_scale(az, axis_len));
    let dx = seg_dist(o, d, origin, tip_x);
    let dy = seg_dist(o, d, origin, tip_y);
    let dz = seg_dist(o, d, origin, tip_z);
    let pick_x = dx < thr;
    let pick_y = dy < thr && (!pick_x || dy < dx);
    let pick_z = dz < thr && ((!pick_x && !pick_y) || (pick_y && dz < dy) || (pick_x && !pick_y
        && dz < dx));
    if pick_z {
        Option::Some(translate_hit_v(origin, eye, az, seg_along(o, d, origin, tip_z)))
    } else if pick_y {
        Option::Some(translate_hit_v(origin, eye, ay, seg_along(o, d, origin, tip_y)))
    } else if pick_x {
        Option::Some(translate_hit_v(origin, eye, ax, seg_along(o, d, origin, tip_x)))
    } else {
        let ring_thr = imax(
            imax(fxmul(ring_r, RING_PICK_SCALE as int), fxmul(dist, DIST_PICK_SCALE as int)),
            MIN_PICK_SLACK as int,
        );
        let hx = ring_hit_v(origin, o, d, ax, ay, az, Axis::X, ring_r, ring_thr);
        let hy = ring_hit_v(origin, o, d, ay, az, ax, Axis::Y, ring_r, ring_thr);
        let hz = ring_hit_v(origin, o, d, az, ax, ay, Axis::Z, ring_r, ring_thr);
        if hx is Some {
            hx
        } else if hy is Some {
            hy
        } else {
            hz
        }
    }
}

/// Hit-test the gizmo of the object carrying `id`: nearest translate axis
/// under the pick slack first, then the rotate rings in axis order. Yields
/// nothing when no object carries `id` or the ray misses every affordance.
#[verifier::rlimit(100)]
pub fn hit_gizmo(
    scene: &crate::scene::GeomScene,
    eye: Vec3Fx,
    id: ObjectId,
    ray_o: Vec3Fx,
    ray_d: Vec3Fx,
) -> (r: Option<GizmoHit>)
    requires
        crate::scene::scene_wf(scene@),
        v3_bounded(eye@, fx::COORD_LIMIT as int),
        v3_bounded(ray_o@, fx::COORD_LIMIT as int),
        v3_bounded(ray_d@, UNIT_LIMIT as int),
        v3_dot(ray_d@, ray_d@) >= 1,
    ensures
        match r {
            Some(h) => gizmo_hit_bounded(h) && exists|i: int|
                {
                    &&& 0 <= i < scene@.objects.len()
                    &&& (#[trigger] scene@.objects[i]).id == id
                    &&& Option::Some(h@) == gizmo_hit_spec(
                        scene@.objects[i].transform@.translation,
                        scene@.objects[i].transform@.rotation,
                        imax(scene@.radii[i], MIN_GIZMO_RADIUS as int),
                        eye@,
                        ray_o@,
                        ray_d@,
                    )
                },
            None => (forall|i: int|
                0 <= i < scene@.objects.len() ==> (#[trigger] scene@.objects[i]).id != id) || exists|
                i: int,
            |
                {
                    &&& 0 <= i < scene@.objects.len()
                    &&& (#[trigger] scene@.objects[i]).id == id
                    &&& gizmo_hit_spec(
                        scene@.objects[i].transform@.translation,
                        scene@.objects[i].transform@.rotation,
                        imax(scene@.radii[i], MIN_GIZMO_RADIUS as int),
                        eye@,
                        ray_o@,
                        ray_d@,
                    ) is None
                },
        },
{
    let oi = match scene.model.index_of(id) {
        Some(oi) => oi,
        None => {
            return None;
        },
    };
    let obj = scene.model.objects[oi];
    proof {
        assert(scene@.objects[oi as int] == obj);
        crate::scene::lemma_scene_radius_bounded(scene@, oi as int);
        assert(scene@.radii[oi as int] == scene.bounds_radius@[oi as int] as int);
    }
    let rv = scene.bounds_radius[oi];
    let base_r = if rv < MIN_GIZMO_RADIUS {
        MIN_GIZMO_RADIUS
    } else {
        rv
    };
    let origin = obj.transform.translation;
    let rot = obj.transform.rotation;
    let ax = rot.rotate(Vec3Fx::unit_x()).normalized();
    let ay = rot.rotate(Vec3Fx::unit_y()).normalized();
    let az = rot.rotate(Vec3Fx::unit_z()).normalized();
    proof {
        crate::vec3::lemma_norm_bounded(v3_sub(eye@, origin@), 2 * fx::COORD_LIMIT as int);
    }
    let dist0 = eye.sub(origin).length();
    let dist = if dist0 < GIZMO_MIN_DIST {
        GIZMO_MIN_DIST
    } else {
        dist0
    };
    let dims = gizmo_dimensions(base_r, dist);
    let axis_len = dims.0;
    let ring_r = dims.1;
    proof {
        crate::vec3::lemma_prod_bound2(
            axis_len as int,
            AXIS_PICK_SCALE as int,
            GIZMO_LEN_LIMIT as int,
            AXIS_PICK_SCALE as int,
        );
        fx::lemma_tdiv_abs_le(axis_len as int * AXIS_PICK_SCALE, fx::ONE as int);
        crate::vec3::lemma_prod_bound2(
            dist as int,
            DIST_PICK_SCALE as int,
            VIEW_DIST_LIMIT as int,
            DIST_PICK_SCALE as int,
        );
        fx::lemma_tdiv_abs_le(dist as int * DIST_PICK_SCALE, fx::ONE as int);
        crate::vec3::lemma_scale_bound(
            ax@,
            axis_len as int,
            UNIT_LIMIT as int,
            GIZMO_LEN_LIMIT as int,
            2 * GIZMO_LEN_LIMIT as int,
        );
        crate::vec3::lemma_scale_bound(
            ay@,
            axis_len as int,
            UNIT_LIMIT as int,
            GIZMO_LEN_LIMIT as int,
            2 * GIZMO_LEN_LIMIT as int,
        );
        crate::vec3::lemma_scale_bound(
            az@,
            axis_len as int,
            UNIT_LIMIT as int,
            GIZMO_LEN_LIMIT as int,
            2 * GIZMO_LEN_LIMIT as int,
        );
    }
    let by_axis = fx::mul_fx(axis_len, AXIS_PICK_SCALE);
    let by_dist = fx::mul_fx(dist, DIST_PICK_SCALE);
    let mut thr = if by_axis < by_dist {
        by_dist
    } else {
        by_axis
    };
    if thr < MIN_PICK_SLACK {
        thr = MIN_PICK_SLACK;
    }
    let tip_x = origin.add(ax.scale(axis_len));
    let tip_y = origin.add(ay.scale(axis_len));
    let tip_z = origin.add(az.scale(axis_len));
    let seg_x = ray_segment_distance(ray_o, ray_d, origin, tip_x);
    let seg_y = ray_segment_distance(ray_o, ray_d, origin, tip_y);
    let seg_z = ray_segment_distance(ray_o, ray_d, origin, tip_z);
    let pick_x = seg_x.0 < thr;
    let pick_y = seg_y.0 < thr && (!pick_x || seg_y.0 < seg_x.0);
    let pick_z = seg_z.0 < thr && ((!pick_x && !pick_y) || (pick_y && seg_z.0 < seg_y.0) || (
    pick_x && !pick_y && seg_z.0 < seg_x.0));
    if pick_z {
        return Some(translate_hit(origin, eye, az, seg_z.1));
    }
    if pick_y {
        return Some(translate_hit(origin, eye, ay, seg_y.1));
    }
    if pick_x {
        return Some(translate_hit(origin, eye, ax, seg_x.1));
    }
    proof {
        crate::vec3::lemma_prod_bound2(
            ring_r as int,
            RING_PICK_SCALE as int,
            GIZMO_LEN_LIMIT as int,
            RING_PICK_SCALE as int,
        );
        fx::lemma_tdiv_abs_le(ring_r as int * RING_PICK_SCALE, fx::ONE as int);
    }
    let by_ring = fx::mul_fx(ring_r, RING_PICK_SCALE);
    let mut ring_thr = if by_ring < by_dist {
        by_dist
    } else {
        by_ring
    };
    if ring_thr < MIN_PICK_SLACK {
        ring_thr = MIN_PICK_SLACK;
    }
    match ring_hit(origin, ray_o, ray_d, ax, ay, az, Axis::X, ring_r, ring_thr) {
        Some(h) => {
            return Some(h);
        },
        None => {},
    }
    match ring_hit(origin, ray_o, ray_d, ay, az, ax, Axis::Y, ring_r, ring_thr) {
        Some(h) => {
            return Some(h);
        },
        None => {},
    }
    ring_hit(origin, ray_o, ray_d, az, ax, ay, Axis::Z, ring_r, ring_thr)
}

/// Every anchoring vector of a hit is near-unit and its scalars are in
/// range, so a drag session built from it is well formed.
pub open spec fn gizmo_hit_bounded(h: GizmoHit) -> bool {
    &&& v3_bounded(h.plane_normal@, UNIT_LIMIT as int)
    &&& v3_bounded(h.axis_dir@, UNIT_LIMIT as int)
    &&& v3_bounded(h.ring_u@, UNIT_LIMIT as int)
    &&& v3_bounded(h.ring_v@, UNIT_LIMIT as int)
    &&& -0x400000000000 <= h.start_axis_t <= 0x400000000000
    &&& -HALF_TURN < h.start_angle <= HALF_TURN
}

/// The translate-drag hit data for the axis `dir` anchored at `along`.
fn translate_hit(origin: Vec3Fx, eye: Vec3Fx, dir: Vec3Fx, along: i128) -> (r: GizmoHit)
    requires
        v3_bounded(origin@, fx::COORD_LIMIT as int),
        v3_bounded(eye@, fx::COORD_LIMIT as int),
        v3_bounded(dir@, UNIT_LIMIT as int),
        -0x20000000000 <= along <= 0x20000000000,
    ensures
        r@ == translate_hit_v(origin@, eye@, dir@, along as int),
        gizmo_hit_bounded(r),
{
    let view_dir = origin.sub(eye).normalized();
    proof {
        crate::vec3::lemma_cross_bound(
            dir@,
            view_dir@,
            UNIT_LIMIT as int,
            UNIT_LIMIT as int,
            0x80000,
        );
        crate::vec3::lemma_cross_bound(
            v3_cross(dir@, view_dir@),
            dir@,
            0x80000,
            UNIT_LIMIT as int,
            0x200000,
        );
        crate::vec3::lemma_cross_bound(
            dir@,
            V3 { x: 0, y: fx::ONE as int, z: 0 },
            UNIT_LIMIT as int,
            fx::ONE as int,
            0x80000,
        );
        crate::vec3::lemma_cross_bound(
            v3_cross(dir@, V3 { x: 0, y: fx::ONE as int, z: 0 }),
            dir@,
            0x80000,
            UNIT_LIMIT as int,
            0x200000,
        );
    }
    let pn0 = dir.cross(view_dir).cross(dir);
    let ln = pn0.length();
    let pn1 = if ln == 0 {
        dir.cross(Vec3Fx::unit_y()).cross(dir)
    } else {
        pn0
    };
    let pn = pn1.normalized();
    proof {
        crate::vec3::lemma_scale_bound(
            dir@,
            along as int,
            UNIT_LIMIT as int,
            0x20000000000,
            0x40000000000,
        );
        crate::vec3::lemma_dot_bound(
            dir@,
            v3_sub(
                v3_add(origin@, v3_scale(dir@, along as int)),
                origin@,
            ),
            UNIT_LIMIT as int,
            0x80000000000,
            0x400000000000,
        );
    }
    let hit_point = origin.add(dir.scale(along));
    let start_axis_t = dir.dot(hit_point.sub(origin));
    GizmoHit {
        mode: DragMode::Translate,
        start_axis_t,
        plane_normal: pn,
        axis_dir: dir,
        ring_u: Vec3Fx::zero(),
        ring_v: Vec3Fx::zero(),
        start_angle: 0,
    }
}

/// The rotate-drag hit data for one ring, if the ray meets its slack band.
fn ring_hit(
    origin: Vec3Fx,
    ray_o: Vec3Fx,
    ray_d: Vec3Fx,
    n: Vec3Fx,
    u: Vec3Fx,
    v: Vec3Fx,
    axis: Axis,
    ring_r: i128,
    ring_thr: i128,
) -> (r: Option<GizmoHit>)
    requires
        v3_bounded(origin@, fx::COORD_LIMIT as int),
        v3_bounded(ray_o@, fx::COORD_LIMIT as int),
        v3_bounded(ray_d@, UNIT_LIMIT as int),
        v3_bounded(n@, UNIT_LIMIT as int),
        v3_bounded(u@, UNIT_LIMIT as int),
        v3_bounded(v@, UNIT_LIMIT as int),
        0 <= ring_r <= GIZMO_LEN_LIMIT,
        0 <= ring_thr <= GIZMO_LEN_LIMIT,
    ensures
        match r {
            Some(h) => gizmo_hit_bounded(h) && Option::Some(h@) == ring_hit_v(
                origin@,
                ray_o@,
                ray_d@,
                n@,
                u@,
                v@,
                axis,
                ring_r as int,
                ring_thr as int,
            ),
            None => ring_hit_v(
                origin@,
                ray_o@,
                ray_d@,
                n@,
                u@,
                v@,
                axis,
                ring_r as int,
                ring_thr as int,
            ) is None,
        },
{
    let p = match ray_plane_intersection(ray_o, ray_d, origin, n) {
        Some(p) => p,
        None => {
            return None;
        },
    };
    proof {
        crate::vec3::lemma_scale_bound(
            ray_d@,
            plane_ray_t(ray_o@, ray_d@, origin@, n@),
            UNIT_LIMIT as int,
            RAY_PLANE_T_LIMIT as int,
            0x400000000000,
        );
    }
    let off = p.sub(origin);
    let rr = off.length();
    let dev = if rr - ring_r >= 0 {
        rr - ring_r
    } else {
        ring_r - rr
    };
    if dev > ring_thr {
        return None;
    }
    let vdir = off.normalized();
    proof {
        crate::vec3::lemma_dot_bound(
            vdir@,
            v@,
            UNIT_LIMIT as int,
            UNIT_LIMIT as int,
            0x4000000000,
        );
        crate::vec3::lemma_dot_bound(
            vdir@,
            u@,
            UNIT_LIMIT as int,
            UNIT_LIMIT as int,
            0x4000000000,
        );
    }
    let ang0 = crate::trig::atan2_fx(vdir.dot(v), vdir.dot(u));
    Some(
        GizmoHit {
            mode: DragMode::Rotate(axis),
            start_axis_t: 0,
            plane_normal: n,
            axis_dir: n,
            ring_u: u,
            ring_v: v,
            start_angle: ang0,
        },
    )
}

/// The local unit axis a rotation turns about.
pub fn axis_unit_vec(axis: Axis) -> (r: Vec3Fx)
    ensures
        r@ == axis_unit(axis),
        v3_bounded(r@, UNIT_LIMIT as int),
{
    match axis {
        Axis::X => Vec3Fx::unit_x(),
        Axis::Y => Vec3Fx::unit_y(),
        Axis::Z => Vec3Fx::unit_z(),
    }
}

} // verus!
