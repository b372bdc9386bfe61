//! Ray picking.
//!
//! Broad phase: test the ray against each object's bounding sphere, centered
//! on its world translation, and keep the nearest hit. Narrow phase: carry
//! each cached local triangle into world space and intersect exactly; all
//! comparisons are rational (numerator against denominator), so the inside
//! tests carry no rounding at all.

use crate::fx;
use crate::fx::{fxdiv, fxmul, sqrt_floor, tdiv};
use crate::mesh::{is_radius_of, mesh_local, tr_point, MeshV, TriMesh};
use crate::model::{transform_wf, ObjectId, Transform, TransformV};
use crate::quat::q4_rotate;
use crate::scene::{scene_wf, GeomScene, SceneV};
use crate::vec3::{
    v3_add, v3_bounded, v3_cross, v3_dot, v3_norm, v3_normalize, v3_scale, v3_sub, V3, Vec3Fx,
    UNIT_LIMIT,
};
use vstd::prelude::*;

verus! {

/// Farthest hit distance a pick reports, in raw units.
pub const RAY_T_LIMIT: i128 = 0x200000000000;

/// Floor on a broad-phase pick sphere's radius, about five hundredths of a
/// world unit.
pub const MIN_PICK_RADIUS: i128 = 3277;

/// Bound on a world-space vertex: a rotated and translated local vertex
/// stays under this.
pub const WORLD_VERT_LIMIT: i128 = 0x100000000000;

/// A narrow-phase hit: the object, the world-space point and surface normal,
/// and the distance along the ray.
#[derive(Clone, Copy, PartialEq, Eq, Structural, Debug)]
pub struct SurfaceHit {
    pub object_id: ObjectId,
    pub point: Vec3Fx,
    pub normal: Vec3Fx,
    pub distance: i128,
}

/// Discriminant of the ray-sphere quadratic, in raw units.
pub open spec fn ray_sphere_disc(o: V3, d: V3, c: V3, radius: int) -> int {
    let oc = v3_sub(o, c);
    let b = v3_dot(oc, d);
    fxmul(b, b) - (v3_dot(oc, oc) - fxmul(radius, radius))
}

/// Distance to the near intersection of the ray with the sphere.
pub open spec fn ray_sphere_t(o: V3, d: V3, c: V3, radius: int) -> int {
    let oc = v3_sub(o, c);
    let b = v3_dot(oc, d);
    -b - sqrt_floor(ray_sphere_disc(o, d, c, radius) * (fx::ONE as int))
}

/// The ray, taken unit-length, meets the sphere ahead of its origin.
pub open spec fn ray_sphere_hits(o: V3, d: V3, c: V3, radius: int) -> bool {
    ray_sphere_disc(o, d, c, radius) >= 0 && ray_sphere_t(o, d, c, radius) > 0
}

/// Distance along the ray to a sphere, or nothing when the ray misses it or
/// the near intersection is at or behind the origin.
pub fn ray_sphere_intersect(ray_o: Vec3Fx, ray_d: Vec3Fx, center: Vec3Fx, radius: i128) -> (r:
    Option<i128>)
    requires
        v3_bounded(ray_o@, fx::COORD_LIMIT as int),
        v3_bounded(ray_d@, UNIT_LIMIT as int),
        v3_bounded(center@, fx::COORD_LIMIT as int),
        0 <= radius <= 2 * fx::COORD_LIMIT,
    ensures
        match r {
            Some(t) => ray_sphere_hits(ray_o@, ray_d@, center@, radius as int) && t as int
                == ray_sphere_t(ray_o@, ray_d@, center@, radius as int),
            None => !ray_sphere_hits(ray_o@, ray_d@, center@, radius as int),
        },
{
    let oc = ray_o.sub(center);
    proof {
        assert(v3_bounded(oc@, 549755813888));
        crate::vec3::lemma_dot_bound(oc@, ray_d@, 549755813888, UNIT_LIMIT as int, 0x100000000000);
        crate::vec3::lemma_dot_bound(
            oc@,
            oc@,
            549755813888,
            549755813888,
            0x100000000000000000,
        );
        crate::vec3::lemma_prod_bound(radius as int, radius as int, 549755813888);
        fx::lemma_tdiv_bound(radius as int * radius, fx::ONE as int, 0x100000000000000000);
    }
    let b = oc.dot(ray_d);
    proof {
        crate::vec3::lemma_prod_bound(b as int, b as int, 0x100000000000);
        fx::lemma_tdiv_bound(b as int * b, fx::ONE as int, 0x10000000000000000000);
    }
    let cc = oc.dot(oc) - fx::mul_fx(radius, radius);
    let disc = fx::mul_fx(b, b) - cc;
    if disc < 0 {
        return None;
    }
    let root = fx::sqrt_fx(disc);
    proof {
        fx::lemma_sqrt_floor_bounds(disc as int * fx::ONE);
        assert(root <= 0x4000000000000) by (nonlinear_arith)
            requires
                root >= 0,
                (root as int) * (root as int) <= disc as int * fx::ONE,
                disc as int * fx::ONE < 0x4000000000000 * 0x4000000000000,
        ;
    }
    let t = -b - root;
    if t > 0 {
        Some(t)
    } else {
        None
    }
}

/// Determinant of the triangle intersection: the first edge against the ray
/// cross the second edge.
pub open spec fn tri_det(d: V3, v0: V3, v1: V3, v2: V3) -> int {
    v3_dot(v3_sub(v1, v0), v3_cross(d, v3_sub(v2, v0)))
}

/// Numerator of the first barycentric coordinate.
pub open spec fn tri_u_num(o: V3, d: V3, v0: V3, v2: V3) -> int {
    v3_dot(v3_sub(o, v0), v3_cross(d, v3_sub(v2, v0)))
}

/// The shared cross product of the origin offset with the first edge.
pub open spec fn tri_qvec(o: V3, v0: V3, v1: V3) -> V3 {
    v3_cross(v3_sub(o, v0), v3_sub(v1, v0))
}

/// Numerator of the second barycentric coordinate.
pub open spec fn tri_v_num(o: V3, d: V3, v0: V3, v1: V3) -> int {
    v3_dot(d, tri_qvec(o, v0, v1))
}

/// Numerator of the hit distance.
pub open spec fn tri_t_num(o: V3, v0: V3, v1: V3, v2: V3) -> int {
    v3_dot(v3_sub(v2, v0), tri_qvec(o, v0, v1))
}

/// Distance along the ray to the triangle's plane.
pub open spec fn tri_t(o: V3, d: V3, v0: V3, v1: V3, v2: V3) -> int {
    fxdiv(tri_t_num(o, v0, v1, v2), tri_det(d, v0, v1, v2))
}

/// The ray meets the triangle: the ray is not parallel to its plane, both
/// barycentric coordinates and their sum stay inside the triangle (compared
/// as exact rationals), and the hit lies ahead of the origin within range.
pub open spec fn tri_hit(o: V3, d: V3, v0: V3, v1: V3, v2: V3) -> bool {
    let det = tri_det(d, v0, v1, v2);
    if det == 0 {
        false
    } else {
        let sgn: int = if det > 0 {
            1
        } else {
            -1
        };
        let adet = det * sgn;
        let u = tri_u_num(o, d, v0, v2) * sgn;
        let v = tri_v_num(o, d, v0, v1) * sgn;
        let t = tri_t(o, d, v0, v1, v2);
        0 <= u <= adet && 0 <= v && u + v <= adet && 0 < t <= RAY_T_LIMIT
    }
}

/// Dot product with a long second argument, for the products of products in
/// the triangle test.
fn dot_long(a: Vec3Fx, b: Vec3Fx) -> (r: i128)
    requires
        v3_bounded(a@, 0x200000000000),
        v3_bounded(b@, 0x8000000000000000000),
    ensures
        r == v3_dot(a@, b@),
{
    proof {
        assert(-0x1000000000000000000000000000000 <= a@.x * b@.x <= 0x1000000000000000000000000000000
            && -0x1000000000000000000000000000000 <= a@.y * b@.y
            <= 0x1000000000000000000000000000000 && -0x1000000000000000000000000000000 <= a@.z
            * b@.z <= 0x1000000000000000000000000000000) by (nonlinear_arith)
            requires
                v3_bounded(a@, 0x200000000000),
                v3_bounded(b@, 0x8000000000000000000),
        ;
    }
    fx::div_trunc(a.x * b.x + a.y * b.y + a.z * b.z, fx::ONE)
}

/// Distance along the ray to a triangle given in world space, or nothing
/// when the ray misses it.
pub fn ray_triangle_intersect(
    ray_o: Vec3Fx,
    ray_d: Vec3Fx,
    v0: Vec3Fx,
    v1: Vec3Fx,
    v2: Vec3Fx,
) -> (r: Option<i128>)
    requires
        v3_bounded(ray_o@, WORLD_VERT_LIMIT as int),
        v3_bounded(ray_d@, UNIT_LIMIT as int),
        v3_bounded(v0@, WORLD_VERT_LIMIT as int),
        v3_bounded(v1@, WORLD_VERT_LIMIT as int),
        v3_bounded(v2@, WORLD_VERT_LIMIT as int),
    ensures
        match r {
            Some(t) => tri_hit(ray_o@, ray_d@, v0@, v1@, v2@) && t as int == tri_t(
                ray_o@,
                ray_d@,
                v0@,
                v1@,
                v2@,
            ),
            None => !tri_hit(ray_o@, ray_d@, v0@, v1@, v2@),
        },
{
    let e1 = v1.sub(v0);
    let e2 = v2.sub(v0);
    proof {
        crate::vec3::lemma_cross_bound(
            ray_d@,
            e2@,
            UNIT_LIMIT as int,
            0x200000000000,
            0x800000000000,
        );
    }
    let pvec = ray_d.cross(e2);
    proof {
        crate::vec3::lemma_dot_bound(
            e1@,
            pvec@,
            0x200000000000,
            0x800000000000,
            0x40000000000000000000,
        );
    }
    let det = e1.dot(pvec);
    if det == 0 {
        return None;
    }
    let tvec = ray_o.sub(v0);
    proof {
        crate::vec3::lemma_dot_bound(
            tvec@,
            pvec@,
            0x200000000000,
            0x800000000000,
            0x40000000000000000000,
        );
        crate::vec3::lemma_cross_bound(
            tvec@,
            e1@,
            0x200000000000,
            0x200000000000,
            0x8000000000000000000,
        );
        crate::vec3::lemma_dot_bound(
            ray_d@,
            tri_qvec(ray_o@, v0@, v1@),
            UNIT_LIMIT as int,
            0x8000000000000000000,
            0x40000000000000000000,
        );
    }
    let u_num = tvec.dot(pvec);
    let qvec = tvec.cross(e1);
    let v_num = dot_long(ray_d, qvec);
    proof {
        lemma_t_num_bound(e2@, qvec@);
    }
    let t_num = dot_long(e2, qvec);
    proof {
        assert(det as int == tri_det(ray_d@, v0@, v1@, v2@));
        assert(u_num as int == tri_u_num(ray_o@, ray_d@, v0@, v2@));
        assert(qvec@ == tri_qvec(ray_o@, v0@, v1@));
        assert(v_num as int == tri_v_num(ray_o@, ray_d@, v0@, v1@));
        assert(t_num as int == tri_t_num(ray_o@, v0@, v1@, v2@));
    }
    let adet: i128;
    let u: i128;
    let v: i128;
    if det > 0 {
        adet = det;
        u = u_num;
        v = v_num;
    } else {
        adet = -det;
        u = -u_num;
        v = -v_num;
    }
    proof {
        let sgn: int = if det > 0 {
            1int
        } else {
            -1int
        };
        lemma_mul_unit(tri_det(ray_d@, v0@, v1@, v2@));
        lemma_mul_unit(tri_u_num(ray_o@, ray_d@, v0@, v2@));
        lemma_mul_unit(tri_v_num(ray_o@, ray_d@, v0@, v1@));
        assert(adet as int == tri_det(ray_d@, v0@, v1@, v2@) * sgn);
        assert(u as int == tri_u_num(ray_o@, ray_d@, v0@, v2@) * sgn);
        assert(v as int == tri_v_num(ray_o@, ray_d@, v0@, v1@) * sgn);
    }
    if u < 0 || u > adet {
        return None;
    }
    if v < 0 || u + v > adet {
        return None;
    }
    let t = fx::div_fx(t_num, det);
    if t > 0 && t <= RAY_T_LIMIT {
        Some(t)
    } else {
        None
    }
}

/// The broad-phase pick sphere radius of object `i`: its cached bounding
/// radius, floored at `MIN_PICK_RADIUS`.
pub open spec fn pick_radius(s: SceneV, i: int) -> int {
    if s.radii[i] < MIN_PICK_RADIUS as int {
        MIN_PICK_RADIUS as int
    } else {
        s.radii[i]
    }
}

/// The ray meets object `i`'s bounding sphere, centered on its world
/// translation.
pub open spec fn obj_sphere_hit(s: SceneV, o: V3, d: V3, i: int) -> bool {
    ray_sphere_hits(o, d, s.objects[i].transform@.translation, pick_radius(s, i))
}

/// Distance along the ray to object `i`'s bounding sphere.
pub open spec fn obj_sphere_t(s: SceneV, o: V3, d: V3, i: int) -> int {
    ray_sphere_t(o, d, s.objects[i].transform@.translation, pick_radius(s, i))
}

/// A cached bounding radius never exceeds twice the coordinate limit.
proof fn lemma_pick_radius_bounded(s: SceneV, i: int)
    requires
        scene_wf(s),
        0 <= i < s.objects.len(),
    ensures
        0 <= s.radii[i] <= 2 * fx::COORD_LIMIT,
        MIN_PICK_RADIUS as int <= pick_radius(s, i) <= 2 * fx::COORD_LIMIT,
{
    let m = s.meshes[i];
    assert(is_radius_of(m, s.radii[i]));
    if m.positions.len() > 0 {
        let j = choose|j: int|
            0 <= j < m.positions.len() && s.radii[i] == v3_norm(#[trigger] m.positions[j]);
        crate::vec3::lemma_norm_bounded(m.positions[j], fx::COORD_LIMIT as int);
    }
}

/// Broad-phase pick: normalize the ray direction, then report the object
/// whose bounding sphere the ray meets nearest, earliest object winning
/// ties; a direction whose length rounds to zero picks nothing.
pub fn pick_object(scene: &GeomScene, ray_o: Vec3Fx, ray_d: Vec3Fx) -> (r: Option<ObjectId>)
    requires
        scene_wf(scene@),
        v3_bounded(ray_o@, fx::COORD_LIMIT as int),
        v3_bounded(ray_d@, 0x4000000000000000),
    ensures
        match r {
            Some(id) => {
                let dn = v3_normalize(ray_d@);
                &&& v3_norm(ray_d@) != 0
                &&& exists|i: int|
                    {
                        &&& 0 <= i < scene@.objects.len()
                        &&& (#[trigger] scene@.objects[i]).id == id
                        &&& obj_sphere_hit(scene@, ray_o@, dn, i)
                        &&& forall|j: int|
                            0 <= j < scene@.objects.len() && obj_sphere_hit(scene@, ray_o@, dn, j)
                                ==> obj_sphere_t(scene@, ray_o@, dn, i) <= obj_sphere_t(
                                scene@,
                                ray_o@,
                                dn,
                                j,
                            )
                        &&& forall|j: int|
                            0 <= j < i && obj_sphere_hit(scene@, ray_o@, dn, j) ==> obj_sphere_t(
                                scene@,
                                ray_o@,
                                dn,
                                i,
                            ) < obj_sphere_t(scene@, ray_o@, dn, j)
                    }
            },
            None => v3_norm(ray_d@) == 0 || forall|i: int|
                0 <= i < scene@.objects.len() ==> !obj_sphere_hit(
                    scene@,
                    ray_o@,
                    v3_normalize(ray_d@),
                    i,
                ),
        },
{
    let ln = ray_d.length();
    if ln == 0 {
        return None;
    }
    let d = ray_d.normalized();
    let ghost dn = v3_normalize(ray_d@);
    let mut best_t: i128 = 0;
    let mut best_id: Option<ObjectId> = None;
    let ghost mut bi: int = 0;
    let mut idx: usize = 0;
    while idx < scene.model.objects.len()
        invariant
            scene_wf(scene@),
            v3_bounded(ray_o@, fx::COORD_LIMIT as int),
            v3_bounded(d@, UNIT_LIMIT as int),
            d@ == dn,
            idx <= scene@.objects.len(),
            match best_id {
                Some(id) => {
                    &&& 0 <= bi < idx
                    &&& scene@.objects[bi].id == id
                    &&& obj_sphere_hit(scene@, ray_o@, dn, bi)
                    &&& best_t as int == obj_sphere_t(scene@, ray_o@, dn, bi)
                    &&& forall|j: int|
                        0 <= j < idx && obj_sphere_hit(scene@, ray_o@, dn, j) ==> best_t as int
                            <= obj_sphere_t(scene@, ray_o@, dn, j)
                    &&& forall|j: int|
                        0 <= j < bi && obj_sphere_hit(scene@, ray_o@, dn, j) ==> (best_t as int)
                            < obj_sphere_t(scene@, ray_o@, dn, j)
                },
                None => forall|j: int| 0 <= j < idx ==> !obj_sphere_hit(scene@, ray_o@, dn, j),
            },
        decreases scene.model.objects.len() - idx,
    {
        let obj = scene.model.objects[idx];
        proof {
            assert(scene@.objects[idx as int] == obj);
            lemma_pick_radius_bounded(scene@, idx as int);
            assert(scene@.radii[idx as int] == scene.bounds_radius@[idx as int] as int);
        }
        let rv = scene.bounds_radius[idx];
        let radius = if rv < MIN_PICK_RADIUS {
            MIN_PICK_RADIUS
        } else {
            rv
        };
        match ray_sphere_intersect(ray_o, d, obj.transform.translation, radius) {
            Some(hit_t) => {
                if best_id.is_none() || hit_t < best_t {
                    best_t = hit_t;
                    best_id = Some(obj.id);
                    proof {
                        bi = idx as int;
                    }
                }
            },
            None => {},
        }
        idx = idx + 1;
    }
    best_id
}

/// A ray fired from straight above a sphere's center down its axis hits the
/// sphere whenever the origin lies outside it, at distance `k` less the
/// rounded radius.
pub proof fn lemma_aimed_ray_hits(c: V3, k: int, rad: int)
    requires
        0 <= rad < k,
    ensures
        ray_sphere_hits(
            v3_add(c, V3 { x: 0, y: 0, z: k }),
            V3 { x: 0, y: 0, z: -(fx::ONE as int) },
            c,
            rad,
        ),
        ray_sphere_t(
            v3_add(c, V3 { x: 0, y: 0, z: k }),
            V3 { x: 0, y: 0, z: -(fx::ONE as int) },
            c,
            rad,
        ) == k - sqrt_floor(fxmul(rad, rad) * (fx::ONE as int)),
{
    let one = fx::ONE as int;
    let o = v3_add(c, V3 { x: 0, y: 0, z: k });
    let d = V3 { x: 0, y: 0, z: -one };
    let oc = v3_sub(o, c);
    assert(oc == V3 { x: 0, y: 0, z: k });
    vstd::arithmetic::div_mod::lemma_div_multiples_vanish(k, one);
    let b = v3_dot(oc, d);
    assert(0 * 0 + 0 * 0 + k * (-one) == k * (-one));
    assert(k * (-one) < 0 && -(k * (-one)) == one * k) by (nonlinear_arith)
        requires
            k > 0,
            one > 0,
    ;
    assert(b == -((one * k) / one));
    assert(b == -k);
    assert((-k) * (-k) == k * k && 0 * 0 + 0 * 0 + k * k == k * k) by (nonlinear_arith);
    assert(fxmul(b, b) == tdiv(k * k, one));
    assert(v3_dot(oc, oc) == tdiv(k * k, one));
    let disc = ray_sphere_disc(o, d, c, rad);
    assert(disc == fxmul(rad, rad));
    assert(rad * rad >= 0) by (nonlinear_arith);
    fx::lemma_tdiv_abs_le(rad * rad, one);
    assert(disc >= 0 && disc * one == tdiv(rad * rad, one) * one && tdiv(rad * rad, one) * one
        <= rad * rad);
    assert(disc * one >= 0) by (nonlinear_arith)
        requires
            disc >= 0,
            one > 0,
    ;
    fx::lemma_sqrt_floor_bounds(disc * one);
    let s = sqrt_floor(disc * one);
    assert(s <= rad) by (nonlinear_arith)
        requires
            s >= 0,
            rad >= 0,
            s * s <= disc * one,
            disc * one <= rad * rad,
    ;
    assert(ray_sphere_t(o, d, c, rad) == k - s);
}

/// Once the ray is aimed at one object and hits its sphere, any object whose
/// sphere the ray meets no farther than every other — in particular the one
/// a broad-phase pick reports — is that object, provided no other hit is as
/// near.
pub proof fn lemma_aimed_pick_unique(s: SceneV, o: V3, d: V3, i: int, i2: int)
    requires
        0 <= i < s.objects.len(),
        0 <= i2 < s.objects.len(),
        obj_sphere_hit(s, o, d, i),
        forall|j: int|
            0 <= j < s.objects.len() && j != i && obj_sphere_hit(s, o, d, j) ==> obj_sphere_t(
                s,
                o,
                d,
                i,
            ) < obj_sphere_t(s, o, d, j),
        obj_sphere_hit(s, o, d, i2),
        forall|j: int|
            0 <= j < s.objects.len() && obj_sphere_hit(s, o, d, j) ==> obj_sphere_t(s, o, d, i2)
                <= obj_sphere_t(s, o, d, j),
    ensures
        i2 == i,
        s.objects[i2].id == s.objects[i].id,
{
    if i2 != i {
        assert(obj_sphere_t(s, o, d, i2) <= obj_sphere_t(s, o, d, i));
        assert(obj_sphere_t(s, o, d, i) < obj_sphere_t(s, o, d, i2));
    }
}

/// Vertex `vi` of a local mesh carried into world space by a placement.
pub open spec fn world_vert(m: MeshV, tr: TransformV, vi: int) -> V3 {
    tr_point(tr.rotation, tr.translation, m.positions[vi])
}

/// The ray meets triangle `k` of the placed mesh.
pub open spec fn otri_hit(m: MeshV, tr: TransformV, o: V3, d: V3, k: int) -> bool {
    tri_hit(
        o,
        d,
        world_vert(m, tr, m.indices[3 * k]),
        world_vert(m, tr, m.indices[3 * k + 1]),
        world_vert(m, tr, m.indices[3 * k + 2]),
    )
}

/// Distance along the ray to triangle `k` of the placed mesh.
pub open spec fn otri_t(m: MeshV, tr: TransformV, o: V3, d: V3, k: int) -> int {
    tri_t(
        o,
        d,
        world_vert(m, tr, m.indices[3 * k]),
        world_vert(m, tr, m.indices[3 * k + 1]),
        world_vert(m, tr, m.indices[3 * k + 2]),
    )
}

/// Componentwise average of three vectors, rounded toward zero.
pub open spec fn avg3(a: V3, b: V3, c: V3) -> V3 {
    V3 { x: tdiv(a.x + b.x + c.x, 3), y: tdiv(a.y + b.y + c.y, 3), z: tdiv(a.z + b.z + c.z, 3) }
}

/// The reported surface normal at triangle `k`: the average of its vertex
/// normals, rotated into world space and normalized, zero when degenerate.
pub open spec fn otri_normal(m: MeshV, tr: TransformV, k: int) -> V3 {
    v3_normalize(
        q4_rotate(
            tr.rotation,
            avg3(
                m.normals[m.indices[3 * k]],
                m.normals[m.indices[3 * k + 1]],
                m.normals[m.indices[3 * k + 2]],
            ),
        ),
    )
}

/// A local vertex carried into world space.
fn world_point(tr: &Transform, p: Vec3Fx) -> (r: Vec3Fx)
    requires
        transform_wf(tr@),
        v3_bounded(p@, fx::COORD_LIMIT as int),
    ensures
        r@ == tr_point(tr@.rotation, tr@.translation, p@),
        v3_bounded(r@, WORLD_VERT_LIMIT as int),
{
    proof {
        crate::quat::lemma_rotate_bound(tr@.rotation, p@, fx::COORD_LIMIT as int);
    }
    tr.rotation.rotate(p).add(tr.translation)
}

/// Scan one placed mesh for the nearest triangle the ray meets, earliest
/// triangle winning ties.
fn scan_object(mesh: &TriMesh, tr: &Transform, ray_o: Vec3Fx, d: Vec3Fx) -> (r: Option<
    (usize, i128),
>)
    requires
        mesh_local(mesh@),
        transform_wf(tr@),
        v3_bounded(ray_o@, fx::COORD_LIMIT as int),
        v3_bounded(d@, UNIT_LIMIT as int),
    ensures
        match r {
            Some(kt) => {
                &&& kt.0 < crate::mesh::tri_count(mesh@)
                &&& otri_hit(mesh@, tr@, ray_o@, d@, kt.0 as int)
                &&& kt.1 as int == otri_t(mesh@, tr@, ray_o@, d@, kt.0 as int)
                &&& forall|l: int|
                    0 <= l < crate::mesh::tri_count(mesh@) && otri_hit(mesh@, tr@, ray_o@, d@, l)
                        ==> kt.1 as int <= otri_t(mesh@, tr@, ray_o@, d@, l)
                &&& forall|l: int|
                    0 <= l < kt.0 && otri_hit(mesh@, tr@, ray_o@, d@, l) ==> (kt.1 as int)
                        < otri_t(mesh@, tr@, ray_o@, d@, l)
            },
            None => forall|l: int|
                0 <= l < crate::mesh::tri_count(mesh@) ==> !otri_hit(mesh@, tr@, ray_o@, d@, l),
        },
{
    let nt = mesh.indices.len() / 3;
    proof {
        vstd::arithmetic::div_mod::lemma_fundamental_div_mod(mesh@.indices.len() as int, 3);
    }
    let mut best_t: i128 = 0;
    let mut best_k: usize = 0;
    let mut found = false;
    let mut k: usize = 0;
    while k < nt
        invariant
            mesh_local(mesh@),
            transform_wf(tr@),
            v3_bounded(ray_o@, fx::COORD_LIMIT as int),
            v3_bounded(d@, UNIT_LIMIT as int),
            nt == crate::mesh::tri_count(mesh@),
            3 * nt == mesh@.indices.len(),
            k <= nt,
            found ==> {
                &&& best_k < k
                &&& otri_hit(mesh@, tr@, ray_o@, d@, best_k as int)
                &&& best_t as int == otri_t(mesh@, tr@, ray_o@, d@, best_k as int)
                &&& forall|l: int|
                    0 <= l < k && otri_hit(mesh@, tr@, ray_o@, d@, l) ==> best_t as int <= otri_t(
                        mesh@,
                        tr@,
                        ray_o@,
                        d@,
                        l,
                    )
                &&& forall|l: int|
                    0 <= l < best_k && otri_hit(mesh@, tr@, ray_o@, d@, l) ==> (best_t as int)
                        < otri_t(mesh@, tr@, ray_o@, d@, l)
            },
            !found ==> forall|l: int| 0 <= l < k ==> !otri_hit(mesh@, tr@, ray_o@, d@, l),
        decreases nt - k,
    {
        proof {
            assert(3 * (k as int) + 2 < mesh@.indices.len()) by (nonlinear_arith)
                requires
                    k < nt,
                    3 * (nt as int) == mesh@.indices.len(),
            ;
        }
        let i0 = mesh.indices[3 * k] as usize;
        let i1 = mesh.indices[3 * k + 1] as usize;
        let i2 = mesh.indices[3 * k + 2] as usize;
        proof {
            assert(i0 as int == mesh@.indices[3 * (k as int)]);
            assert(i1 as int == mesh@.indices[3 * (k as int) + 1]);
            assert(i2 as int == mesh@.indices[3 * (k as int) + 2]);
        }
        let p0 = mesh.positions[i0];
        let p1 = mesh.positions[i1];
        let p2 = mesh.positions[i2];
        proof {
            assert(p0@ == mesh@.positions[i0 as int]);
            assert(p1@ == mesh@.positions[i1 as int]);
            assert(p2@ == mesh@.positions[i2 as int]);
        }
        let w0 = world_point(tr, p0);
        let w1 = world_point(tr, p1);
        let w2 = world_point(tr, p2);
        proof {
            assert(w0@ == world_vert(mesh@, tr@, mesh@.indices[3 * (k as int)]));
            assert(w1@ == world_vert(mesh@, tr@, mesh@.indices[3 * (k as int) + 1]));
            assert(w2@ == world_vert(mesh@, tr@, mesh@.indices[3 * (k as int) + 2]));
        }
        match ray_triangle_intersect(ray_o, d, w0, w1, w2) {
            Some(t) => {
                if !found || t < best_t {
                    best_t = t;
                    best_k = k;
                    found = true;
                }
            },
            None => {},
        }
        k = k + 1;
    }
    if found {
        Some((best_k, best_t))
    } else {
        None
    }
}

/// The pair `(j, l)` names a triangle of the scene.
pub open spec fn surf_valid(s: SceneV, j: int, l: int) -> bool {
    0 <= j < s.objects.len() && 0 <= l < crate::mesh::tri_count(s.meshes[j])
}

/// The unit ray meets triangle `l` of object `j`.
pub open spec fn surf_hit(s: SceneV, o: V3, dn: V3, j: int, l: int) -> bool {
    otri_hit(s.meshes[j], s.objects[j].transform@, o, dn, l)
}

/// Distance along the unit ray to triangle `l` of object `j`.
pub open spec fn surf_t(s: SceneV, o: V3, dn: V3, j: int, l: int) -> int {
    otri_t(s.meshes[j], s.objects[j].transform@, o, dn, l)
}

/// `(j, l)` scans before `(i, k)`.
pub open spec fn surf_before(j: int, l: int, i: int, k: int) -> bool {
    j < i || (j == i && l < k)
}

impl GeomScene {
    /// Narrow-phase pick: the nearest world-space triangle hit across every
    /// object, with an interpolated surface normal; the earliest-scanned of
    /// equally near triangles wins. The ray direction need not be unit
    /// length; a direction whose length rounds to zero yields no hit.
    pub fn pick_surface(&self, ray_o: Vec3Fx, ray_d: Vec3Fx) -> (r: Option<SurfaceHit>)
        requires
            scene_wf(self@),
            v3_bounded(ray_o@, fx::COORD_LIMIT as int),
            v3_bounded(ray_d@, 0x4000000000000000),
        ensures
            match r {
                Some(h) => {
                    &&& v3_norm(ray_d@) != 0
                    &&& exists|i: int, k: int|
                        {
                            let dn = v3_normalize(ray_d@);
                            &&& #[trigger] surf_valid(self@, i, k)
                            &&& surf_hit(self@, ray_o@, dn, i, k)
                            &&& h.object_id == self@.objects[i].id
                            &&& h.distance as int == surf_t(self@, ray_o@, dn, i, k)
                            &&& h.point@ == v3_add(
                                ray_o@,
                                v3_scale(dn, surf_t(self@, ray_o@, dn, i, k)),
                            )
                            &&& h.normal@ == otri_normal(self@.meshes[i], self@.objects[i].transform@, k)
                            &&& forall|j: int, l: int|
                                #[trigger] surf_valid(self@, j, l) && surf_hit(
                                    self@,
                                    ray_o@,
                                    dn,
                                    j,
                                    l,
                                ) ==> h.distance as int <= surf_t(self@, ray_o@, dn, j, l)
                            &&& forall|j: int, l: int|
                                #[trigger] surf_valid(self@, j, l) && surf_hit(self@, ray_o@, dn, j, l)
                                    && surf_before(j, l, i, k) ==> (h.distance as int) < surf_t(
                                    self@,
                                    ray_o@,
                                    dn,
                                    j,
                                    l,
                                )
                        }
                },
                None => v3_norm(ray_d@) == 0 || forall|j: int, l: int|
                    #[trigger] surf_valid(self@, j, l) ==> !surf_hit(
                        self@,
                        ray_o@,
                        v3_normalize(ray_d@),
                        j,
                        l,
                    ),
            },
    {
        let ln = ray_d.length();
        if ln == 0 {
            return None;
        }
        let d = ray_d.normalized();
        let ghost dn = v3_normalize(ray_d@);
        let mut best: SurfaceHit = SurfaceHit {
            object_id: 0,
            point: Vec3Fx::zero(),
            normal: Vec3Fx::zero(),
            distance: 0,
        };
        let mut found = false;
        let ghost mut bi: int = 0;
        let ghost mut bk: int = 0;
        let mut idx: usize = 0;
        while idx < self.model.objects.len()
            invariant
                scene_wf(self@),
                v3_bounded(ray_o@, fx::COORD_LIMIT as int),
                v3_bounded(d@, UNIT_LIMIT as int),
                d@ == dn,
                idx <= self@.objects.len(),
                found ==> {
                    &&& surf_valid(self@, bi, bk)
                    &&& bi < idx
                    &&& surf_hit(self@, ray_o@, dn, bi, bk)
                    &&& best.object_id == self@.objects[bi].id
                    &&& best.distance as int == surf_t(self@, ray_o@, dn, bi, bk)
                    &&& best.point@ == v3_add(ray_o@, v3_scale(dn, surf_t(self@, ray_o@, dn, bi, bk)))
                    &&& best.normal@ == otri_normal(
                        self@.meshes[bi],
                        self@.objects[bi].transform@,
                        bk,
                    )
                    &&& forall|j: int, l: int|
                        #[trigger] surf_valid(self@, j, l) && j < idx && surf_hit(
                            self@,
                            ray_o@,
                            dn,
                            j,
                            l,
                        ) ==> best.distance as int <= surf_t(self@, ray_o@, dn, j, l)
                    &&& forall|j: int, l: int|
                        #[trigger] surf_valid(self@, j, l) && j < idx && surf_hit(self@, ray_o@, dn, j, l)
                            && surf_before(j, l, bi, bk) ==> (best.distance as int) < surf_t(
                            self@,
                            ray_o@,
                            dn,
                            j,
                            l,
                        )
                },
                !found ==> forall|j: int, l: int|
                    #[trigger] surf_valid(self@, j, l) && j < idx ==> !surf_hit(
                        self@,
                        ray_o@,
                        dn,
                        j,
                        l,
                    ),
            decreases self.model.objects.len() - idx,
        {
            let obj = self.model.objects[idx];
            proof {
                assert(self@.objects[idx as int] == obj);
                assert(self@.meshes[idx as int] == self.local_meshes@[idx as int]@);
            }
            match scan_object(&self.local_meshes[idx], &obj.transform, ray_o, d) {
                Some((k, t)) => {
                    if !found || t < best.distance {
                        proof {
                            assert(otri_hit(self@.meshes[idx as int], obj.transform@, ray_o@, dn, k as int));
                        }
                        let nrm = self.triangle_normal(idx, k);
                        proof {
                            lemma_hit_t_in_range(
                                self@.meshes[idx as int],
                                obj.transform@,
                                ray_o@,
                                dn,
                                k as int,
                            );
                            crate::vec3::lemma_scale_bound(
                                dn,
                                t as int,
                                UNIT_LIMIT as int,
                                RAY_T_LIMIT as int,
                                0x400000000000000,
                            );
                        }
                        let point = ray_o.add(d.scale(t));
                        best = SurfaceHit { object_id: obj.id, point, normal: nrm, distance: t };
                        found = true;
                        proof {
                            bi = idx as int;
                            bk = k as int;
                        }
                    }
                },
                None => {},
            }
            idx = idx + 1;
        }
        if found {
            Some(best)
        } else {
            None
        }
    }

    /// The world-space surface normal of triangle `k` of object `idx`.
    fn triangle_normal(&self, idx: usize, k: usize) -> (r: Vec3Fx)
        requires
            scene_wf(self@),
            idx < self@.objects.len(),
            k < crate::mesh::tri_count(self@.meshes[idx as int]),
        ensures
            r@ == otri_normal(self@.meshes[idx as int], self@.objects[idx as int].transform@, k as int),
    {
        let mesh = &self.local_meshes[idx];
        let obj = &self.model.objects[idx];
        proof {
            assert(self@.meshes[idx as int] == self.local_meshes@[idx as int]@);
            assert(self@.objects[idx as int] == self.model@.objects[idx as int]);
            vstd::arithmetic::div_mod::lemma_fundamental_div_mod(mesh@.indices.len() as int, 3);
            assert(3 * (k as int) + 2 < mesh@.indices.len()) by (nonlinear_arith)
                requires
                    (k as int) < mesh@.indices.len() as int / 3,
                    mesh@.indices.len() as int == 3 * (mesh@.indices.len() as int / 3) + (
                    mesh@.indices.len() as int % 3),
                    mesh@.indices.len() as int % 3 == 0,
            ;
        }
        let i0 = mesh.indices[3 * k] as usize;
        let i1 = mesh.indices[3 * k + 1] as usize;
        let i2 = mesh.indices[3 * k + 2] as usize;
        proof {
            assert(i0 as int == mesh@.indices[3 * (k as int)]);
            assert(i1 as int == mesh@.indices[3 * (k as int) + 1]);
            assert(i2 as int == mesh@.indices[3 * (k as int) + 2]);
        }
        let n0 = mesh.normals[i0];
        let n1 = mesh.normals[i1];
        let n2 = mesh.normals[i2];
        proof {
            assert(n0@ == mesh@.normals[i0 as int]);
            assert(n1@ == mesh@.normals[i1 as int]);
            assert(n2@ == mesh@.normals[i2 as int]);
        }
        let navg = Vec3Fx {
            x: fx::div_trunc(n0.x + n1.x + n2.x, 3),
            y: fx::div_trunc(n0.y + n1.y + n2.y, 3),
            z: fx::div_trunc(n0.z + n1.z + n2.z, 3),
        };
        proof {
            assert(navg@ == avg3(n0@, n1@, n2@));
            fx::lemma_tdiv_bound(n0@.x + n1@.x + n2@.x, 3, 3 * UNIT_LIMIT as int);
            fx::lemma_tdiv_bound(n0@.y + n1@.y + n2@.y, 3, 3 * UNIT_LIMIT as int);
            fx::lemma_tdiv_bound(n0@.z + n1@.z + n2@.z, 3, 3 * UNIT_LIMIT as int);
        }
        obj.transform.rotation.rotate(navg).normalized()
    }
}

/// A triangle the ray meets is hit at a positive distance within range.
proof fn lemma_hit_t_in_range(m: MeshV, tr: TransformV, o: V3, dn: V3, k: int)
    requires
        otri_hit(m, tr, o, dn, k),
    ensures
        0 < otri_t(m, tr, o, dn, k) <= RAY_T_LIMIT,
{
}

/// Multiplying by a unit sign keeps or flips a value.
pub proof fn lemma_mul_unit(x: int)
    ensures
        x * 1 == x,
        x * (-1) == -x,
{
    assert(x * 1 == x && x * (-1) == -x) by (nonlinear_arith);
}

/// The distance numerator of the triangle test fits the fixed-point divide.
proof fn lemma_t_num_bound(e2: V3, qvec: V3)
    requires
        v3_bounded(e2, 0x200000000000),
        v3_bounded(qvec, 0x8000000000000000000),
    ensures
        -0x400000000000000000000000000 <= v3_dot(e2, qvec) <= 0x400000000000000000000000000,
{
    crate::vec3::lemma_dot_bound(
        e2,
        qvec,
        0x200000000000,
        0x8000000000000000000,
        0x400000000000000000000000000,
    );
}

} // verus!
