//! The orbiting camera.
//!
//! Orbit maps two screen points onto an arcball sphere and turns by the
//! shortest rotation between them; after every orbit the orientation is
//! re-orthogonalized against world up so no roll accumulates. Pan moves the
//! target along the view axes scaled by distance, zoom scales and clamps the
//! distance, and view snapping interpolates pose per frame with an
//! ease-in-ease-out curve; starting a new snap replaces the one in flight.

use crate::fx;
use crate::fx::{fxdiv, fxmul, sqrt_floor, tdiv};
use crate::quat::{
    q4_bounded, q4_from_unit_vectors, q4_mul, q4_renormalize, q4_rotate, Q4, QuatFx, QUNIT_LIMIT,
};
use crate::trig::QUARTER_TURN;
use crate::vec3::{
    v3_add, v3_bounded, v3_cross, v3_dot, v3_norm, v3_normalize, v3_scale, v3_sub, V3, Vec3Fx,
    UNIT_LIMIT,
};
use vstd::prelude::*;

verus! {

/// Initial yaw, about 0.6 radians in turn units.
pub const CAMERA_START_YAW: i128 = 140800;

/// Initial pitch, about 0.4 radians in turn units.
pub const CAMERA_START_PITCH: i128 = 93867;

/// Initial and least/greatest orbit distances, in raw units.
pub const CAMERA_START_RADIUS: i128 = 262144;

pub const CAMERA_MIN_RADIUS: i128 = 13107;

pub const CAMERA_MAX_RADIUS: i128 = 13107200;

/// Fixed-point factor 0.0025: pan speed per unit of distance.
pub const PAN_SCALE: i128 = 164;

/// Fixed-point factor 0.001: zoom speed per unit of wheel delta.
pub const ZOOM_SCALE: i128 = 66;

/// Floor on a single zoom factor, 0.05 in fixed point.
pub const ZOOM_MIN_FACTOR: i128 = 3277;

/// Bound on screen coordinates and wheel deltas, in raw units.
pub const SCREEN_LIMIT: i128 = 0x40000000000;

/// Bound on a single pan delta, in raw units.
pub const PAN_DELTA_LIMIT: i128 = 0x1000000000;

/// Mathematical view of a camera.
pub ghost struct CameraV {
    pub target: V3,
    pub radius: int,
    pub rotation: Q4,
    pub fov_y: int,
    pub aspect: int,
    pub near: int,
    pub far: int,
}

/// Orbit target, distance, orientation and projection parameters.
#[derive(Clone, Copy, PartialEq, Eq, Structural, Debug)]
pub struct Camera {
    pub target: Vec3Fx,
    pub radius: i128,
    pub rotation: QuatFx,
    pub fov_y: i128,
    pub aspect: i128,
    pub near: i128,
    pub far: i128,
}

impl View for Camera {
    type V = CameraV;

    open spec fn view(&self) -> CameraV {
        CameraV {
            target: self.target@,
            radius: self.radius as int,
            rotation: self.rotation@,
            fov_y: self.fov_y as int,
            aspect: self.aspect as int,
            near: self.near as int,
            far: self.far as int,
        }
    }
}

/// A well-formed camera: target within the scene bounds, near-unit
/// orientation, clamped distance.
pub open spec fn camera_wf(c: CameraV) -> bool {
    &&& v3_bounded(c.target, fx::COORD_LIMIT as int)
    &&& q4_bounded(c.rotation, QUNIT_LIMIT as int)
    &&& CAMERA_MIN_RADIUS as int <= c.radius <= CAMERA_MAX_RADIUS as int
}

/// A screen point mapped onto the arcball: points inside the unit circle
/// lift to the sphere, points outside project to its equator.
pub open spec fn arcball_vec(x: int, y: int, w: int, h: int) -> V3 {
    let nx = fxdiv(2 * x - w, w);
    let ny = fxdiv(h - 2 * y, h);
    let len2 = fxmul(nx, nx) + fxmul(ny, ny);
    if len2 <= fx::ONE as int {
        V3 { x: nx, y: ny, z: fx::sqrtfx(fx::ONE as int - len2) }
    } else {
        let n = fx::sqrtfx(len2);
        if n == 0 {
            V3 { x: nx, y: ny, z: 0 }
        } else {
            V3 { x: fxdiv(nx, n), y: fxdiv(ny, n), z: 0 }
        }
    }
}

/// Map a screen point onto the arcball sphere.
pub fn arcball_vector(x: i128, y: i128, width: u32, height: u32) -> (r: Vec3Fx)
    requires
        -SCREEN_LIMIT <= x <= SCREEN_LIMIT,
        -SCREEN_LIMIT <= y <= SCREEN_LIMIT,
        width >= 1,
        height >= 1,
    ensures
        r@ == arcball_vec(x as int, y as int, width as int, height as int),
        v3_bounded(r@, UNIT_LIMIT as int),
{
    let w = width as i128;
    let h = height as i128;
    proof {
        fx::lemma_tdiv_abs_le((2 * x - w) * fx::ONE, w as int);
        fx::lemma_tdiv_abs_le((h - 2 * y) * fx::ONE, h as int);
        assert(-0x1000000000000000 * (w as int) <= (2 * x - w) * fx::ONE <= 0x1000000000000000 * (
        w as int)) by (nonlinear_arith)
            requires
                w >= 1,
                -0x40000000000 <= x <= 0x40000000000,
                w <= 0x100000000,
        ;
        assert(-0x1000000000000000 * (h as int) <= (h - 2 * y) * fx::ONE <= 0x1000000000000000 * (
        h as int)) by (nonlinear_arith)
            requires
                h >= 1,
                -0x40000000000 <= y <= 0x40000000000,
                h <= 0x100000000,
        ;
        fx::lemma_tdiv_bound((2 * x - w) * fx::ONE, w as int, 0x1000000000000000);
        fx::lemma_tdiv_bound((h - 2 * y) * fx::ONE, h as int, 0x1000000000000000);
    }
    let nx = fx::div_fx(2 * x - w, w);
    let ny = fx::div_fx(h - 2 * y, h);
    proof {
        crate::vec3::lemma_prod_bound(nx as int, nx as int, 0x1000000000000000);
        crate::vec3::lemma_prod_bound(ny as int, ny as int, 0x1000000000000000);
        lemma_len2_nonneg(nx as int, ny as int);
        fx::lemma_tdiv_abs_le(nx as int * nx, fx::ONE as int);
        fx::lemma_tdiv_abs_le(ny as int * ny, fx::ONE as int);
    }
    let len2 = fx::mul_fx(nx, nx) + fx::mul_fx(ny, ny);
    if len2 <= fx::ONE {
        proof {
            lemma_arcball_sphere_bounds(nx as int, ny as int, len2 as int);
        }
        let z = fx::sqrt_fx(fx::ONE - len2);
        proof {
            fx::lemma_sqrt_floor_bounds((fx::ONE as int - len2) * fx::ONE);
            assert(z <= UNIT_LIMIT) by (nonlinear_arith)
                requires
                    z >= 0,
                    (z as int) * (z as int) <= (fx::ONE as int - len2 as int) * fx::ONE,
                    0 <= fx::ONE as int - len2 as int <= 2 * fx::ONE,
                    UNIT_LIMIT == 131072i128,
                    fx::ONE == 65536i128,
            ;
        }
        Vec3Fx { x: nx, y: ny, z }
    } else {
        let n = fx::sqrt_fx(len2);
        proof {
            lemma_arcball_equator_bounds(nx as int, ny as int, len2 as int, n as int);
        }
        if n == 0 {
            Vec3Fx { x: nx, y: ny, z: 0 }
        } else {
            Vec3Fx { x: fx::div_fx(nx, n), y: fx::div_fx(ny, n), z: 0 }
        }
    }
}

/// The sum of two fixed-point squares is nonnegative.
proof fn lemma_len2_nonneg(nx: int, ny: int)
    ensures
        fxmul(nx, nx) + fxmul(ny, ny) >= 0,
        fxmul(nx, nx) >= 0,
        fxmul(ny, ny) >= 0,
{
    assert(nx * nx >= 0 && ny * ny >= 0) by (nonlinear_arith);
    fx::lemma_tdiv_abs_le(nx * nx, fx::ONE as int);
    fx::lemma_tdiv_abs_le(ny * ny, fx::ONE as int);
}

/// Inside the arcball circle both normalized coordinates stay within one
/// world unit.
proof fn lemma_arcball_sphere_bounds(nx: int, ny: int, len2: int)
    requires
        len2 == fxmul(nx, nx) + fxmul(ny, ny),
        len2 <= fx::ONE,
    ensures
        -(fx::ONE as int) <= nx <= fx::ONE,
        -(fx::ONE as int) <= ny <= fx::ONE,
        len2 >= 0,
{
    lemma_len2_nonneg(nx, ny);
    let one = fx::ONE as int;
    vstd::arithmetic::div_mod::lemma_fundamental_div_mod(nx * nx, one);
    vstd::arithmetic::div_mod::lemma_mod_bound(nx * nx, one);
    vstd::arithmetic::div_mod::lemma_fundamental_div_mod(ny * ny, one);
    vstd::arithmetic::div_mod::lemma_mod_bound(ny * ny, one);
    assert(nx * nx >= 0 && ny * ny >= 0) by (nonlinear_arith);
    assert(nx * nx <= fxmul(nx, nx) * one + one - 1) by (nonlinear_arith)
        requires
            nx * nx >= 0,
            one > 0,
            fxmul(nx, nx) == (nx * nx) / one,
            nx * nx == one * ((nx * nx) / one) + (nx * nx) % one,
            (nx * nx) % one < one,
    ;
    assert(fxmul(nx, nx) <= one);
    assert(-one <= nx <= one) by (nonlinear_arith)
        requires
            nx * nx <= one * one + one - 1,
            one == 65536,
    ;
    assert(ny * ny <= fxmul(ny, ny) * one + one - 1) by (nonlinear_arith)
        requires
            ny * ny >= 0,
            one > 0,
            fxmul(ny, ny) == (ny * ny) / one,
            ny * ny == one * ((ny * ny) / one) + (ny * ny) % one,
            (ny * ny) % one < one,
    ;
    assert(-one <= ny <= one) by (nonlinear_arith)
        requires
            ny * ny <= one * one + one - 1,
            one == 65536,
    ;
}

/// Outside the circle the equator projection stays within two world units,
/// and the projecting norm is at least one world unit.
proof fn lemma_arcball_equator_bounds(nx: int, ny: int, len2: int, n: int)
    requires
        len2 == fxmul(nx, nx) + fxmul(ny, ny),
        len2 > fx::ONE,
        n == fx::sqrtfx(len2),
    ensures
        n >= fx::ONE,
        -(UNIT_LIMIT as int) <= fxdiv(nx, n) <= UNIT_LIMIT,
        -(UNIT_LIMIT as int) <= fxdiv(ny, n) <= UNIT_LIMIT,
{
    let one = fx::ONE as int;
    let s = nx * nx + ny * ny;
    assert(nx * nx >= 0 && ny * ny >= 0 && s >= nx * nx && s >= ny * ny) by (nonlinear_arith)
        requires
            s == nx * nx + ny * ny,
    ;
    vstd::arithmetic::div_mod::lemma_fundamental_div_mod(nx * nx, one);
    vstd::arithmetic::div_mod::lemma_mod_bound(nx * nx, one);
    vstd::arithmetic::div_mod::lemma_fundamental_div_mod(ny * ny, one);
    vstd::arithmetic::div_mod::lemma_mod_bound(ny * ny, one);
    let qx = (nx * nx) / one;
    let qy = (ny * ny) / one;
    let rx = (nx * nx) % one;
    let ry = (ny * ny) % one;
    assert(len2 * one >= s - 2 * one + 2) by (nonlinear_arith)
        requires
            one > 0,
            s == nx * nx + ny * ny,
            len2 == qx + qy,
            nx * nx == one * qx + rx,
            ny * ny == one * qy + ry,
            rx < one,
            ry < one,
    ;
    fx::lemma_sqrt_floor_bounds(len2 * one);
    assert(n >= one) by (nonlinear_arith)
        requires
            n >= 0,
            (n + 1) * (n + 1) > len2 * one,
            n * n <= len2 * one,
            len2 >= one + 1,
            one == 65536,
    ;
    assert((n + 1) * (n + 1) == n * n + 2 * n + 1) by (nonlinear_arith);
    assert(nx * nx <= n * n + 2 * n + 1 + 2 * one - 2);
    assert(-(2 * n) <= nx <= 2 * n) by (nonlinear_arith)
        requires
            n >= 65536,
            nx * nx <= n * n + 2 * n + 2 * 65536 - 1,
    ;
    assert(ny * ny <= n * n + 2 * n + 1 + 2 * one - 2);
    assert(-(2 * n) <= ny <= 2 * n) by (nonlinear_arith)
        requires
            n >= 65536,
            ny * ny <= n * n + 2 * n + 2 * 65536 - 1,
    ;
    assert(-(2 * one * n) <= nx * one <= 2 * one * n && -(2 * one * n) <= ny * one <= 2 * one
        * n) by (nonlinear_arith)
        requires
            -(2 * n) <= nx <= 2 * n,
            -(2 * n) <= ny <= 2 * n,
            one > 0,
    ;
    fx::lemma_tdiv_bound(nx * one, n, 2 * one);
    fx::lemma_tdiv_bound(ny * one, n, 2 * one);
}

/// The orientation after one orbit step: the shortest rotation taking the
/// current arcball vector to the previous one (which inverts the drag, as
/// the view moves opposite the dragged sphere), composed onto the current
/// orientation and re-orthogonalized against world up. A step whose two
/// arcball vectors round to the same axis leaves the orientation unchanged.
pub open spec fn orbit_step(rot: Q4, prev: (int, int), curr: (int, int), w: int, h: int) -> Q4 {
    let v0 = v3_normalize(arcball_vec(prev.0, prev.1, w, h));
    let v1 = v3_normalize(arcball_vec(curr.0, curr.1, w, h));
    let axis = v3_cross(v1, v0);
    if v3_norm(axis) == 0 {
        rot
    } else {
        constrain_up_q(q4_renormalize(q4_mul(q4_from_unit_vectors(v1, v0), rot)))
    }
}

/// The orientation with its roll removed: rebuild the basis from world up
/// and the current back axis, flipping it when up would point below the
/// horizon, and read the rotation back off the basis.
pub open spec fn constrain_up_q(rot: Q4) -> Q4 {
    let back = v3_normalize(q4_rotate(rot, V3 { x: 0, y: 0, z: fx::ONE as int }));
    let world_up = V3 { x: 0, y: fx::ONE as int, z: 0 };
    let right0 = v3_cross(world_up, back);
    let right1 = if v3_norm(right0) == 0 {
        v3_normalize(q4_rotate(rot, V3 { x: fx::ONE as int, y: 0, z: 0 }))
    } else {
        v3_normalize(right0)
    };
    let up = v3_normalize(v3_cross(back, right1));
    let (right2, up2) = if v3_dot(up, world_up) < 0 {
        (crate::vec3::v3_neg(right1), crate::vec3::v3_neg(up))
    } else {
        (right1, up)
    };
    crate::quat::q4_from_basis(right2, up2, back)
}

/// The camera eye: the target plus the rotated distance offset.
pub open spec fn camera_eye(c: CameraV) -> V3 {
    v3_add(c.target, q4_rotate(c.rotation, V3 { x: 0, y: 0, z: c.radius }))
}

/// The camera eye clamped into the coordinate bounds the pickers admit.
pub open spec fn camera_eye_clamped(c: CameraV) -> V3 {
    clamp3(camera_eye(c), fx::COORD_LIMIT as int)
}

impl Camera {
    /// The default viewport camera: a three-quarter view of the origin.
    pub fn new(width: u32, height: u32) -> (r: Camera)
        requires
            width >= 1,
        ensures
            camera_wf(r@),
            r@.target == crate::vec3::v3_zero(),
            r@.radius == CAMERA_START_RADIUS as int,
            r@.fov_y == QUARTER_TURN as int / 2,
            r@.aspect == crate::fx::fxdiv(width as int, if height >= 1 {
                height as int
            } else {
                1
            }),
            r@.near == 655,
            r@.far == 65536000,
            r@.rotation == q4_renormalize(
                q4_mul(
                    crate::quat::q4_from_axis_angle(
                        V3 { x: 0, y: fx::ONE as int, z: 0 },
                        CAMERA_START_YAW as int,
                    ),
                    crate::quat::q4_from_axis_angle(
                        V3 { x: fx::ONE as int, y: 0, z: 0 },
                        CAMERA_START_PITCH as int,
                    ),
                ),
            ),
    {
        let h = if height >= 1 {
            height
        } else {
            1
        };
        let aspect = fx::div_fx(width as i128, h as i128);
        let yaw = QuatFx::from_axis_angle(Vec3Fx::unit_y(), CAMERA_START_YAW);
        let pitch = QuatFx::from_axis_angle(Vec3Fx::unit_x(), CAMERA_START_PITCH);
        let rotation = yaw.mul(pitch).renormalize();
        Camera {
            target: Vec3Fx::zero(),
            radius: CAMERA_START_RADIUS,
            rotation,
            fov_y: QUARTER_TURN / 2,
            aspect,
            near: 655,
            far: 65536000,
        }
    }

    /// The eye position implied by the current pose.
    pub fn eye(&self) -> (r: Vec3Fx)
        requires
            camera_wf(self@),
        ensures
            r@ == camera_eye(self@),
            v3_bounded(r@, 2 * fx::COORD_LIMIT as int),
    {
        proof {
            crate::quat::lemma_rotate_bound(
                self@.rotation,
                V3 { x: 0, y: 0, z: self@.radius },
                CAMERA_MAX_RADIUS as int,
            );
        }
        let offset = self.rotation.rotate(Vec3Fx { x: 0, y: 0, z: self.radius });
        self.target.add(offset)
    }

    /// One orbit step from two screen points; a drag whose arcball vectors
    /// coincide — in particular any zero-length drag — leaves the pose
    /// unchanged.
    pub fn orbit_arcball(&mut self, prev: (i128, i128), curr: (i128, i128), width: u32, height: u32)
        requires
            camera_wf(old(self)@),
            -SCREEN_LIMIT <= prev.0 <= SCREEN_LIMIT,
            -SCREEN_LIMIT <= prev.1 <= SCREEN_LIMIT,
            -SCREEN_LIMIT <= curr.0 <= SCREEN_LIMIT,
            -SCREEN_LIMIT <= curr.1 <= SCREEN_LIMIT,
        ensures
            camera_wf(final(self)@),
            final(self)@.rotation == orbit_step(
                old(self)@.rotation,
                (prev.0 as int, prev.1 as int),
                (curr.0 as int, curr.1 as int),
                if width >= 1 {
                    width as int
                } else {
                    1
                },
                if height >= 1 {
                    height as int
                } else {
                    1
                },
            ),
            final(self)@.target == old(self)@.target,
            final(self)@.radius == old(self)@.radius,
            final(self)@.fov_y == old(self)@.fov_y,
            final(self)@.aspect == old(self)@.aspect,
            final(self)@.near == old(self)@.near,
            final(self)@.far == old(self)@.far,
            prev == curr ==> final(self)@ == old(self)@,
    {
        let w = if width >= 1 {
            width
        } else {
            1
        };
        let h = if height >= 1 {
            height
        } else {
            1
        };
        let v0 = arcball_vector(prev.0, prev.1, w, h).normalized();
        let v1 = arcball_vector(curr.0, curr.1, w, h).normalized();
        proof {
            crate::vec3::lemma_cross_bound(
                v1@,
                v0@,
                UNIT_LIMIT as int,
                UNIT_LIMIT as int,
                0x100000,
            );
        }
        let axis = v1.cross(v0);
        let axis_len = axis.length();
        if axis_len == 0 {
            proof {
                if prev == curr {
                    lemma_cross_self_zero(v1@);
                }
            }
            return ;
        }
        let q = QuatFx::from_unit_vectors(v1, v0);
        let turned = q.mul(self.rotation).renormalize();
        self.rotation = turned;
        self.constrain_up();
        proof {
            if prev == curr {
                lemma_cross_self_zero(v1@);
                crate::vec3::lemma_self_dot_nonneg(v3_cross(v1@, v0@));
            }
        }
    }

    /// Pan: move the target along the view's right and up axes, scaled by
    /// the current distance so panning feels the same at any zoom.
    pub fn pan(&mut self, dx: i128, dy: i128)
        requires
            camera_wf(old(self)@),
            -PAN_DELTA_LIMIT <= dx <= PAN_DELTA_LIMIT,
            -PAN_DELTA_LIMIT <= dy <= PAN_DELTA_LIMIT,
        ensures
            camera_wf(final(self)@),
            final(self)@.rotation == old(self)@.rotation,
            final(self)@.radius == old(self)@.radius,
            final(self)@.target == pan_target(old(self)@, dx as int, dy as int),
            final(self)@.fov_y == old(self)@.fov_y,
            final(self)@.aspect == old(self)@.aspect,
            final(self)@.near == old(self)@.near,
            final(self)@.far == old(self)@.far,
    {
        let right = self.rotation.rotate(Vec3Fx::unit_x()).normalized();
        let up = self.rotation.rotate(Vec3Fx::unit_y()).normalized();
        proof {
            fx::lemma_tdiv_abs_le(self.radius as int * PAN_SCALE, fx::ONE as int);
            fx::lemma_tdiv_bound(self.radius as int * PAN_SCALE, fx::ONE as int, 0x8000000);
            crate::vec3::lemma_prod_bound2(
                self.radius as int,
                PAN_SCALE as int,
                CAMERA_MAX_RADIUS as int,
                PAN_SCALE as int,
            );
            crate::vec3::lemma_scale_bound(
                right@,
                dx as int,
                UNIT_LIMIT as int,
                PAN_DELTA_LIMIT as int,
                0x4000000000,
            );
            crate::vec3::lemma_scale_bound(
                up@,
                dy as int,
                UNIT_LIMIT as int,
                PAN_DELTA_LIMIT as int,
                0x4000000000,
            );
            crate::vec3::lemma_scale_bound(
                v3_add(v3_scale(right@, dx as int), v3_scale(up@, dy as int)),
                fxmul(old(self)@.radius, PAN_SCALE as int),
                0x8000000000,
                0x8000000,
                0x4000000000000,
            );
        }
        let scale = fx::mul_fx(self.radius, PAN_SCALE);
        let motion = right.scale(dx).add(up.scale(dy)).scale(scale);
        let moved = self.target.add(motion);
        self.target = Vec3Fx {
            x: fx::clamp(moved.x, -fx::COORD_LIMIT, fx::COORD_LIMIT),
            y: fx::clamp(moved.y, -fx::COORD_LIMIT, fx::COORD_LIMIT),
            z: fx::clamp(moved.z, -fx::COORD_LIMIT, fx::COORD_LIMIT),
        };
    }

    /// Zoom: scale the distance by a wheel factor, floored so one step can
    /// never flip through zero, then clamp the distance to its sane range.
    pub fn zoom(&mut self, delta: i128)
        requires
            camera_wf(old(self)@),
            -SCREEN_LIMIT <= delta <= SCREEN_LIMIT,
        ensures
            camera_wf(final(self)@),
            final(self)@.rotation == old(self)@.rotation,
            final(self)@.target == old(self)@.target,
            final(self)@.radius == zoom_radius(old(self)@.radius, delta as int),
            final(self)@.fov_y == old(self)@.fov_y,
            final(self)@.aspect == old(self)@.aspect,
            final(self)@.near == old(self)@.near,
            final(self)@.far == old(self)@.far,
    {
        proof {
            crate::vec3::lemma_prod_bound2(
                delta as int,
                ZOOM_SCALE as int,
                SCREEN_LIMIT as int,
                ZOOM_SCALE as int,
            );
            fx::lemma_tdiv_abs_le(delta as int * ZOOM_SCALE, fx::ONE as int);
            fx::lemma_tdiv_bound(delta as int * ZOOM_SCALE, fx::ONE as int, 0x40000000000);
        }
        let f0 = fx::ONE + fx::mul_fx(delta, ZOOM_SCALE);
        let f = if f0 < ZOOM_MIN_FACTOR {
            ZOOM_MIN_FACTOR
        } else {
            f0
        };
        proof {
            crate::vec3::lemma_prod_bound2(
                old(self)@.radius,
                f as int,
                CAMERA_MAX_RADIUS as int,
                0x40000000000 + 2 * fx::ONE,
            );
            fx::lemma_tdiv_abs_le(old(self)@.radius * f, fx::ONE as int);
        }
        let scaled = fx::mul_fx(self.radius, f);
        self.radius = fx::clamp(scaled, CAMERA_MIN_RADIUS, CAMERA_MAX_RADIUS);
    }

    /// Remove accumulated roll: rebuild the orientation's basis against
    /// world up, flipping it when up would otherwise point below the
    /// horizon.
    pub fn constrain_up(&mut self)
        requires
            camera_wf(old(self)@),
        ensures
            camera_wf(final(self)@),
            final(self)@.rotation == constrain_up_q(old(self)@.rotation),
            final(self)@.target == old(self)@.target,
            final(self)@.radius == old(self)@.radius,
            final(self)@.fov_y == old(self)@.fov_y,
            final(self)@.aspect == old(self)@.aspect,
            final(self)@.near == old(self)@.near,
            final(self)@.far == old(self)@.far,
    {
        let back = self.rotation.rotate(Vec3Fx::unit_z()).normalized();
        let world_up = Vec3Fx::unit_y();
        proof {
            crate::vec3::lemma_cross_bound(
                world_up@,
                back@,
                fx::ONE as int,
                UNIT_LIMIT as int,
                0x40000,
            );
        }
        let right0 = world_up.cross(back);
        let r0len = right0.length();
        let right = if r0len == 0 {
            self.rotation.rotate(Vec3Fx::unit_x()).normalized()
        } else {
            right0.normalized()
        };
        proof {
            crate::vec3::lemma_cross_bound(
                back@,
                right@,
                UNIT_LIMIT as int,
                UNIT_LIMIT as int,
                0x80000,
            );
        }
        let up = back.cross(right).normalized();
        let flip = up.dot(world_up) < 0;
        let right2 = if flip {
            right.neg()
        } else {
            right
        };
        let up2 = if flip {
            up.neg()
        } else {
            up
        };
        self.rotation = QuatFx::from_basis(right2, up2, back);
    }
}

/// The target after a pan.
pub open spec fn pan_target(c: CameraV, dx: int, dy: int) -> V3 {
    let right = v3_normalize(q4_rotate(c.rotation, V3 { x: fx::ONE as int, y: 0, z: 0 }));
    let up = v3_normalize(q4_rotate(c.rotation, V3 { x: 0, y: fx::ONE as int, z: 0 }));
    let moved = v3_add(
        c.target,
        v3_scale(
            v3_add(v3_scale(right, dx), v3_scale(up, dy)),
            fxmul(c.radius, PAN_SCALE as int),
        ),
    );
    clamp3(moved, fx::COORD_LIMIT as int)
}

/// Clamp each coordinate into `[-b, b]`.
pub open spec fn clamp3(v: V3, b: int) -> V3 {
    V3 {
        x: if v.x < -b { -b } else if v.x > b { b } else { v.x },
        y: if v.y < -b { -b } else if v.y > b { b } else { v.y },
        z: if v.z < -b { -b } else if v.z > b { b } else { v.z },
    }
}

/// The distance after a zoom: scaled by the floored wheel factor, clamped.
pub open spec fn zoom_radius(radius: int, delta: int) -> int {
    let f0 = fx::ONE + fxmul(delta, ZOOM_SCALE as int);
    let f = if f0 < ZOOM_MIN_FACTOR as int {
        ZOOM_MIN_FACTOR as int
    } else {
        f0
    };
    let scaled = fxmul(radius, f);
    if scaled < CAMERA_MIN_RADIUS as int {
        CAMERA_MIN_RADIUS as int
    } else if scaled > CAMERA_MAX_RADIUS as int {
        CAMERA_MAX_RADIUS as int
    } else {
        scaled
    }
}

/// The orientation that looks along `dir` with the least change of up:
/// project the current up off `dir`, falling back to the hint, then to a
/// fixed world axis, and rebuild an orthonormal basis around them.
pub open spec fn snap_rot_q(rot: Q4, dir_world: V3, up_hint: V3) -> Q4 {
    let dir = v3_normalize(dir_world);
    let cu = v3_normalize(q4_rotate(rot, V3 { x: 0, y: fx::ONE as int, z: 0 }));
    let up0 = v3_sub(cu, v3_scale(dir, v3_dot(cu, dir)));
    let up1 = if v3_norm(up0) == 0 {
        v3_sub(up_hint, v3_scale(dir, v3_dot(up_hint, dir)))
    } else {
        up0
    };
    let up2 = if v3_norm(up1) == 0 {
        let zdot = v3_dot(dir, V3 { x: 0, y: 0, z: fx::ONE as int });
        let zmag = if zdot >= 0 {
            zdot
        } else {
            -zdot
        };
        let alt = if zmag < 58982 {
            V3 { x: 0, y: 0, z: fx::ONE as int }
        } else {
            V3 { x: 0, y: fx::ONE as int, z: 0 }
        };
        v3_sub(alt, v3_scale(dir, v3_dot(alt, dir)))
    } else {
        up1
    };
    let up3 = v3_normalize(up2);
    let right0 = v3_cross(up3, dir);
    let right = if v3_norm(right0) == 0 {
        V3 { x: fx::ONE as int, y: 0, z: 0 }
    } else {
        v3_normalize(right0)
    };
    let up4 = v3_normalize(v3_cross(dir, right));
    crate::quat::q4_from_basis(right, up4, dir)
}

/// Snap the orientation so its back axis is `dir_world`, keeping up as
/// close as possible to the current up.
pub fn snap_camera_rotation(current_rot: &QuatFx, dir_world: Vec3Fx, up_hint: Vec3Fx) -> (r:
    QuatFx)
    requires
        q4_bounded(current_rot@, QUNIT_LIMIT as int),
        v3_bounded(dir_world@, 0x4000000000000000),
        v3_bounded(up_hint@, UNIT_LIMIT as int),
    ensures
        r@ == snap_rot_q(current_rot@, dir_world@, up_hint@),
        q4_bounded(r@, QUNIT_LIMIT as int),
{
    let dir = dir_world.normalized();
    let cu = current_rot.rotate(Vec3Fx::unit_y()).normalized();
    proof {
        lemma_unit_proj_bounds(cu@, dir@);
        lemma_unit_proj_bounds(up_hint@, dir@);
        lemma_unit_proj_bounds(V3 { x: 0, y: 0, z: fx::ONE as int }, dir@);
        lemma_unit_proj_bounds(V3 { x: 0, y: fx::ONE as int, z: 0 }, dir@);
    }
    let up0 = cu.sub(dir.scale(cu.dot(dir)));
    let l0 = up0.length();
    let up1 = if l0 == 0 {
        up_hint.sub(dir.scale(up_hint.dot(dir)))
    } else {
        up0
    };
    let l1 = up1.length();
    let up2 = if l1 == 0 {
        let zdot = dir.dot(Vec3Fx::unit_z());
        let zmag = if zdot >= 0 {
            zdot
        } else {
            -zdot
        };
        let alt = if zmag < 58982 {
            Vec3Fx::unit_z()
        } else {
            Vec3Fx::unit_y()
        };
        alt.sub(dir.scale(alt.dot(dir)))
    } else {
        up1
    };
    let up3 = up2.normalized();
    proof {
        crate::vec3::lemma_cross_bound(up3@, dir@, UNIT_LIMIT as int, UNIT_LIMIT as int, 0x100000);
    }
    let right0 = up3.cross(dir);
    let lr = right0.length();
    let right = if lr == 0 {
        Vec3Fx::unit_x()
    } else {
        right0.normalized()
    };
    proof {
        crate::vec3::lemma_cross_bound(dir@, right@, UNIT_LIMIT as int, UNIT_LIMIT as int, 0x100000);
    }
    let up4 = dir.cross(right).normalized();
    QuatFx::from_basis(right, up4, dir)
}

/// Projecting one near-unit vector off another stays within small bounds.
proof fn lemma_unit_proj_bounds(a: V3, dir: V3)
    requires
        v3_bounded(a, UNIT_LIMIT as int),
        v3_bounded(dir, UNIT_LIMIT as int),
    ensures
        -0x100000 <= v3_dot(a, dir) <= 0x100000,
        v3_bounded(v3_scale(dir, v3_dot(a, dir)), 0x80000000),
        v3_bounded(v3_sub(a, v3_scale(dir, v3_dot(a, dir))), 0x100000000),
{
    crate::vec3::lemma_dot_bound(a, dir, UNIT_LIMIT as int, UNIT_LIMIT as int, 0x100000);
    crate::vec3::lemma_scale_bound(dir, v3_dot(a, dir), UNIT_LIMIT as int, 0x100000, 0x80000000);
}

/// The snap animation's endpoints: the pose it leaves and the pose it lands
/// on.
#[derive(Clone, Copy, PartialEq, Eq, Structural, Debug)]
pub struct CameraSnap {
    pub start_target: Vec3Fx,
    pub end_target: Vec3Fx,
    pub start_rot: QuatFx,
    pub end_rot: QuatFx,
    pub start_radius: i128,
    pub end_radius: i128,
}

/// A well-formed snap: both endpoint poses are well formed.
pub open spec fn snap_wf(s: CameraSnap) -> bool {
    &&& v3_bounded(s.start_target@, fx::COORD_LIMIT as int)
    &&& v3_bounded(s.end_target@, fx::COORD_LIMIT as int)
    &&& q4_bounded(s.start_rot@, QUNIT_LIMIT as int)
    &&& q4_bounded(s.end_rot@, QUNIT_LIMIT as int)
    &&& CAMERA_MIN_RADIUS as int <= s.start_radius <= CAMERA_MAX_RADIUS as int
    &&& CAMERA_MIN_RADIUS as int <= s.end_radius <= CAMERA_MAX_RADIUS as int
}

/// Ease-in-ease-out: a cubic ramp up to the halfway point, its mirror after,
/// exactly 0 at 0 and `ONE` at `ONE`.
pub open spec fn ease_in_out(t: int) -> int {
    if t < 32768 {
        tdiv(4 * t * t * t, (fx::ONE as int) * (fx::ONE as int))
    } else {
        let u = fx::ONE as int - t;
        fx::ONE as int - tdiv(4 * u * u * u, (fx::ONE as int) * (fx::ONE as int))
    }
}

/// The eased fraction of a snap at frame position `t`.
pub fn ease_fraction(t: i128) -> (r: i128)
    requires
        0 <= t <= fx::ONE,
    ensures
        r == ease_in_out(t as int),
        0 <= r <= fx::ONE,
        t == 0 ==> r == 0,
        t == fx::ONE ==> r == fx::ONE,
{
    if t < 32768 {
        proof {
            assert(0 <= 4 * (t as int) <= 0x20000 && 0 <= 4 * (t as int) * t
                <= 0x20000 * 0x8000 && 0 <= 4 * (t as int) * t * t <= 32768 * (fx::ONE as int)
                * fx::ONE) by (nonlinear_arith)
                requires
                    0 <= t < 32768,
            ;
            fx::lemma_tdiv_bound(
                4 * (t as int) * t * t,
                (fx::ONE as int) * fx::ONE,
                32768,
            );
        }
        fx::div_trunc(4 * t * t * t, fx::ONE * fx::ONE)
    } else {
        let u = fx::ONE - t;
        proof {
            assert(0 <= 4 * (u as int) <= 0x20000 && 0 <= 4 * (u as int) * u
                <= 0x20000 * 0x8000 && 0 <= 4 * (u as int) * u * u <= 32768 * (fx::ONE as int)
                * fx::ONE) by (nonlinear_arith)
                requires
                    0 <= u <= 32768,
            ;
            fx::lemma_tdiv_bound(
                4 * (u as int) * u * u,
                (fx::ONE as int) * fx::ONE,
                32768,
            );
            fx::lemma_tdiv_abs_le(4 * (u as int) * u * u, (fx::ONE as int) * fx::ONE);
        }
        fx::ONE - fx::div_trunc(4 * u * u * u, fx::ONE * fx::ONE)
    }
}

/// One component interpolated by the eased fraction.
pub open spec fn lerp1(a: int, b: int, e: int) -> int {
    a + fxmul(b - a, e)
}

/// A point interpolated by the eased fraction, clamped into the scene
/// bounds.
pub open spec fn lerp_target(a: V3, b: V3, e: int) -> V3 {
    clamp3(
        V3 { x: lerp1(a.x, b.x, e), y: lerp1(a.y, b.y, e), z: lerp1(a.z, b.z, e) },
        fx::COORD_LIMIT as int,
    )
}

/// Near-parallel orientations blend componentwise instead of spherically.
pub const SLERP_DOT_THRESHOLD: i128 = 65503;

/// The orientation interpolated spherically by the eased fraction, along the
/// shorter arc, renormalized: the endpoints are weighted by the sines of the
/// split angle. Orientations closer than `SLERP_DOT_THRESHOLD`, where the
/// angle rounds away, blend componentwise.
pub open spec fn slerp_rotation(a: Q4, b: Q4, e: int) -> Q4 {
    let bn = if crate::quat::q4_dot(a, b) < 0 {
        Q4 { x: -b.x, y: -b.y, z: -b.z, w: -b.w }
    } else {
        b
    };
    let d = crate::quat::q4_dot(a, bn);
    if d > SLERP_DOT_THRESHOLD || fx::ONE - fxmul(d, d) <= 0 {
        q4_renormalize(
            Q4 {
                x: lerp1(a.x, bn.x, e),
                y: lerp1(a.y, bn.y, e),
                z: lerp1(a.z, bn.z, e),
                w: lerp1(a.w, bn.w, e),
            },
        )
    } else {
        let sin_full = fx::sqrtfx(fx::ONE as int - fxmul(d, d));
        let theta = crate::trig::atan2_units(sin_full, d);
        let w1 = fxdiv(crate::trig::sin_units(fxmul(fx::ONE as int - e, theta)), sin_full);
        let w2 = fxdiv(crate::trig::sin_units(fxmul(e, theta)), sin_full);
        q4_renormalize(
            Q4 {
                x: fxmul(a.x, w1) + fxmul(bn.x, w2),
                y: fxmul(a.y, w1) + fxmul(bn.y, w2),
                z: fxmul(a.z, w1) + fxmul(bn.z, w2),
                w: fxmul(a.w, w1) + fxmul(bn.w, w2),
            },
        )
    }
}

impl Camera {
    /// Drive one frame of a view snap: interpolate target, orientation and
    /// distance between the snap's endpoints at frame position `t` in
    /// `[0, ONE]`, with the ease-in-ease-out curve.
    pub fn apply_snap(&mut self, snap: &CameraSnap, t: i128)
        requires
            camera_wf(old(self)@),
            snap_wf(*snap),
            0 <= t <= fx::ONE,
        ensures
            camera_wf(final(self)@),
            final(self)@.target == lerp_target(
                snap.start_target@,
                snap.end_target@,
                ease_in_out(t as int),
            ),
            final(self)@.rotation == slerp_rotation(
                snap.start_rot@,
                snap.end_rot@,
                ease_in_out(t as int),
            ),
            final(self)@.radius == {
                let rr = lerp1(snap.start_radius as int, snap.end_radius as int, ease_in_out(t as int));
                if rr < CAMERA_MIN_RADIUS as int {
                    CAMERA_MIN_RADIUS as int
                } else if rr > CAMERA_MAX_RADIUS as int {
                    CAMERA_MAX_RADIUS as int
                } else {
                    rr
                }
            },
            final(self)@.fov_y == old(self)@.fov_y,
            final(self)@.aspect == old(self)@.aspect,
            final(self)@.near == old(self)@.near,
            final(self)@.far == old(self)@.far,
    {
        let e = ease_fraction(t);
        proof {
            lemma_lerp1_bounds(
                snap.start_target@.x,
                snap.end_target@.x,
                e as int,
                fx::COORD_LIMIT as int,
            );
            lemma_lerp1_bounds(
                snap.start_target@.y,
                snap.end_target@.y,
                e as int,
                fx::COORD_LIMIT as int,
            );
            lemma_lerp1_bounds(
                snap.start_target@.z,
                snap.end_target@.z,
                e as int,
                fx::COORD_LIMIT as int,
            );
            lemma_lerp1_bounds(
                snap.start_radius as int,
                snap.end_radius as int,
                e as int,
                CAMERA_MAX_RADIUS as int,
            );
        }
        let tx = lerp_comp(snap.start_target.x, snap.end_target.x, e);
        let ty = lerp_comp(snap.start_target.y, snap.end_target.y, e);
        let tz = lerp_comp(snap.start_target.z, snap.end_target.z, e);
        self.target = Vec3Fx {
            x: fx::clamp(tx, -fx::COORD_LIMIT, fx::COORD_LIMIT),
            y: fx::clamp(ty, -fx::COORD_LIMIT, fx::COORD_LIMIT),
            z: fx::clamp(tz, -fx::COORD_LIMIT, fx::COORD_LIMIT),
        };
        self.rotation = slerp_quats(&snap.start_rot, &snap.end_rot, e);
        let rr = lerp_comp(snap.start_radius, snap.end_radius, e);
        self.radius = fx::clamp(rr, CAMERA_MIN_RADIUS, CAMERA_MAX_RADIUS);
    }
}

/// One interpolated component.
fn lerp_comp(a: i128, b: i128, e: i128) -> (r: i128)
    requires
        -0x2000000000000000 <= a <= 0x2000000000000000,
        -0x2000000000000000 <= b <= 0x2000000000000000,
        0 <= e <= fx::ONE,
    ensures
        r == lerp1(a as int, b as int, e as int),
{
    proof {
        crate::vec3::lemma_prod_bound2(
            (b - a) as int,
            e as int,
            0x4000000000000000,
            fx::ONE as int,
        );
        fx::lemma_tdiv_bound(
            (b as int - a) * e,
            fx::ONE as int,
            0x4000000000000000,
        );
    }
    a + fx::mul_fx(b - a, e)
}

/// An interpolation between two bounded values stays within reach of the
/// bound.
proof fn lemma_lerp1_bounds(a: int, b: int, e: int, c: int)
    requires
        -c <= a <= c,
        -c <= b <= c,
        0 <= e <= fx::ONE,
        c >= 0,
    ensures
        -(3 * c) <= lerp1(a, b, e) <= 3 * c,
{
    assert(-(2 * c) * (fx::ONE as int) <= (b - a) * e <= 2 * c * (fx::ONE as int))
        by (nonlinear_arith)
        requires
            -c <= a <= c,
            -c <= b <= c,
            0 <= e <= fx::ONE,
            c >= 0,
            fx::ONE == 65536i128,
    ;
    fx::lemma_tdiv_bound((b - a) * e, fx::ONE as int, 2 * c);
}

/// Spherically interpolate two near-unit orientations by fraction `e`.
fn slerp_quats(a: &QuatFx, b: &QuatFx, e: i128) -> (r: QuatFx)
    requires
        q4_bounded(a@, QUNIT_LIMIT as int),
        q4_bounded(b@, QUNIT_LIMIT as int),
        0 <= e <= fx::ONE,
    ensures
        r@ == slerp_rotation(a@, b@, e as int),
        q4_bounded(r@, QUNIT_LIMIT as int),
{
    proof {
        crate::quat::lemma_q4_dot_bounds(a@, b@);
    }
    let qd = quat_dot(a, b);
    let bn = if qd < 0 {
        QuatFx { x: -b.x, y: -b.y, z: -b.z, w: -b.w }
    } else {
        *b
    };
    proof {
        crate::quat::lemma_q4_dot_bounds(a@, bn@);
        crate::vec3::lemma_prod_bound(qd as int, qd as int, 0x400000);
        fx::lemma_tdiv_abs_le(qd as int * qd, fx::ONE as int);
    }
    let d = quat_dot(a, &bn);
    proof {
        crate::vec3::lemma_prod_bound(d as int, d as int, 0x400000);
        assert(d as int * d >= 0) by (nonlinear_arith);
        fx::lemma_tdiv_abs_le(d as int * d, fx::ONE as int);
        fx::lemma_tdiv_bound(d as int * d, fx::ONE as int, 0x10000000);
    }
    let arch = fx::ONE - fx::mul_fx(d, d);
    if d > SLERP_DOT_THRESHOLD || arch <= 0 {
        proof {
            lemma_lerp1_bounds(a@.x, bn@.x, e as int, QUNIT_LIMIT as int);
            lemma_lerp1_bounds(a@.y, bn@.y, e as int, QUNIT_LIMIT as int);
            lemma_lerp1_bounds(a@.z, bn@.z, e as int, QUNIT_LIMIT as int);
            lemma_lerp1_bounds(a@.w, bn@.w, e as int, QUNIT_LIMIT as int);
        }
        let blended = QuatFx {
            x: lerp_comp(a.x, bn.x, e),
            y: lerp_comp(a.y, bn.y, e),
            z: lerp_comp(a.z, bn.z, e),
            w: lerp_comp(a.w, bn.w, e),
        };
        return blended.renormalize();
    }
    let sin_full = fx::sqrt_fx(arch);
    proof {
        fx::lemma_sqrt_floor_bounds(arch as int * fx::ONE);
        assert(sin_full >= 1) by (nonlinear_arith)
            requires
                sin_full >= 0,
                (sin_full as int + 1) * (sin_full as int + 1) > arch as int * fx::ONE,
                arch >= 1,
                fx::ONE == 65536i128,
        ;
        assert(sin_full <= 0x100000) by (nonlinear_arith)
            requires
                sin_full >= 0,
                (sin_full as int) * (sin_full as int) <= arch as int * fx::ONE,
                arch <= 65536,
                fx::ONE == 65536i128,
        ;
    }
    let theta = crate::trig::atan2_fx(sin_full, d);
    proof {
        crate::vec3::lemma_prod_bound2(
            (fx::ONE - e) as int,
            theta as int,
            fx::ONE as int,
            crate::trig::HALF_TURN as int,
        );
        fx::lemma_tdiv_abs_le((fx::ONE - e) as int * theta, fx::ONE as int);
        crate::vec3::lemma_prod_bound2(
            e as int,
            theta as int,
            fx::ONE as int,
            crate::trig::HALF_TURN as int,
        );
        fx::lemma_tdiv_abs_le(e as int * theta, fx::ONE as int);
    }
    let s1 = crate::trig::sin_fx(fx::mul_fx(fx::ONE - e, theta));
    let s2 = crate::trig::sin_fx(fx::mul_fx(e, theta));
    proof {
        fx::lemma_tdiv_bound(s1 as int * fx::ONE, sin_full as int, 0x100000000);
        assert(-(0x100000000 * (sin_full as int)) <= s1 as int * fx::ONE <= 0x100000000 * (
        sin_full as int) && -(0x100000000 * (sin_full as int)) <= s2 as int * fx::ONE
            <= 0x100000000 * (sin_full as int)) by (nonlinear_arith)
            requires
                sin_full >= 1,
                -65536 <= s1 <= 65536,
                -65536 <= s2 <= 65536,
        ;
        fx::lemma_tdiv_bound(s2 as int * fx::ONE, sin_full as int, 0x100000000);
    }
    let w1 = fx::div_fx(s1, sin_full);
    let w2 = fx::div_fx(s2, sin_full);
    proof {
        lemma_slerp_mix_bounds(a@, bn@, w1 as int, w2 as int);
    }
    let mixed = QuatFx {
        x: fx::mul_fx(a.x, w1) + fx::mul_fx(bn.x, w2),
        y: fx::mul_fx(a.y, w1) + fx::mul_fx(bn.y, w2),
        z: fx::mul_fx(a.z, w1) + fx::mul_fx(bn.z, w2),
        w: fx::mul_fx(a.w, w1) + fx::mul_fx(bn.w, w2),
    };
    mixed.renormalize()
}

/// The sine-weighted mix of two near-unit orientations stays within the
/// renormalizer's working range.
proof fn lemma_slerp_mix_bounds(a: Q4, bn: Q4, w1: int, w2: int)
    requires
        q4_bounded(a, QUNIT_LIMIT as int),
        q4_bounded(bn, QUNIT_LIMIT as int),
        -0x100000000 <= w1 <= 0x100000000,
        -0x100000000 <= w2 <= 0x100000000,
    ensures
        -0x2000000000 <= fxmul(a.x, w1) <= 0x2000000000,
        -0x2000000000 <= fxmul(a.y, w1) <= 0x2000000000,
        -0x2000000000 <= fxmul(a.z, w1) <= 0x2000000000,
        -0x2000000000 <= fxmul(a.w, w1) <= 0x2000000000,
        -0x2000000000 <= fxmul(bn.x, w2) <= 0x2000000000,
        -0x2000000000 <= fxmul(bn.y, w2) <= 0x2000000000,
        -0x2000000000 <= fxmul(bn.z, w2) <= 0x2000000000,
        -0x2000000000 <= fxmul(bn.w, w2) <= 0x2000000000,
{
    crate::vec3::lemma_prod_bound2(a.x, w1, QUNIT_LIMIT as int, 0x100000000);
    crate::vec3::lemma_prod_bound2(a.y, w1, QUNIT_LIMIT as int, 0x100000000);
    crate::vec3::lemma_prod_bound2(a.z, w1, QUNIT_LIMIT as int, 0x100000000);
    crate::vec3::lemma_prod_bound2(a.w, w1, QUNIT_LIMIT as int, 0x100000000);
    crate::vec3::lemma_prod_bound2(bn.x, w2, QUNIT_LIMIT as int, 0x100000000);
    crate::vec3::lemma_prod_bound2(bn.y, w2, QUNIT_LIMIT as int, 0x100000000);
    crate::vec3::lemma_prod_bound2(bn.z, w2, QUNIT_LIMIT as int, 0x100000000);
    crate::vec3::lemma_prod_bound2(bn.w, w2, QUNIT_LIMIT as int, 0x100000000);
    fx::lemma_tdiv_bound(a.x * w1, fx::ONE as int, 0x2000000000);
    fx::lemma_tdiv_bound(a.y * w1, fx::ONE as int, 0x2000000000);
    fx::lemma_tdiv_bound(a.z * w1, fx::ONE as int, 0x2000000000);
    fx::lemma_tdiv_bound(a.w * w1, fx::ONE as int, 0x2000000000);
    fx::lemma_tdiv_bound(bn.x * w2, fx::ONE as int, 0x2000000000);
    fx::lemma_tdiv_bound(bn.y * w2, fx::ONE as int, 0x2000000000);
    fx::lemma_tdiv_bound(bn.z * w2, fx::ONE as int, 0x2000000000);
    fx::lemma_tdiv_bound(bn.w * w2, fx::ONE as int, 0x2000000000);
}

/// Dot product of two quaternions, in raw units.
fn quat_dot(a: &QuatFx, b: &QuatFx) -> (r: i128)
    requires
        q4_bounded(a@, QUNIT_LIMIT as int),
        q4_bounded(b@, QUNIT_LIMIT as int),
    ensures
        r == crate::quat::q4_dot(a@, b@),
{
    proof {
        crate::vec3::lemma_prod_bound(a@.x, b@.x, QUNIT_LIMIT as int);
        crate::vec3::lemma_prod_bound(a@.y, b@.y, QUNIT_LIMIT as int);
        crate::vec3::lemma_prod_bound(a@.z, b@.z, QUNIT_LIMIT as int);
        crate::vec3::lemma_prod_bound(a@.w, b@.w, QUNIT_LIMIT as int);
    }
    fx::div_trunc(a.x * b.x + a.y * b.y + a.z * b.z + a.w * b.w, fx::ONE)
}

/// The cross product of a vector with itself is exactly zero, so a
/// zero-length orbit drag is exactly ignored.
pub proof fn lemma_cross_self_zero(v: V3)
    ensures
        v3_cross(v, v) == crate::vec3::v3_zero(),
        v3_norm(crate::vec3::v3_zero()) == 0,
{
    let z = v3_cross(v, v);
    fx::lemma_tdiv_abs_le(v.y * v.z - v.z * v.y, fx::ONE as int);
    fx::lemma_tdiv_abs_le(v.z * v.x - v.x * v.z, fx::ONE as int);
    fx::lemma_tdiv_abs_le(v.x * v.y - v.y * v.x, fx::ONE as int);
    assert(z.x == 0 && z.y == 0 && z.z == 0);
    fx::lemma_tdiv_abs_le(0, fx::ONE as int);
    fx::lemma_sqrt_floor_bounds(0);
    assert(crate::vec3::v3_dot(crate::vec3::v3_zero(), crate::vec3::v3_zero()) == tdiv(
        0,
        fx::ONE as int,
    ));
    assert(sqrt_floor(0) == 0);
}

} // verus!
