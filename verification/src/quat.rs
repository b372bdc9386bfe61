//! Fixed-point quaternions.
//!
//! A rotation is a near-unit quaternion in raw units (`ONE` is 1). Every
//! constructor renormalizes, and a quaternion whose length rounds to zero
//! falls back to the identity instead of spreading a meaningless value.

use crate::fx;
use crate::fx::{fxdiv, fxmul, sqrt_floor, tdiv};
use crate::trig;
use crate::vec3::{
    v3_add, v3_bounded, v3_cross, v3_dot, v3_scale, V3, Vec3Fx, UNIT_LIMIT,
};
use vstd::prelude::*;

verus! {

/// Mathematical view of a quaternion, `x*i + y*j + z*k + w`.
pub ghost struct Q4 {
    pub x: int,
    pub y: int,
    pub z: int,
    pub w: int,
}

/// A rotation as a fixed-point quaternion.
#[derive(Clone, Copy, PartialEq, Eq, Structural, Debug)]
pub struct QuatFx {
    pub x: i128,
    pub y: i128,
    pub z: i128,
    pub w: i128,
}

impl View for QuatFx {
    type V = Q4;

    open spec fn view(&self) -> Q4 {
        Q4 { x: self.x as int, y: self.y as int, z: self.z as int, w: self.w as int }
    }
}

/// Every component of `q` lies in `[-b, b]`.
pub open spec fn q4_bounded(q: Q4, b: int) -> bool {
    -b <= q.x <= b && -b <= q.y <= b && -b <= q.z <= b && -b <= q.w <= b
}

pub open spec fn q4_identity() -> Q4 {
    Q4 { x: 0, y: 0, z: 0, w: fx::ONE as int }
}

/// The vector part of `q`.
pub open spec fn q4_vec(q: Q4) -> V3 {
    V3 { x: q.x, y: q.y, z: q.z }
}

/// Dot product of two quaternions, in raw units.
pub open spec fn q4_dot(a: Q4, b: Q4) -> int {
    tdiv(a.x * b.x + a.y * b.y + a.z * b.z + a.w * b.w, fx::ONE as int)
}

/// The dot product of two near-unit quaternions is small.
pub proof fn lemma_q4_dot_bounds(a: Q4, b: Q4)
    requires
        q4_bounded(a, QUNIT_LIMIT as int),
        q4_bounded(b, QUNIT_LIMIT as int),
    ensures
        -0x400000 <= q4_dot(a, b) <= 0x400000,
{
    crate::vec3::lemma_prod_bound(a.x, b.x, QUNIT_LIMIT as int);
    crate::vec3::lemma_prod_bound(a.y, b.y, QUNIT_LIMIT as int);
    crate::vec3::lemma_prod_bound(a.z, b.z, QUNIT_LIMIT as int);
    crate::vec3::lemma_prod_bound(a.w, b.w, QUNIT_LIMIT as int);
    fx::lemma_tdiv_bound(a.x * b.x + a.y * b.y + a.z * b.z + a.w * b.w, fx::ONE as int, 0x400000);
}

/// Squared length of `q`, in raw units.
pub open spec fn q4_norm_sq(q: Q4) -> int {
    tdiv(q.x * q.x + q.y * q.y + q.z * q.z + q.w * q.w, fx::ONE as int)
}

/// Length of `q`, in raw units.
pub open spec fn q4_norm(q: Q4) -> int {
    sqrt_floor(q4_norm_sq(q) * (fx::ONE as int))
}

/// `q` scaled to length `ONE`, or the identity when its length rounds to
/// zero.
pub open spec fn q4_renormalize(q: Q4) -> Q4 {
    let n = q4_norm(q);
    if n == 0 {
        q4_identity()
    } else {
        Q4 { x: fxdiv(q.x, n), y: fxdiv(q.y, n), z: fxdiv(q.z, n), w: fxdiv(q.w, n) }
    }
}

/// Hamilton product, one rounding per component.
pub open spec fn q4_mul(a: Q4, b: Q4) -> Q4 {
    let one = fx::ONE as int;
    Q4 {
        x: tdiv(a.w * b.x + a.x * b.w + a.y * b.z - a.z * b.y, one),
        y: tdiv(a.w * b.y - a.x * b.z + a.y * b.w + a.z * b.x, one),
        z: tdiv(a.w * b.z + a.x * b.y - a.y * b.x + a.z * b.w, one),
        w: tdiv(a.w * b.w - a.x * b.x - a.y * b.y - a.z * b.z, one),
    }
}

/// Rotation of `v` by `q`: `v + 2w (qv x v) + 2 qv x (qv x v)`.
pub open spec fn q4_rotate(q: Q4, v: V3) -> V3 {
    let c1 = v3_cross(q4_vec(q), v);
    let c2 = v3_cross(q4_vec(q), c1);
    v3_add(v3_add(v, v3_scale(c1, 2 * q.w)), v3_add(c2, c2))
}

/// Quaternion turning by `ang` turn units about a unit axis: the vector part
/// is the axis scaled by the sine of the half angle, the scalar part the
/// cosine.
pub open spec fn q4_from_axis_angle(axis: V3, ang: int) -> Q4 {
    let half = tdiv(ang, 2);
    let s = trig::sin_units(half);
    Q4 {
        x: fxmul(axis.x, s),
        y: fxmul(axis.y, s),
        z: fxmul(axis.z, s),
        w: trig::cos_units(half),
    }
}

/// Shortest rotation taking unit vector `a` to unit vector `b`: the
/// renormalized quaternion with vector part `a x b` and scalar part
/// `ONE + a . b`.
pub open spec fn q4_from_unit_vectors(a: V3, b: V3) -> Q4 {
    let c = v3_cross(a, b);
    q4_renormalize(Q4 { x: c.x, y: c.y, z: c.z, w: fx::ONE as int + v3_dot(a, b) })
}

/// Quaternion of the rotation sending the world axes onto the given
/// orthonormal basis, chosen by the numerically largest component, then
/// renormalized.
pub open spec fn q4_from_basis(r: V3, u: V3, b: V3) -> Q4 {
    let one = fx::ONE as int;
    let raw = if b.z <= 0 {
        let dif10 = u.y - r.x;
        let omm22 = one - b.z;
        if dif10 <= 0 {
            let four_xsq = omm22 - dif10;
            let inv = fxdiv(one / 2, fx::sqrtfx(four_xsq));
            Q4 {
                x: fxmul(four_xsq, inv),
                y: fxmul(r.y + u.x, inv),
                z: fxmul(r.z + b.x, inv),
                w: fxmul(u.z - b.y, inv),
            }
        } else {
            let four_ysq = omm22 + dif10;
            let inv = fxdiv(one / 2, fx::sqrtfx(four_ysq));
            Q4 {
                x: fxmul(r.y + u.x, inv),
                y: fxmul(four_ysq, inv),
                z: fxmul(u.z + b.y, inv),
                w: fxmul(b.x - r.z, inv),
            }
        }
    } else {
        let sum10 = u.y + r.x;
        let opm22 = one + b.z;
        if sum10 <= 0 {
            let four_zsq = opm22 - sum10;
            let inv = fxdiv(one / 2, fx::sqrtfx(four_zsq));
            Q4 {
                x: fxmul(r.z + b.x, inv),
                y: fxmul(u.z + b.y, inv),
                z: fxmul(four_zsq, inv),
                w: fxmul(r.y - u.x, inv),
            }
        } else {
            let four_wsq = opm22 + sum10;
            let inv = fxdiv(one / 2, fx::sqrtfx(four_wsq));
            Q4 {
                x: fxmul(u.z - b.y, inv),
                y: fxmul(b.x - r.z, inv),
                z: fxmul(r.y - u.x, inv),
                w: fxmul(four_wsq, inv),
            }
        }
    };
    q4_renormalize(raw)
}

/// Bound on the components of any renormalized quaternion: two world units.
pub const QUNIT_LIMIT: i128 = 131072;

/// Headroom for the vector argument of a rotation.
pub const ROTATE_IN_LIMIT: i128 = 0x100000000000000;

impl QuatFx {
    pub fn identity() -> (r: QuatFx)
        ensures
            r@ == q4_identity(),
            q4_bounded(r@, QUNIT_LIMIT as int),
    {
        QuatFx { x: 0, y: 0, z: 0, w: fx::ONE }
    }

    pub fn new(x: i128, y: i128, z: i128, w: i128) -> (r: QuatFx)
        ensures
            r@ == (Q4 { x: x as int, y: y as int, z: z as int, w: w as int }),
    {
        QuatFx { x, y, z, w }
    }

    /// Length never comes out negative.
    pub fn norm(self) -> (r: i128)
        requires
            q4_bounded(self@, 0x4000000000000000),
        ensures
            r == q4_norm(self@),
            r >= 0,
    {
        proof {
            crate::vec3::lemma_prod_bound(self.x as int, self.x as int, 0x4000000000000000);
            crate::vec3::lemma_prod_bound(self.y as int, self.y as int, 0x4000000000000000);
            crate::vec3::lemma_prod_bound(self.z as int, self.z as int, 0x4000000000000000);
            crate::vec3::lemma_prod_bound(self.w as int, self.w as int, 0x4000000000000000);
        }
        let s = self.x * self.x + self.y * self.y + self.z * self.z + self.w * self.w;
        proof {
            lemma_q4_sq_bounds(self@, 0x4000000000000000);
            fx::lemma_tdiv_abs_le(
                self.x as int * self.x + self.y as int * self.y + self.z as int * self.z
                    + self.w as int * self.w,
                fx::ONE as int,
            );
        }
        let d = fx::div_trunc(s, fx::ONE);
        fx::isqrt(d * fx::ONE)
    }

    /// Scale back to length `ONE`, or fall back to the identity when the
    /// length rounds to zero.
    pub fn renormalize(self) -> (r: QuatFx)
        requires
            q4_bounded(self@, 0x4000000000000000),
        ensures
            r@ == q4_renormalize(self@),
            q4_bounded(r@, QUNIT_LIMIT as int),
    {
        let n = self.norm();
        if n == 0 {
            QuatFx::identity()
        } else {
            proof {
                lemma_renormalize_bounded(self@, n as int);
            }
            QuatFx {
                x: fx::div_fx(self.x, n),
                y: fx::div_fx(self.y, n),
                z: fx::div_fx(self.z, n),
                w: fx::div_fx(self.w, n),
            }
        }
    }

    /// Hamilton product.
    pub fn mul(self, o: QuatFx) -> (r: QuatFx)
        requires
            q4_bounded(self@, QUNIT_LIMIT as int),
            q4_bounded(o@, QUNIT_LIMIT as int),
        ensures
            r@ == q4_mul(self@, o@),
            q4_bounded(r@, 0x100000000000),
    {
        proof {
            lemma_q4_mul_bounds(self@, o@);
            lemma_q4_prod_pairs(self@, o@);
        }
        QuatFx {
            x: fx::div_trunc(
                self.w * o.x + self.x * o.w + self.y * o.z - self.z * o.y,
                fx::ONE,
            ),
            y: fx::div_trunc(
                self.w * o.y - self.x * o.z + self.y * o.w + self.z * o.x,
                fx::ONE,
            ),
            z: fx::div_trunc(
                self.w * o.z + self.x * o.y - self.y * o.x + self.z * o.w,
                fx::ONE,
            ),
            w: fx::div_trunc(
                self.w * o.w - self.x * o.x - self.y * o.y - self.z * o.z,
                fx::ONE,
            ),
        }
    }

    /// Rotate a vector.
    pub fn rotate(self, v: Vec3Fx) -> (r: Vec3Fx)
        requires
            q4_bounded(self@, QUNIT_LIMIT as int),
            v3_bounded(v@, ROTATE_IN_LIMIT as int),
        ensures
            r@ == q4_rotate(self@, v@),
            v3_bounded(r@, 0x4000000000000000),
    {
        let qv = Vec3Fx { x: self.x, y: self.y, z: self.z };
        proof {
            crate::vec3::lemma_cross_bound(
                qv@,
                v@,
                QUNIT_LIMIT as int,
                ROTATE_IN_LIMIT as int,
                0x400000000000000,
            );
        }
        let c1 = qv.cross(v);
        proof {
            crate::vec3::lemma_cross_bound(
                qv@,
                c1@,
                QUNIT_LIMIT as int,
                0x400000000000000,
                0x1000000000000000,
            );
            crate::vec3::lemma_scale_bound(
                c1@,
                2 * self.w as int,
                0x400000000000000,
                2 * QUNIT_LIMIT as int,
                0x1000000000000000,
            );
        }
        let c2 = qv.cross(c1);
        let swung = c1.scale(2 * self.w);
        v.add(swung).add(c2.add(c2))
    }

    /// Quaternion turning by `ang` turn units about a unit axis.
    pub fn from_axis_angle(axis: Vec3Fx, ang: i128) -> (r: QuatFx)
        requires
            v3_bounded(axis@, UNIT_LIMIT as int),
            -0x40000000000000000000000000000000 < ang < 0x40000000000000000000000000000000,
        ensures
            r@ == q4_from_axis_angle(axis@, ang as int),
            q4_bounded(r@, QUNIT_LIMIT as int),
    {
        let half = fx::div_trunc(ang, 2);
        let s = trig::sin_fx(half);
        let c = trig::cos_fx(half);
        proof {
            assert(-(QUNIT_LIMIT as int * fx::ONE) <= axis@.x * s && axis@.x * s
                <= QUNIT_LIMIT as int * fx::ONE && -(QUNIT_LIMIT as int * fx::ONE) <= axis@.y * s
                && axis@.y * s <= QUNIT_LIMIT as int * fx::ONE && -(QUNIT_LIMIT as int * fx::ONE)
                <= axis@.z * s && axis@.z * s <= QUNIT_LIMIT as int * fx::ONE)
                by (nonlinear_arith)
                requires
                    v3_bounded(axis@, UNIT_LIMIT as int),
                    -fx::ONE <= s <= fx::ONE,
                    UNIT_LIMIT == 131072i128,
                    QUNIT_LIMIT == 131072i128,
                    fx::ONE == 65536i128,
            ;
            fx::lemma_tdiv_bound(axis@.x * s, fx::ONE as int, QUNIT_LIMIT as int);
            fx::lemma_tdiv_bound(axis@.y * s, fx::ONE as int, QUNIT_LIMIT as int);
            fx::lemma_tdiv_bound(axis@.z * s, fx::ONE as int, QUNIT_LIMIT as int);
        }
        QuatFx {
            x: fx::mul_fx(axis.x, s),
            y: fx::mul_fx(axis.y, s),
            z: fx::mul_fx(axis.z, s),
            w: c,
        }
    }

    /// Quaternion of the rotation sending the world axes onto the
    /// orthonormal basis `(right, up, back)`.
    pub fn from_basis(right: Vec3Fx, up: Vec3Fx, back: Vec3Fx) -> (r: QuatFx)
        requires
            v3_bounded(right@, UNIT_LIMIT as int),
            v3_bounded(up@, UNIT_LIMIT as int),
            v3_bounded(back@, UNIT_LIMIT as int),
        ensures
            r@ == q4_from_basis(right@, up@, back@),
            q4_bounded(r@, QUNIT_LIMIT as int),
    {
        let raw: QuatFx;
        if back.z <= 0 {
            let dif10 = up.y - right.x;
            let omm22 = fx::ONE - back.z;
            if dif10 <= 0 {
                let four_xsq = omm22 - dif10;
                let inv = half_inv_root(four_xsq);
                raw = scaled_quat(
                    four_xsq,
                    right.y + up.x,
                    right.z + back.x,
                    up.z - back.y,
                    inv,
                );
            } else {
                let four_ysq = omm22 + dif10;
                let inv = half_inv_root(four_ysq);
                raw = scaled_quat(
                    right.y + up.x,
                    four_ysq,
                    up.z + back.y,
                    back.x - right.z,
                    inv,
                );
            }
        } else {
            let sum10 = up.y + right.x;
            let opm22 = fx::ONE + back.z;
            if sum10 <= 0 {
                let four_zsq = opm22 - sum10;
                let inv = half_inv_root(four_zsq);
                raw = scaled_quat(
                    right.z + back.x,
                    up.z + back.y,
                    four_zsq,
                    right.y - up.x,
                    inv,
                );
            } else {
                let four_wsq = opm22 + sum10;
                let inv = half_inv_root(four_wsq);
                raw = scaled_quat(
                    up.z - back.y,
                    back.x - right.z,
                    right.y - up.x,
                    four_wsq,
                    inv,
                );
            }
        }
        raw.renormalize()
    }

    /// Shortest rotation taking unit vector `a` to unit vector `b`.
    pub fn from_unit_vectors(a: Vec3Fx, b: Vec3Fx) -> (r: QuatFx)
        requires
            v3_bounded(a@, UNIT_LIMIT as int),
            v3_bounded(b@, UNIT_LIMIT as int),
        ensures
            r@ == q4_from_unit_vectors(a@, b@),
            q4_bounded(r@, QUNIT_LIMIT as int),
    {
        proof {
            crate::vec3::lemma_cross_bound(
                a@,
                b@,
                UNIT_LIMIT as int,
                UNIT_LIMIT as int,
                0x80000000,
            );
            crate::vec3::lemma_dot_bound(
                a@,
                b@,
                UNIT_LIMIT as int,
                UNIT_LIMIT as int,
                0x80000000,
            );
        }
        let c = a.cross(b);
        let d = a.dot(b);
        let raw = QuatFx { x: c.x, y: c.y, z: c.z, w: fx::ONE + d };
        raw.renormalize()
    }
}

/// The sum of the four squared components is nonnegative and fits the
/// working range when each component does.
proof fn lemma_q4_sq_bounds(q: Q4, b: int)
    requires
        q4_bounded(q, b),
        b >= 0,
    ensures
        0 <= q.x * q.x + q.y * q.y + q.z * q.z + q.w * q.w <= 4 * b * b,
{
    assert(0 <= q.x * q.x + q.y * q.y + q.z * q.z + q.w * q.w <= 4 * b * b) by (nonlinear_arith)
        requires
            q4_bounded(q, b),
            b >= 0,
    ;
}

/// Each component of a renormalized quaternion stays within `QUNIT_LIMIT`.
proof fn lemma_renormalize_bounded(q: Q4, n: int)
    requires
        n == q4_norm(q),
        n >= 1,
    ensures
        q4_bounded(q4_renormalize(q), QUNIT_LIMIT as int),
{
    let s = q.x * q.x + q.y * q.y + q.z * q.z + q.w * q.w;
    assert(s >= q.x * q.x && s >= q.y * q.y && s >= q.z * q.z && s >= q.w * q.w && s >= 0)
        by (nonlinear_arith)
        requires
            s == q.x * q.x + q.y * q.y + q.z * q.z + q.w * q.w,
    ;
    fx::lemma_div_by_norm_bound(q.x, s, n);
    fx::lemma_div_by_norm_bound(q.y, s, n);
    fx::lemma_div_by_norm_bound(q.z, s, n);
    fx::lemma_div_by_norm_bound(q.w, s, n);
}

/// Rotating by a near-unit quaternion grows coordinate bounds by at most a
/// factor of 49.
pub proof fn lemma_rotate_bound(q: Q4, v: V3, bv: int)
    requires
        q4_bounded(q, QUNIT_LIMIT as int),
        v3_bounded(v, bv),
        bv >= 0,
    ensures
        v3_bounded(q4_rotate(q, v), 49 * bv),
{
    let qv = q4_vec(q);
    let one = fx::ONE as int;
    assert(2 * (QUNIT_LIMIT as int) * bv <= (4 * bv) * one && 2 * (QUNIT_LIMIT as int) * (4 * bv)
        <= (16 * bv) * one && (4 * bv) * (2 * QUNIT_LIMIT as int) <= (16 * bv) * one)
        by (nonlinear_arith)
        requires
            bv >= 0,
            one == 65536,
            QUNIT_LIMIT == 131072i128,
    ;
    crate::vec3::lemma_cross_bound(qv, v, QUNIT_LIMIT as int, bv, 4 * bv);
    let c1 = v3_cross(qv, v);
    crate::vec3::lemma_cross_bound(qv, c1, QUNIT_LIMIT as int, 4 * bv, 16 * bv);
    crate::vec3::lemma_scale_bound(c1, 2 * q.w, 4 * bv, 2 * QUNIT_LIMIT as int, 16 * bv);
}

/// Half a world unit divided by the fixed-point root of `v`.
fn half_inv_root(v: i128) -> (r: i128)
    requires
        fx::ONE <= v <= 0x100000,
    ensures
        r == fxdiv((fx::ONE as int) / 2, fx::sqrtfx(v as int)),
        0 <= r <= 0x80000000,
{
    let s = fx::sqrt_fx(v);
    proof {
        fx::lemma_sqrt_floor_bounds(v as int * (fx::ONE as int));
        assert(v as int * (fx::ONE as int) >= 1) by (nonlinear_arith)
            requires
                v >= 1,
        ;
        assert(s >= 1) by (nonlinear_arith)
            requires
                s >= 0,
                (s as int + 1) * (s as int + 1) > v as int * (fx::ONE as int),
                v as int * (fx::ONE as int) >= 1,
        ;
        fx::lemma_tdiv_abs_le(32768 * (fx::ONE as int), s as int);
        fx::lemma_tdiv_bound(32768 * (fx::ONE as int), s as int, 0x80000000);
        assert(32768 * (fx::ONE as int) <= 0x80000000 * (s as int)) by (nonlinear_arith)
            requires
                s >= 1,
        ;
    }
    fx::div_fx(32768, s)
}

/// The quaternion whose components are the four given values scaled by
/// `inv`.
fn scaled_quat(ex: i128, ey: i128, ez: i128, ew: i128, inv: i128) -> (r: QuatFx)
    requires
        -0x100000 <= ex <= 0x100000,
        -0x100000 <= ey <= 0x100000,
        -0x100000 <= ez <= 0x100000,
        -0x100000 <= ew <= 0x100000,
        -0x80000000 <= inv <= 0x80000000,
    ensures
        r@ == (Q4 {
            x: fxmul(ex as int, inv as int),
            y: fxmul(ey as int, inv as int),
            z: fxmul(ez as int, inv as int),
            w: fxmul(ew as int, inv as int),
        }),
        q4_bounded(r@, 0x4000000000000000),
{
    proof {
        crate::vec3::lemma_prod_bound(ex as int, inv as int, 0x80000000);
        crate::vec3::lemma_prod_bound(ey as int, inv as int, 0x80000000);
        crate::vec3::lemma_prod_bound(ez as int, inv as int, 0x80000000);
        crate::vec3::lemma_prod_bound(ew as int, inv as int, 0x80000000);
        fx::lemma_tdiv_bound(ex as int * inv, fx::ONE as int, 0x4000000000000000);
        fx::lemma_tdiv_bound(ey as int * inv, fx::ONE as int, 0x4000000000000000);
        fx::lemma_tdiv_bound(ez as int * inv, fx::ONE as int, 0x4000000000000000);
        fx::lemma_tdiv_bound(ew as int * inv, fx::ONE as int, 0x4000000000000000);
    }
    QuatFx {
        x: fx::mul_fx(ex, inv),
        y: fx::mul_fx(ey, inv),
        z: fx::mul_fx(ez, inv),
        w: fx::mul_fx(ew, inv),
    }
}

/// Bounds each pairwise component product of two near-unit quaternions.
proof fn lemma_q4_prod_pairs(a: Q4, b: Q4)
    requires
        q4_bounded(a, QUNIT_LIMIT as int),
        q4_bounded(b, QUNIT_LIMIT as int),
    ensures
        forall|p: int, q: int|
            (-(QUNIT_LIMIT as int) <= p <= QUNIT_LIMIT as int && -(QUNIT_LIMIT as int) <= q
                <= QUNIT_LIMIT as int) ==> (-(QUNIT_LIMIT as int * QUNIT_LIMIT) <= #[trigger] (p
                * q) <= QUNIT_LIMIT as int * QUNIT_LIMIT),
{
    assert forall|p: int, q: int|
        (-(QUNIT_LIMIT as int) <= p <= QUNIT_LIMIT as int && -(QUNIT_LIMIT as int) <= q
            <= QUNIT_LIMIT as int) implies (-(QUNIT_LIMIT as int * QUNIT_LIMIT) <= #[trigger] (p
        * q) <= QUNIT_LIMIT as int * QUNIT_LIMIT) by {
        crate::vec3::lemma_prod_bound(p, q, QUNIT_LIMIT as int);
    }
}

/// Component bounds for the Hamilton product of two near-unit quaternions.
proof fn lemma_q4_mul_bounds(a: Q4, b: Q4)
    requires
        q4_bounded(a, QUNIT_LIMIT as int),
        q4_bounded(b, QUNIT_LIMIT as int),
    ensures
        q4_bounded(q4_mul(a, b), 0x100000000000),
{
    let one = fx::ONE as int;
    let lim: int = 0x100000000000;
    lemma_q4_prod_pairs(a, b);
    fx::lemma_tdiv_bound(a.w * b.x + a.x * b.w + a.y * b.z - a.z * b.y, one, lim);
    fx::lemma_tdiv_bound(a.w * b.y - a.x * b.z + a.y * b.w + a.z * b.x, one, lim);
    fx::lemma_tdiv_bound(a.w * b.z + a.x * b.y - a.y * b.x + a.z * b.w, one, lim);
    fx::lemma_tdiv_bound(a.w * b.w - a.x * b.x - a.y * b.y - a.z * b.z, one, lim);
}

} // verus!
