//! Fixed-point 3-vectors.
//!
//! Every executable operation states its result exactly over [`V3`], the
//! mathematical-integer view of a vector, so geometry built on top can be
//! pinned to the last raw unit.

use crate::fx;
use crate::fx::{fxdiv, fxmul, sqrt_floor, tdiv};
use vstd::prelude::*;

verus! {

/// Mathematical view of a vector: unbounded integer coordinates in raw units.
pub ghost struct V3 {
    pub x: int,
    pub y: int,
    pub z: int,
}

/// A point or direction in raw fixed-point units.
#[derive(Clone, Copy, PartialEq, Eq, Structural, Debug)]
pub struct Vec3Fx {
    pub x: i128,
    pub y: i128,
    pub z: i128,
}

impl View for Vec3Fx {
    type V = V3;

    open spec fn view(&self) -> V3 {
        V3 { x: self.x as int, y: self.y as int, z: self.z as int }
    }
}

/// Every coordinate of `v` lies in `[-b, b]`.
pub open spec fn v3_bounded(v: V3, b: int) -> bool {
    -b <= v.x <= b && -b <= v.y <= b && -b <= v.z <= b
}

pub open spec fn v3_zero() -> V3 {
    V3 { x: 0, y: 0, z: 0 }
}

pub open spec fn v3_add(a: V3, b: V3) -> V3 {
    V3 { x: a.x + b.x, y: a.y + b.y, z: a.z + b.z }
}

pub open spec fn v3_sub(a: V3, b: V3) -> V3 {
    V3 { x: a.x - b.x, y: a.y - b.y, z: a.z - b.z }
}

pub open spec fn v3_neg(a: V3) -> V3 {
    V3 { x: -a.x, y: -a.y, z: -a.z }
}

/// Scale by a fixed-point factor.
pub open spec fn v3_scale(a: V3, s: int) -> V3 {
    V3 { x: fxmul(a.x, s), y: fxmul(a.y, s), z: fxmul(a.z, s) }
}

/// Dot product, in raw units.
pub open spec fn v3_dot(a: V3, b: V3) -> int {
    tdiv(a.x * b.x + a.y * b.y + a.z * b.z, fx::ONE as int)
}

/// Cross product, in raw units.
pub open spec fn v3_cross(a: V3, b: V3) -> V3 {
    V3 {
        x: tdiv(a.y * b.z - a.z * b.y, fx::ONE as int),
        y: tdiv(a.z * b.x - a.x * b.z, fx::ONE as int),
        z: tdiv(a.x * b.y - a.y * b.x, fx::ONE as int),
    }
}

/// Euclidean length, in raw units: the floor root of `dot(v, v) * ONE`.
pub open spec fn v3_norm(a: V3) -> int {
    sqrt_floor(v3_dot(a, a) * (fx::ONE as int))
}

/// `v` scaled to length `ONE`, or zero when its length rounds to zero.
pub open spec fn v3_normalize(a: V3) -> V3 {
    let n = v3_norm(a);
    if n == 0 {
        v3_zero()
    } else {
        V3 { x: fxdiv(a.x, n), y: fxdiv(a.y, n), z: fxdiv(a.z, n) }
    }
}

/// Working headroom for a single vector operation.
pub const OP_LIMIT: i128 = 0x4000000000000000;

/// Bound on the coordinates of any normalized vector: two world units.
pub const UNIT_LIMIT: i128 = 131072;

impl Vec3Fx {
    pub fn new(x: i128, y: i128, z: i128) -> (r: Vec3Fx)
        ensures
            r@ == (V3 { x: x as int, y: y as int, z: z as int }),
    {
        Vec3Fx { x, y, z }
    }

    pub fn zero() -> (r: Vec3Fx)
        ensures
            r@ == v3_zero(),
    {
        Vec3Fx { x: 0, y: 0, z: 0 }
    }

    /// Unit vector along the world X axis.
    pub fn unit_x() -> (r: Vec3Fx)
        ensures
            r@ == (V3 { x: fx::ONE as int, y: 0, z: 0 }),
    {
        Vec3Fx { x: fx::ONE, y: 0, z: 0 }
    }

    /// Unit vector along the world Y axis.
    pub fn unit_y() -> (r: Vec3Fx)
        ensures
            r@ == (V3 { x: 0, y: fx::ONE as int, z: 0 }),
    {
        Vec3Fx { x: 0, y: fx::ONE, z: 0 }
    }

    /// Unit vector along the world Z axis.
    pub fn unit_z() -> (r: Vec3Fx)
        ensures
            r@ == (V3 { x: 0, y: 0, z: fx::ONE as int }),
    {
        Vec3Fx { x: 0, y: 0, z: fx::ONE }
    }

    pub fn add(self, o: Vec3Fx) -> (r: Vec3Fx)
        requires
            v3_bounded(self@, OP_LIMIT as int),
            v3_bounded(o@, OP_LIMIT as int),
        ensures
            r@ == v3_add(self@, o@),
    {
        Vec3Fx { x: self.x + o.x, y: self.y + o.y, z: self.z + o.z }
    }

    pub fn sub(self, o: Vec3Fx) -> (r: Vec3Fx)
        requires
            v3_bounded(self@, OP_LIMIT as int),
            v3_bounded(o@, OP_LIMIT as int),
        ensures
            r@ == v3_sub(self@, o@),
    {
        Vec3Fx { x: self.x - o.x, y: self.y - o.y, z: self.z - o.z }
    }

    pub fn neg(self) -> (r: Vec3Fx)
        requires
            v3_bounded(self@, OP_LIMIT as int),
        ensures
            r@ == v3_neg(self@),
    {
        Vec3Fx { x: -self.x, y: -self.y, z: -self.z }
    }

    pub fn scale(self, s: i128) -> (r: Vec3Fx)
        requires
            v3_bounded(self@, OP_LIMIT as int),
            -OP_LIMIT <= s <= OP_LIMIT,
        ensures
            r@ == v3_scale(self@, s as int),
    {
        Vec3Fx {
            x: fx::mul_fx(self.x, s),
            y: fx::mul_fx(self.y, s),
            z: fx::mul_fx(self.z, s),
        }
    }

    pub fn dot(self, o: Vec3Fx) -> (r: i128)
        requires
            v3_bounded(self@, OP_LIMIT as int),
            v3_bounded(o@, OP_LIMIT as int),
        ensures
            r == v3_dot(self@, o@),
    {
        proof {
            lemma_prod_bound(self.x as int, o.x as int, OP_LIMIT as int);
            lemma_prod_bound(self.y as int, o.y as int, OP_LIMIT as int);
            lemma_prod_bound(self.z as int, o.z as int, OP_LIMIT as int);
        }
        fx::div_trunc(self.x * o.x + self.y * o.y + self.z * o.z, fx::ONE)
    }

    pub fn cross(self, o: Vec3Fx) -> (r: Vec3Fx)
        requires
            v3_bounded(self@, OP_LIMIT as int),
            v3_bounded(o@, OP_LIMIT as int),
        ensures
            r@ == v3_cross(self@, o@),
    {
        proof {
            lemma_prod_bound(self.y as int, o.z as int, OP_LIMIT as int);
            lemma_prod_bound(self.z as int, o.y as int, OP_LIMIT as int);
            lemma_prod_bound(self.z as int, o.x as int, OP_LIMIT as int);
            lemma_prod_bound(self.x as int, o.z as int, OP_LIMIT as int);
            lemma_prod_bound(self.x as int, o.y as int, OP_LIMIT as int);
            lemma_prod_bound(self.y as int, o.x as int, OP_LIMIT as int);
        }
        Vec3Fx {
            x: fx::div_trunc(self.y * o.z - self.z * o.y, fx::ONE),
            y: fx::div_trunc(self.z * o.x - self.x * o.z, fx::ONE),
            z: fx::div_trunc(self.x * o.y - self.y * o.x, fx::ONE),
        }
    }

    /// Squared length never comes out negative.
    pub fn norm_sq(self) -> (r: i128)
        requires
            v3_bounded(self@, OP_LIMIT as int),
        ensures
            r == v3_dot(self@, self@),
            r >= 0,
    {
        proof {
            lemma_self_dot_nonneg(self@);
        }
        self.dot(self)
    }

    pub fn length(self) -> (r: i128)
        requires
            v3_bounded(self@, OP_LIMIT as int),
        ensures
            r == v3_norm(self@),
            r >= 0,
    {
        let d = self.norm_sq();
        proof {
            lemma_prod_bound(self.x as int, self.x as int, OP_LIMIT as int);
            lemma_prod_bound(self.y as int, self.y as int, OP_LIMIT as int);
            lemma_prod_bound(self.z as int, self.z as int, OP_LIMIT as int);
            fx::lemma_tdiv_abs_le(
                self.x as int * self.x + self.y as int * self.y + self.z as int * self.z,
                fx::ONE as int,
            );
        }
        let r = fx::isqrt(d * fx::ONE);
        r
    }

    /// Direction of `self` at length `ONE`, or zero when degenerate.
    pub fn normalized(self) -> (r: Vec3Fx)
        requires
            v3_bounded(self@, OP_LIMIT as int),
        ensures
            r@ == v3_normalize(self@),
            v3_bounded(r@, UNIT_LIMIT as int),
    {
        let n = self.length();
        if n == 0 {
            Vec3Fx { x: 0, y: 0, z: 0 }
        } else {
            proof {
                lemma_normalize_bounded(self@, n as int);
            }
            Vec3Fx {
                x: fx::div_fx(self.x, n),
                y: fx::div_fx(self.y, n),
                z: fx::div_fx(self.z, n),
            }
        }
    }
}

/// Bound on a cross product from bounds on its factors.
pub proof fn lemma_cross_bound(a: V3, b: V3, ba: int, bb: int, c: int)
    requires
        v3_bounded(a, ba),
        v3_bounded(b, bb),
        ba >= 0,
        bb >= 0,
        c >= 0,
        2 * ba * bb <= c * (fx::ONE as int),
    ensures
        v3_bounded(v3_cross(a, b), c),
{
    let one = fx::ONE as int;
    assert(-(c * one) <= a.y * b.z - a.z * b.y <= c * one && -(c * one) <= a.z * b.x - a.x * b.z
        <= c * one && -(c * one) <= a.x * b.y - a.y * b.x <= c * one) by (nonlinear_arith)
        requires
            v3_bounded(a, ba),
            v3_bounded(b, bb),
            ba >= 0,
            bb >= 0,
            2 * ba * bb <= c * one,
    ;
    fx::lemma_tdiv_bound(a.y * b.z - a.z * b.y, one, c);
    fx::lemma_tdiv_bound(a.z * b.x - a.x * b.z, one, c);
    fx::lemma_tdiv_bound(a.x * b.y - a.y * b.x, one, c);
}

/// Bound on a dot product from bounds on its factors.
pub proof fn lemma_dot_bound(a: V3, b: V3, ba: int, bb: int, c: int)
    requires
        v3_bounded(a, ba),
        v3_bounded(b, bb),
        ba >= 0,
        bb >= 0,
        c >= 0,
        3 * ba * bb <= c * (fx::ONE as int),
    ensures
        -c <= v3_dot(a, b) <= c,
{
    let one = fx::ONE as int;
    assert(-(c * one) <= a.x * b.x + a.y * b.y + a.z * b.z <= c * one) by (nonlinear_arith)
        requires
            v3_bounded(a, ba),
            v3_bounded(b, bb),
            ba >= 0,
            bb >= 0,
            3 * ba * bb <= c * one,
    ;
    fx::lemma_tdiv_bound(a.x * b.x + a.y * b.y + a.z * b.z, one, c);
}

/// Bound on a scaled vector from bounds on the vector and the factor.
pub proof fn lemma_scale_bound(a: V3, s: int, ba: int, bs: int, c: int)
    requires
        v3_bounded(a, ba),
        -bs <= s <= bs,
        ba >= 0,
        bs >= 0,
        c >= 0,
        ba * bs <= c * (fx::ONE as int),
    ensures
        v3_bounded(v3_scale(a, s), c),
{
    let one = fx::ONE as int;
    assert(-(c * one) <= a.x * s <= c * one && -(c * one) <= a.y * s <= c * one && -(c * one)
        <= a.z * s <= c * one) by (nonlinear_arith)
        requires
            v3_bounded(a, ba),
            -bs <= s <= bs,
            ba >= 0,
            bs >= 0,
            ba * bs <= c * one,
    ;
    fx::lemma_tdiv_bound(a.x * s, one, c);
    fx::lemma_tdiv_bound(a.y * s, one, c);
    fx::lemma_tdiv_bound(a.z * s, one, c);
}

/// Bound on the product of two integers with separate bounds.
pub proof fn lemma_prod_bound2(a: int, b: int, ba: int, bb: int)
    requires
        -ba <= a <= ba,
        -bb <= b <= bb,
        ba >= 0,
        bb >= 0,
    ensures
        -(ba * bb) <= a * b <= ba * bb,
{
    assert(-(ba * bb) <= a * b <= ba * bb) by (nonlinear_arith)
        requires
            -ba <= a <= ba,
            -bb <= b <= bb,
            ba >= 0,
            bb >= 0,
    ;
}

/// Bound on the product of two bounded integers.
pub proof fn lemma_prod_bound(a: int, b: int, c: int)
    requires
        -c <= a <= c,
        -c <= b <= c,
        c >= 0,
    ensures
        -(c * c) <= a * b <= c * c,
{
    assert(-(c * c) <= a * b <= c * c) by (nonlinear_arith)
        requires
            -c <= a <= c,
            -c <= b <= c,
            c >= 0,
    ;
}

/// The norm of a bounded vector is at most twice its coordinate bound.
pub proof fn lemma_norm_bounded(a: V3, c: int)
    requires
        v3_bounded(a, c),
        c >= 0,
    ensures
        0 <= v3_norm(a) <= 2 * c,
{
    let s = a.x * a.x + a.y * a.y + a.z * a.z;
    assert(0 <= s <= 3 * c * c) by (nonlinear_arith)
        requires
            v3_bounded(a, c),
            c >= 0,
            s == a.x * a.x + a.y * a.y + a.z * a.z,
    ;
    fx::lemma_tdiv_abs_le(s, fx::ONE as int);
    let d = tdiv(s, fx::ONE as int);
    fx::lemma_sqrt_floor_bounds(d * (fx::ONE as int));
    let n = sqrt_floor(d * (fx::ONE as int));
    assert(d * (fx::ONE as int) <= s);
    assert(n <= 2 * c) by (nonlinear_arith)
        requires
            n >= 0,
            c >= 0,
            n * n <= 3 * c * c,
    ;
}

/// Each coordinate of a normalized vector stays within `UNIT_LIMIT`.
pub proof fn lemma_normalize_bounded(a: V3, n: int)
    requires
        n == v3_norm(a),
        n >= 1,
    ensures
        v3_bounded(v3_normalize(a), UNIT_LIMIT as int),
{
    let s = a.x * a.x + a.y * a.y + a.z * a.z;
    assert(s >= a.x * a.x && s >= a.y * a.y && s >= a.z * a.z && s >= 0) by (nonlinear_arith)
        requires
            s == a.x * a.x + a.y * a.y + a.z * a.z,
    ;
    fx::lemma_div_by_norm_bound(a.x, s, n);
    fx::lemma_div_by_norm_bound(a.y, s, n);
    fx::lemma_div_by_norm_bound(a.z, s, n);
}

/// A vector's dot product with itself is nonnegative.
pub proof fn lemma_self_dot_nonneg(a: V3)
    ensures
        v3_dot(a, a) >= 0,
{
    assert(a.x * a.x >= 0 && a.y * a.y >= 0 && a.z * a.z >= 0) by (nonlinear_arith);
    fx::lemma_tdiv_abs_le(a.x * a.x + a.y * a.y + a.z * a.z, fx::ONE as int);
}

} // verus!
