//! Overlay line lists: the selection wireframe and the gizmo's visuals.
//!
//! These functions only produce data — a list of colored world-space
//! segments — for the render sink to draw. Every builder's contract pins the
//! exact segments appended.

use crate::fx;
use crate::fx::fxmul;
use crate::mesh::Aabb;
use crate::quat::{q4_bounded, q4_rotate, Q4, QuatFx, QUNIT_LIMIT};
use crate::trig::{cos_units, sin_units};
use crate::vec3::{
    v3_add, v3_bounded, v3_cross, v3_norm, v3_normalize, v3_scale, v3_sub, V3, Vec3Fx,
    UNIT_LIMIT,
};
use vstd::prelude::*;

verus! {

/// Mathematical view of one overlay segment.
pub ghost struct OverlayLineV {
    pub a: V3,
    pub b: V3,
    pub color: V3,
}

/// One colored world-space segment for the render sink.
#[derive(Clone, Copy, PartialEq, Eq, Structural, Debug)]
pub struct OverlayLine {
    pub a: Vec3Fx,
    pub b: Vec3Fx,
    pub color: Vec3Fx,
}

impl View for OverlayLine {
    type V = OverlayLineV;

    open spec fn view(&self) -> OverlayLineV {
        OverlayLineV { a: self.a@, b: self.b@, color: self.color@ }
    }
}

/// A list whose prefix subrange equals an earlier list agrees with it
/// pointwise.
proof fn lemma_prefix_stable(b: Seq<OverlayLine>, pre: Seq<OverlayLine>)
    requires
        pre.len() <= b.len(),
        b.subrange(0, pre.len() as int) == pre,
    ensures
        forall|k: int| 0 <= k < pre.len() ==> b[k] == pre[k],
{
    assert forall|k: int| 0 <= k < pre.len() implies b[k] == pre[k] by {
        assert(b.subrange(0, pre.len() as int)[k] == pre[k]);
    }
}

/// Append one segment.
pub fn push_line(lines: &mut Vec<OverlayLine>, a: Vec3Fx, b: Vec3Fx, color: Vec3Fx)
    requires
        old(lines)@.len() < 0x10000,
    ensures
        final(lines)@ == old(lines)@.push(OverlayLine { a, b, color }),
{
    lines.push(OverlayLine { a, b, color });
}

/// Corner `i` of a local box carried into world space: low or high on each
/// axis by the bits of `i`, rotated and translated.
pub open spec fn aabb_corner(origin: V3, rot: Q4, aabb: Aabb, i: int) -> V3 {
    let p = V3 {
        x: if i == 1 || i == 2 || i == 5 || i == 6 {
            aabb.max@.x
        } else {
            aabb.min@.x
        },
        y: if i == 2 || i == 3 || i == 6 || i == 7 {
            aabb.max@.y
        } else {
            aabb.min@.y
        },
        z: if i >= 4 {
            aabb.max@.z
        } else {
            aabb.min@.z
        },
    };
    v3_add(q4_rotate(rot, p), origin)
}

/// First corner index of edge `k` of the wireframe.
pub open spec fn aabb_edge_a(k: int) -> int {
    if k < 4 {
        k
    } else if k < 8 {
        k - 4 + 4
    } else {
        k - 8
    }
}

/// Second corner index of edge `k` of the wireframe.
pub open spec fn aabb_edge_b(k: int) -> int {
    if k < 4 {
        if k == 3 {
            0
        } else {
            k + 1
        }
    } else if k < 8 {
        if k == 7 {
            4
        } else {
            k + 1
        }
    } else {
        k - 8 + 4
    }
}

/// Append the 12-edge wireframe of the object's oriented local box.
pub fn add_aabb_wireframe(
    lines: &mut Vec<OverlayLine>,
    origin: Vec3Fx,
    rot: QuatFx,
    aabb: Aabb,
    color: Vec3Fx,
)
    requires
        old(lines)@.len() < 0x8000,
        v3_bounded(origin@, fx::COORD_LIMIT as int),
        q4_bounded(rot@, QUNIT_LIMIT as int),
        v3_bounded(aabb.min@, fx::COORD_LIMIT as int),
        v3_bounded(aabb.max@, fx::COORD_LIMIT as int),
    ensures
        final(lines)@.len() == old(lines)@.len() + 12,
        final(lines)@.subrange(0, old(lines)@.len() as int) == old(lines)@,
        forall|k: int|
            0 <= k < 12 ==> (#[trigger] final(lines)@[old(lines)@.len() + k])@ == (OverlayLineV {
                a: aabb_corner(origin@, rot@, aabb, aabb_edge_a(k)),
                b: aabb_corner(origin@, rot@, aabb, aabb_edge_b(k)),
                color: color@,
            }),
{
    let c0 = aabb_corner_vec(origin, rot, aabb, 0);
    let c1 = aabb_corner_vec(origin, rot, aabb, 1);
    let c2 = aabb_corner_vec(origin, rot, aabb, 2);
    let c3 = aabb_corner_vec(origin, rot, aabb, 3);
    let c4 = aabb_corner_vec(origin, rot, aabb, 4);
    let c5 = aabb_corner_vec(origin, rot, aabb, 5);
    let c6 = aabb_corner_vec(origin, rot, aabb, 6);
    let c7 = aabb_corner_vec(origin, rot, aabb, 7);
    let ghost base = lines@.len() as int;
    push_line(lines, c0, c1, color);
    push_line(lines, c1, c2, color);
    push_line(lines, c2, c3, color);
    push_line(lines, c3, c0, color);
    push_line(lines, c4, c5, color);
    push_line(lines, c5, c6, color);
    push_line(lines, c6, c7, color);
    push_line(lines, c7, c4, color);
    push_line(lines, c0, c4, color);
    push_line(lines, c1, c5, color);
    push_line(lines, c2, c6, color);
    push_line(lines, c3, c7, color);
    proof {
        assert(final(lines)@.subrange(0, base) =~= old(lines)@);
    }
}

/// One world-space corner of the oriented box.
fn aabb_corner_vec(origin: Vec3Fx, rot: QuatFx, aabb: Aabb, i: u8) -> (r: Vec3Fx)
    requires
        i < 8,
        v3_bounded(origin@, fx::COORD_LIMIT as int),
        q4_bounded(rot@, QUNIT_LIMIT as int),
        v3_bounded(aabb.min@, fx::COORD_LIMIT as int),
        v3_bounded(aabb.max@, fx::COORD_LIMIT as int),
    ensures
        r@ == aabb_corner(origin@, rot@, aabb, i as int),
{
    let x = if i == 1 || i == 2 || i == 5 || i == 6 {
        aabb.max.x
    } else {
        aabb.min.x
    };
    let y = if i == 2 || i == 3 || i == 6 || i == 7 {
        aabb.max.y
    } else {
        aabb.min.y
    };
    let z = if i >= 4 {
        aabb.max.z
    } else {
        aabb.min.z
    };
    let p = Vec3Fx { x, y, z };
    rot.rotate(p).add(origin)
}

/// Segments around a ring's circumference.
pub const RING_SEGS: usize = 48;

/// Turn units per ring segment.
pub const RING_STEP: i128 = 30720;

/// The ring point at segment `i`: the origin plus the in-plane basis
/// combination at that angle, scaled by the radius.
pub open spec fn ring_point(origin: V3, u: V3, v: V3, radius: int, i: int) -> V3 {
    v3_add(
        origin,
        v3_scale(
            v3_add(
                v3_scale(u, cos_units(i * (RING_STEP as int))),
                v3_scale(v, sin_units(i * (RING_STEP as int))),
            ),
            radius,
        ),
    )
}

/// Append the 48 chords of a rotate ring.
pub fn add_ring(
    lines: &mut Vec<OverlayLine>,
    origin: Vec3Fx,
    u: Vec3Fx,
    v: Vec3Fx,
    radius: i128,
    color: Vec3Fx,
)
    requires
        old(lines)@.len() < 0x8000,
        v3_bounded(origin@, fx::COORD_LIMIT as int),
        v3_bounded(u@, UNIT_LIMIT as int),
        v3_bounded(v@, UNIT_LIMIT as int),
        0 <= radius <= fx::COORD_LIMIT,
    ensures
        final(lines)@.len() == old(lines)@.len() + RING_SEGS,
        final(lines)@.subrange(0, old(lines)@.len() as int) == old(lines)@,
        forall|k: int|
            0 <= k < RING_SEGS ==> (#[trigger] final(lines)@[old(lines)@.len() + k])@
                == (OverlayLineV {
                a: ring_point(origin@, u@, v@, radius as int, k),
                b: ring_point(origin@, u@, v@, radius as int, k + 1),
                color: color@,
            }),
{
    let ghost base = lines@.len() as int;
    let mut prev = ring_point_vec(origin, u, v, radius, 0);
    let mut i: usize = 1;
    while i <= RING_SEGS
        invariant
            v3_bounded(origin@, fx::COORD_LIMIT as int),
            v3_bounded(u@, UNIT_LIMIT as int),
            v3_bounded(v@, UNIT_LIMIT as int),
            0 <= radius <= fx::COORD_LIMIT,
            1 <= i <= RING_SEGS + 1,
            base == old(lines)@.len(),
            base < 0x8000,
            lines@.len() == base + i - 1,
            prev@ == ring_point(origin@, u@, v@, radius as int, i - 1),
            lines@.subrange(0, base) =~= old(lines)@,
            forall|k: int|
                0 <= k < i - 1 ==> (#[trigger] lines@[base + k])@ == (OverlayLineV {
                    a: ring_point(origin@, u@, v@, radius as int, k),
                    b: ring_point(origin@, u@, v@, radius as int, k + 1),
                    color: color@,
                }),
        decreases RING_SEGS + 1 - i,
    {
        let p = ring_point_vec(origin, u, v, radius, i);
        let ghost pre = lines@;
        push_line(lines, prev, p, color);
        proof {
            assert(lines@.subrange(0, base) =~= pre.subrange(0, base));
        }
        prev = p;
        i = i + 1;
    }
}

/// Fixed-point factor 0.18: arrowhead length per unit of axis length.
pub const ARROW_LEN_SCALE: i128 = 11796;

/// Fixed-point factor 0.45: wing spread per unit of arrowhead length.
pub const ARROW_WING_SCALE: i128 = 29491;

/// The sideways direction of an axis arrowhead: perpendicular to the axis,
/// facing the camera, with fixed fallbacks when degenerate.
pub open spec fn axis_arrow_side(dir: V3, to_camera: V3) -> V3 {
    let s0 = v3_cross(dir, to_camera);
    let s1 = if v3_norm(s0) == 0 {
        v3_cross(dir, V3 { x: 0, y: fx::ONE as int, z: 0 })
    } else {
        s0
    };
    let s2 = if v3_norm(s1) == 0 {
        v3_cross(dir, V3 { x: fx::ONE as int, y: 0, z: 0 })
    } else {
        s1
    };
    v3_normalize(s2)
}

/// The tip of a translate axis.
pub open spec fn axis_tip(origin: V3, dir: V3, axis_len: int) -> V3 {
    v3_add(origin, v3_scale(dir, axis_len))
}

/// The left or right wing point of an axis arrowhead.
pub open spec fn axis_wing(origin: V3, dir: V3, axis_len: int, to_camera: V3, sign: int) -> V3 {
    let tip = axis_tip(origin, dir, axis_len);
    let arrow_len = fxmul(axis_len, ARROW_LEN_SCALE as int);
    let wing = fxmul(arrow_len, ARROW_WING_SCALE as int);
    let base = v3_sub(tip, v3_scale(dir, arrow_len));
    v3_add(base, v3_scale(axis_arrow_side(dir, to_camera), wing * sign))
}

/// Append the two wing segments of a translate axis arrowhead.
pub fn add_axis_arrow(
    lines: &mut Vec<OverlayLine>,
    origin: Vec3Fx,
    axis_dir: Vec3Fx,
    axis_len: i128,
    to_camera: Vec3Fx,
    color: Vec3Fx,
)
    requires
        old(lines)@.len() < 0x8000,
        v3_bounded(origin@, fx::COORD_LIMIT as int),
        v3_bounded(axis_dir@, UNIT_LIMIT as int),
        v3_bounded(to_camera@, UNIT_LIMIT as int),
        0 <= axis_len <= fx::COORD_LIMIT,
    ensures
        final(lines)@.len() == old(lines)@.len() + 2,
        final(lines)@.subrange(0, old(lines)@.len() as int) == old(lines)@,
        (final(lines)@[old(lines)@.len() as int])@ == (OverlayLineV {
            a: axis_tip(origin@, axis_dir@, axis_len as int),
            b: axis_wing(origin@, axis_dir@, axis_len as int, to_camera@, 1),
            color: color@,
        }),
        (final(lines)@[old(lines)@.len() as int + 1])@ == (OverlayLineV {
            a: axis_tip(origin@, axis_dir@, axis_len as int),
            b: axis_wing(origin@, axis_dir@, axis_len as int, to_camera@, -1),
            color: color@,
        }),
{
    proof {
        crate::vec3::lemma_scale_bound(
            axis_dir@,
            axis_len as int,
            UNIT_LIMIT as int,
            fx::COORD_LIMIT as int,
            2 * fx::COORD_LIMIT as int,
        );
        crate::vec3::lemma_prod_bound2(
            axis_len as int,
            ARROW_LEN_SCALE as int,
            fx::COORD_LIMIT as int,
            ARROW_LEN_SCALE as int,
        );
        fx::lemma_tdiv_bound(
            axis_len as int * ARROW_LEN_SCALE,
            fx::ONE as int,
            fx::COORD_LIMIT as int,
        );
        fx::lemma_tdiv_abs_le(axis_len as int * ARROW_LEN_SCALE, fx::ONE as int);
        crate::vec3::lemma_cross_bound(
            axis_dir@,
            to_camera@,
            UNIT_LIMIT as int,
            UNIT_LIMIT as int,
            0x80000,
        );
        crate::vec3::lemma_cross_bound(
            axis_dir@,
            V3 { x: 0, y: fx::ONE as int, z: 0 },
            UNIT_LIMIT as int,
            fx::ONE as int,
            0x80000,
        );
        crate::vec3::lemma_cross_bound(
            axis_dir@,
            V3 { x: fx::ONE as int, y: 0, z: 0 },
            UNIT_LIMIT as int,
            fx::ONE as int,
            0x80000,
        );
    }
    let tip = origin.add(axis_dir.scale(axis_len));
    let arrow_len = fx::mul_fx(axis_len, ARROW_LEN_SCALE);
    let s0 = axis_dir.cross(to_camera);
    let s1 = if s0.length() == 0 {
        axis_dir.cross(Vec3Fx::unit_y())
    } else {
        s0
    };
    let s2 = if s1.length() == 0 {
        axis_dir.cross(Vec3Fx::unit_x())
    } else {
        s1
    };
    let side = s2.normalized();
    proof {
        crate::vec3::lemma_prod_bound2(
            arrow_len as int,
            ARROW_WING_SCALE as int,
            fx::COORD_LIMIT as int,
            ARROW_WING_SCALE as int,
        );
        fx::lemma_tdiv_bound(
            arrow_len as int * ARROW_WING_SCALE,
            fx::ONE as int,
            fx::COORD_LIMIT as int,
        );
        crate::vec3::lemma_scale_bound(
            axis_dir@,
            arrow_len as int,
            UNIT_LIMIT as int,
            fx::COORD_LIMIT as int,
            2 * fx::COORD_LIMIT as int,
        );
        crate::vec3::lemma_scale_bound(
            axis_arrow_side(axis_dir@, to_camera@),
            fxmul(arrow_len as int, ARROW_WING_SCALE as int),
            UNIT_LIMIT as int,
            fx::COORD_LIMIT as int,
            2 * fx::COORD_LIMIT as int,
        );
        crate::vec3::lemma_scale_bound(
            axis_arrow_side(axis_dir@, to_camera@),
            -fxmul(arrow_len as int, ARROW_WING_SCALE as int),
            UNIT_LIMIT as int,
            fx::COORD_LIMIT as int,
            2 * fx::COORD_LIMIT as int,
        );
    }
    let wing = fx::mul_fx(arrow_len, ARROW_WING_SCALE);
    let base = tip.sub(axis_dir.scale(arrow_len));
    let mwing = -wing;
    let left = base.add(side.scale(wing));
    let right = base.add(side.scale(mwing));
    let ghost pre = lines@;
    push_line(lines, tip, left, color);
    push_line(lines, tip, right, color);
    proof {
        assert(lines@.subrange(0, pre.len() as int) =~= pre);
        crate::pick::lemma_mul_unit(fxmul(arrow_len as int, ARROW_WING_SCALE as int));
    }
}

/// One crossing test of the even-odd rule: does the horizontal ray from `p`
/// cross the polygon edge from vertex `j` to vertex `i`?
pub open spec fn poly_edge_crosses(
    px: int,
    py: int,
    xi: int,
    yi: int,
    xj: int,
    yj: int,
) -> bool {
    let denom = yj - yi;
    if denom == 0 {
        false
    } else {
        ((yi > py) != (yj > py)) && px < crate::fx::sdiv((xj - xi) * (py - yi), denom) + xi
    }
}

/// `p` lies inside the quadrilateral by the even-odd crossing rule.
pub open spec fn point_in_poly_v(px: int, py: int, poly: [(int, int); 4]) -> bool {
    let c0 = poly_edge_crosses(px, py, poly[0].0, poly[0].1, poly[3].0, poly[3].1);
    let c1 = poly_edge_crosses(px, py, poly[1].0, poly[1].1, poly[0].0, poly[0].1);
    let c2 = poly_edge_crosses(px, py, poly[2].0, poly[2].1, poly[1].0, poly[1].1);
    let c3 = poly_edge_crosses(px, py, poly[3].0, poly[3].1, poly[2].0, poly[2].1);
    ((((c0 != c1) != c2) != c3))
}

/// Even-odd point-in-quadrilateral test, used to hit-test flat screen
/// widgets such as the view cube's faces.
pub fn point_in_poly(px: i128, py: i128, poly: &[(i128, i128); 4]) -> (r: bool)
    requires
        -0x100000000000 <= px <= 0x100000000000,
        -0x100000000000 <= py <= 0x100000000000,
        forall|i: int|
            0 <= i < 4 ==> -0x100000000000 <= (#[trigger] poly[i]).0 <= 0x100000000000
                && -0x100000000000 <= poly[i].1 <= 0x100000000000,
    ensures
        r == point_in_poly_v(
            px as int,
            py as int,
            [
                (poly[0].0 as int, poly[0].1 as int),
                (poly[1].0 as int, poly[1].1 as int),
                (poly[2].0 as int, poly[2].1 as int),
                (poly[3].0 as int, poly[3].1 as int),
            ],
        ),
{
    let c0 = poly_edge_test(px, py, poly[0].0, poly[0].1, poly[3].0, poly[3].1);
    let c1 = poly_edge_test(px, py, poly[1].0, poly[1].1, poly[0].0, poly[0].1);
    let c2 = poly_edge_test(px, py, poly[2].0, poly[2].1, poly[1].0, poly[1].1);
    let c3 = poly_edge_test(px, py, poly[3].0, poly[3].1, poly[2].0, poly[2].1);
    (((c0 != c1) != c2) != c3)
}

/// One exact edge-crossing test.
fn poly_edge_test(px: i128, py: i128, xi: i128, yi: i128, xj: i128, yj: i128) -> (r: bool)
    requires
        -0x100000000000 <= px <= 0x100000000000,
        -0x100000000000 <= py <= 0x100000000000,
        -0x100000000000 <= xi <= 0x100000000000,
        -0x100000000000 <= yi <= 0x100000000000,
        -0x100000000000 <= xj <= 0x100000000000,
        -0x100000000000 <= yj <= 0x100000000000,
    ensures
        r == poly_edge_crosses(px as int, py as int, xi as int, yi as int, xj as int, yj as int),
{
    let denom = yj - yi;
    if denom == 0 {
        return false;
    }
    proof {
        crate::vec3::lemma_prod_bound2(
            (xj - xi) as int,
            (py - yi) as int,
            0x200000000000,
            0x200000000000,
        );
    }
    let crossing = fx::div_signed((xj - xi) * (py - yi), denom) + xi;
    ((yi > py) != (yj > py)) && px < crossing
}

/// The selection and axis colors: selection highlight, then the X, Y and Z
/// affordances.
pub open spec fn gizmo_palette(i: int) -> V3 {
    if i == 0 {
        V3 { x: 65536, y: 55706, z: 16384 }
    } else if i == 1 {
        V3 { x: 65536, y: 16384, z: 16384 }
    } else if i == 2 {
        V3 { x: 16384, y: 65536, z: 16384 }
    } else {
        V3 { x: 22938, y: 36045, z: 65536 }
    }
}

/// The overlay of one selected object: its oriented-box selection wireframe
/// and, when the move tool is active, the three translate axes of
/// [`add_gizmo_axes`] starting at segment 12 and the three rotate rings of
/// [`add_gizmo_rings`] starting at segment 21, sized exactly as the hit test
/// sizes them.
#[verifier::rlimit(100)]
#[verifier::spinoff_prover]
pub fn build_gizmo_overlay(
    origin: Vec3Fx,
    rot: QuatFx,
    aabb: Aabb,
    base_r: i128,
    eye: Vec3Fx,
    show_gizmo: bool,
) -> (r: Vec<OverlayLine>)
    requires
        v3_bounded(origin@, fx::COORD_LIMIT as int),
        q4_bounded(rot@, QUNIT_LIMIT as int),
        v3_bounded(aabb.min@, fx::COORD_LIMIT as int),
        v3_bounded(aabb.max@, fx::COORD_LIMIT as int),
        0 <= base_r <= 2 * fx::COORD_LIMIT,
        v3_bounded(eye@, fx::COORD_LIMIT as int),
    ensures
        r@.len() == if show_gizmo {
            165int
        } else {
            12int
        },
        forall|k: int|
            0 <= k < 12 ==> (#[trigger] r@[k])@ == (OverlayLineV {
                a: aabb_corner(origin@, rot@, aabb, aabb_edge_a(k)),
                b: aabb_corner(origin@, rot@, aabb, aabb_edge_b(k)),
                color: gizmo_palette(0),
            }),
        show_gizmo ==> {
            let ax = crate::gizmo::rot_axis(rot@, crate::gizmo::Axis::X);
            let ay = crate::gizmo::rot_axis(rot@, crate::gizmo::Axis::Y);
            let az = crate::gizmo::rot_axis(rot@, crate::gizmo::Axis::Z);
            let dist = crate::gizmo::imax(
                v3_norm(v3_sub(eye@, origin@)),
                crate::gizmo::GIZMO_MIN_DIST as int,
            );
            let axis_len = crate::gizmo::gizmo_axis_len(base_r as int, dist);
            let ring_r = crate::gizmo::gizmo_ring_radius(axis_len);
            let cam = v3_normalize(v3_sub(eye@, origin@));
            &&& (r@[12])@ == (OverlayLineV {
                a: origin@,
                b: axis_tip(origin@, ax, axis_len),
                color: gizmo_palette(1),
            })
            &&& (r@[13])@.b == axis_wing(origin@, ax, axis_len, cam, 1)
            &&& (r@[14])@.b == axis_wing(origin@, ax, axis_len, cam, -1)
            &&& (r@[15])@ == (OverlayLineV {
                a: origin@,
                b: axis_tip(origin@, ay, axis_len),
                color: gizmo_palette(2),
            })
            &&& (r@[16])@.b == axis_wing(origin@, ay, axis_len, cam, 1)
            &&& (r@[17])@.b == axis_wing(origin@, ay, axis_len, cam, -1)
            &&& (r@[18])@ == (OverlayLineV {
                a: origin@,
                b: axis_tip(origin@, az, axis_len),
                color: gizmo_palette(3),
            })
            &&& (r@[19])@.b == axis_wing(origin@, az, axis_len, cam, 1)
            &&& (r@[20])@.b == axis_wing(origin@, az, axis_len, cam, -1)
            &&& forall|k: int|
                0 <= k < 48 ==> (#[trigger] r@[21 + k])@ == (OverlayLineV {
                    a: ring_point(origin@, ay, az, ring_r, k),
                    b: ring_point(origin@, ay, az, ring_r, k + 1),
                    color: gizmo_palette(1),
                })
            &&& forall|k: int|
                0 <= k < 48 ==> (#[trigger] r@[69 + k])@ == (OverlayLineV {
                    a: ring_point(origin@, az, ax, ring_r, k),
                    b: ring_point(origin@, az, ax, ring_r, k + 1),
                    color: gizmo_palette(2),
                })
            &&& forall|k: int|
                0 <= k < 48 ==> (#[trigger] r@[117 + k])@ == (OverlayLineV {
                    a: ring_point(origin@, ax, ay, ring_r, k),
                    b: ring_point(origin@, ax, ay, ring_r, k + 1),
                    color: gizmo_palette(3),
                })
        },
{
    let select_color = Vec3Fx { x: 65536, y: 55706, z: 16384 };
    let color_x = Vec3Fx { x: 65536, y: 16384, z: 16384 };
    let color_y = Vec3Fx { x: 16384, y: 65536, z: 16384 };
    let color_z = Vec3Fx { x: 22938, y: 36045, z: 65536 };
    let mut lines: Vec<OverlayLine> = Vec::new();
    let ghost e0 = lines@;
    add_aabb_wireframe(&mut lines, origin, rot, aabb, select_color);
    proof {
        assert forall|k: int| 0 <= k < 12 implies (#[trigger] lines@[k])@ == (OverlayLineV {
            a: aabb_corner(origin@, rot@, aabb, aabb_edge_a(k)),
            b: aabb_corner(origin@, rot@, aabb, aabb_edge_b(k)),
            color: gizmo_palette(0),
        }) by {
            assert(lines@[e0.len() + k] == lines@[k]);
        }
    }
    if !show_gizmo {
        return lines;
    }
    let ax = rot.rotate(Vec3Fx::unit_x()).normalized();
    let ay = rot.rotate(Vec3Fx::unit_y()).normalized();
    let az = rot.rotate(Vec3Fx::unit_z()).normalized();
    proof {
        crate::vec3::lemma_norm_bounded(v3_sub(eye@, origin@), 2 * fx::COORD_LIMIT as int);
    }
    let dist0 = eye.sub(origin).length();
    let dist = if dist0 < crate::gizmo::GIZMO_MIN_DIST {
        crate::gizmo::GIZMO_MIN_DIST
    } else {
        dist0
    };
    let dims = crate::gizmo::gizmo_dimensions(base_r, dist);
    let axis_len = dims.0;
    let ring_r = dims.1;
    let cam = eye.sub(origin).normalized();
    proof {
        crate::vec3::lemma_scale_bound(
            ax@,
            axis_len as int,
            UNIT_LIMIT as int,
            fx::COORD_LIMIT as int,
            2 * fx::COORD_LIMIT as int,
        );
        crate::vec3::lemma_scale_bound(
            ay@,
            axis_len as int,
            UNIT_LIMIT as int,
            fx::COORD_LIMIT as int,
            2 * fx::COORD_LIMIT as int,
        );
        crate::vec3::lemma_scale_bound(
            az@,
            axis_len as int,
            UNIT_LIMIT as int,
            fx::COORD_LIMIT as int,
            2 * fx::COORD_LIMIT as int,
        );
    }
    let ghost w = lines@;
    add_affordances(&mut lines, origin, ax, ay, az, axis_len, ring_r, cam);
    proof {
        lemma_prefix_stable(lines@, w);
        assert forall|k: int| 0 <= k < 48 implies #[trigger] lines@[21 + k] == lines@[w.len() + 9
            + k] by {
        }
        assert forall|k: int| 0 <= k < 48 implies #[trigger] lines@[69 + k] == lines@[w.len() + 57
            + k] by {
        }
        assert forall|k: int| 0 <= k < 48 implies #[trigger] lines@[117 + k] == lines@[w.len()
            + 105 + k] by {
        }
    }
    lines
}

/// Append the whole set of gizmo affordances: the three axes of
/// [`add_gizmo_axes`], then the three rings of [`add_gizmo_rings`], each
/// segment pinned at its offset.
#[verifier::spinoff_prover]
fn add_affordances(
    lines: &mut Vec<OverlayLine>,
    origin: Vec3Fx,
    ax: Vec3Fx,
    ay: Vec3Fx,
    az: Vec3Fx,
    axis_len: i128,
    ring_r: i128,
    cam: Vec3Fx,
)
    requires
        old(lines)@.len() < 0x800,
        v3_bounded(origin@, fx::COORD_LIMIT as int),
        v3_bounded(ax@, UNIT_LIMIT as int),
        v3_bounded(ay@, UNIT_LIMIT as int),
        v3_bounded(az@, UNIT_LIMIT as int),
        v3_bounded(cam@, UNIT_LIMIT as int),
        0 <= axis_len <= fx::COORD_LIMIT,
        0 <= ring_r <= fx::COORD_LIMIT,
    ensures
        final(lines)@.len() == old(lines)@.len() + 153,
        final(lines)@.subrange(0, old(lines)@.len() as int) == old(lines)@,
        (final(lines)@[old(lines)@.len() as int])@ == (OverlayLineV {
            a: origin@,
            b: axis_tip(origin@, ax@, axis_len as int),
            color: gizmo_palette(1),
        }),
        (final(lines)@[old(lines)@.len() as int + 1])@.b == axis_wing(
            origin@,
            ax@,
            axis_len as int,
            cam@,
            1,
        ),
        (final(lines)@[old(lines)@.len() as int + 2])@.b == axis_wing(
            origin@,
            ax@,
            axis_len as int,
            cam@,
            -1,
        ),
        (final(lines)@[old(lines)@.len() as int + 3])@ == (OverlayLineV {
            a: origin@,
            b: axis_tip(origin@, ay@, axis_len as int),
            color: gizmo_palette(2),
        }),
        (final(lines)@[old(lines)@.len() as int + 4])@.b == axis_wing(
            origin@,
            ay@,
            axis_len as int,
            cam@,
            1,
        ),
        (final(lines)@[old(lines)@.len() as int + 5])@.b == axis_wing(
            origin@,
            ay@,
            axis_len as int,
            cam@,
            -1,
        ),
        (final(lines)@[old(lines)@.len() as int + 6])@ == (OverlayLineV {
            a: origin@,
            b: axis_tip(origin@, az@, axis_len as int),
            color: gizmo_palette(3),
        }),
        (final(lines)@[old(lines)@.len() as int + 7])@.b == axis_wing(
            origin@,
            az@,
            axis_len as int,
            cam@,
            1,
        ),
        (final(lines)@[old(lines)@.len() as int + 8])@.b == axis_wing(
            origin@,
            az@,
            axis_len as int,
            cam@,
            -1,
        ),
        forall|k: int|
            0 <= k < 48 ==> (#[trigger] final(lines)@[old(lines)@.len() + 9 + k])@
                == (OverlayLineV {
                a: ring_point(origin@, ay@, az@, ring_r as int, k),
                b: ring_point(origin@, ay@, az@, ring_r as int, k + 1),
                color: gizmo_palette(1),
            }),
        forall|k: int|
            0 <= k < 48 ==> (#[trigger] final(lines)@[old(lines)@.len() + 57 + k])@
                == (OverlayLineV {
                a: ring_point(origin@, az@, ax@, ring_r as int, k),
                b: ring_point(origin@, az@, ax@, ring_r as int, k + 1),
                color: gizmo_palette(2),
            }),
        forall|k: int|
            0 <= k < 48 ==> (#[trigger] final(lines)@[old(lines)@.len() + 105 + k])@
                == (OverlayLineV {
                a: ring_point(origin@, ax@, ay@, ring_r as int, k),
                b: ring_point(origin@, ax@, ay@, ring_r as int, k + 1),
                color: gizmo_palette(3),
            }),
{
    let ghost w = lines@;
    add_gizmo_axes(lines, origin, ax, ay, az, axis_len, cam);
    let ghost wa = lines@;
    add_gizmo_rings(lines, origin, ax, ay, az, ring_r);
    proof {
        lemma_prefix_stable(wa, w);
        lemma_prefix_stable(final(lines)@, wa);
        assert(final(lines)@.subrange(0, w.len() as int) =~= w);
        assert forall|j: int| 0 <= j < 9 implies #[trigger] final(lines)@[w.len() + j] == wa[w.len()
            + j] by {
        }
        assert forall|k: int| 0 <= k < 48 implies (#[trigger] final(lines)@[w.len() + 9 + k])@
            == (OverlayLineV {
            a: ring_point(origin@, ay@, az@, ring_r as int, k),
            b: ring_point(origin@, ay@, az@, ring_r as int, k + 1),
            color: gizmo_palette(1),
        }) by {
            assert(final(lines)@[wa.len() + k] == final(lines)@[w.len() + 9 + k]);
        }
        assert forall|k: int| 0 <= k < 48 implies (#[trigger] final(lines)@[w.len() + 57 + k])@
            == (OverlayLineV {
            a: ring_point(origin@, az@, ax@, ring_r as int, k),
            b: ring_point(origin@, az@, ax@, ring_r as int, k + 1),
            color: gizmo_palette(2),
        }) by {
            assert(final(lines)@[wa.len() + 48 + k] == final(lines)@[w.len() + 57 + k]);
        }
        assert forall|k: int| 0 <= k < 48 implies (#[trigger] final(lines)@[w.len() + 105 + k])@
            == (OverlayLineV {
            a: ring_point(origin@, ax@, ay@, ring_r as int, k),
            b: ring_point(origin@, ax@, ay@, ring_r as int, k + 1),
            color: gizmo_palette(3),
        }) by {
            assert(final(lines)@[wa.len() + 96 + k] == final(lines)@[w.len() + 105 + k]);
        }
    }
}

/// Append the three translate axes, each a shaft and an arrowhead.
pub fn add_gizmo_axes(
    lines: &mut Vec<OverlayLine>,
    origin: Vec3Fx,
    ax: Vec3Fx,
    ay: Vec3Fx,
    az: Vec3Fx,
    axis_len: i128,
    cam: Vec3Fx,
)
    requires
        old(lines)@.len() < 0x1000,
        v3_bounded(origin@, fx::COORD_LIMIT as int),
        v3_bounded(ax@, UNIT_LIMIT as int),
        v3_bounded(ay@, UNIT_LIMIT as int),
        v3_bounded(az@, UNIT_LIMIT as int),
        v3_bounded(cam@, UNIT_LIMIT as int),
        0 <= axis_len <= fx::COORD_LIMIT,
    ensures
        final(lines)@.len() == old(lines)@.len() + 9,
        final(lines)@.subrange(0, old(lines)@.len() as int) == old(lines)@,
        (final(lines)@[old(lines)@.len() as int])@ == (OverlayLineV {
            a: origin@,
            b: axis_tip(origin@, ax@, axis_len as int),
            color: gizmo_palette(1),
        }),
        (final(lines)@[old(lines)@.len() as int + 1])@.b == axis_wing(
            origin@,
            ax@,
            axis_len as int,
            cam@,
            1,
        ),
        (final(lines)@[old(lines)@.len() as int + 2])@.b == axis_wing(
            origin@,
            ax@,
            axis_len as int,
            cam@,
            -1,
        ),
        (final(lines)@[old(lines)@.len() as int + 3])@ == (OverlayLineV {
            a: origin@,
            b: axis_tip(origin@, ay@, axis_len as int),
            color: gizmo_palette(2),
        }),
        (final(lines)@[old(lines)@.len() as int + 4])@.b == axis_wing(
            origin@,
            ay@,
            axis_len as int,
            cam@,
            1,
        ),
        (final(lines)@[old(lines)@.len() as int + 5])@.b == axis_wing(
            origin@,
            ay@,
            axis_len as int,
            cam@,
            -1,
        ),
        (final(lines)@[old(lines)@.len() as int + 6])@ == (OverlayLineV {
            a: origin@,
            b: axis_tip(origin@, az@, axis_len as int),
            color: gizmo_palette(3),
        }),
        (final(lines)@[old(lines)@.len() as int + 7])@.b == axis_wing(
            origin@,
            az@,
            axis_len as int,
            cam@,
            1,
        ),
        (final(lines)@[old(lines)@.len() as int + 8])@.b == axis_wing(
            origin@,
            az@,
            axis_len as int,
            cam@,
            -1,
        ),
{
    let color_x = Vec3Fx { x: 65536, y: 16384, z: 16384 };
    let color_y = Vec3Fx { x: 16384, y: 65536, z: 16384 };
    let color_z = Vec3Fx { x: 22938, y: 36045, z: 65536 };
    proof {
        crate::vec3::lemma_scale_bound(
            ax@,
            axis_len as int,
            UNIT_LIMIT as int,
            fx::COORD_LIMIT as int,
            2 * fx::COORD_LIMIT as int,
        );
        crate::vec3::lemma_scale_bound(
            ay@,
            axis_len as int,
            UNIT_LIMIT as int,
            fx::COORD_LIMIT as int,
            2 * fx::COORD_LIMIT as int,
        );
        crate::vec3::lemma_scale_bound(
            az@,
            axis_len as int,
            UNIT_LIMIT as int,
            fx::COORD_LIMIT as int,
            2 * fx::COORD_LIMIT as int,
        );
    }
    let ghost base = lines@;
    push_line(lines, origin, origin.add(ax.scale(axis_len)), color_x);
    let ghost s1 = lines@;
    add_axis_arrow(lines, origin, ax, axis_len, cam, color_x);
    let ghost s2 = lines@;
    push_line(lines, origin, origin.add(ay.scale(axis_len)), color_y);
    let ghost s3 = lines@;
    add_axis_arrow(lines, origin, ay, axis_len, cam, color_y);
    let ghost s4 = lines@;
    push_line(lines, origin, origin.add(az.scale(axis_len)), color_z);
    let ghost s5 = lines@;
    add_axis_arrow(lines, origin, az, axis_len, cam, color_z);
    proof {
        lemma_prefix_stable(s2, s1);
        lemma_prefix_stable(s4, s3);
        lemma_prefix_stable(final(lines)@, s5);
        assert(final(lines)@.subrange(0, base.len() as int) =~= base);
    }
}

/// Append the three rotate rings.
pub fn add_gizmo_rings(
    lines: &mut Vec<OverlayLine>,
    origin: Vec3Fx,
    ax: Vec3Fx,
    ay: Vec3Fx,
    az: Vec3Fx,
    ring_r: i128,
)
    requires
        old(lines)@.len() < 0x1000,
        v3_bounded(origin@, fx::COORD_LIMIT as int),
        v3_bounded(ax@, UNIT_LIMIT as int),
        v3_bounded(ay@, UNIT_LIMIT as int),
        v3_bounded(az@, UNIT_LIMIT as int),
        0 <= ring_r <= fx::COORD_LIMIT,
    ensures
        final(lines)@.len() == old(lines)@.len() + 144,
        final(lines)@.subrange(0, old(lines)@.len() as int) == old(lines)@,
        forall|k: int|
            0 <= k < 48 ==> (#[trigger] final(lines)@[old(lines)@.len() + k])@ == (OverlayLineV {
                a: ring_point(origin@, ay@, az@, ring_r as int, k),
                b: ring_point(origin@, ay@, az@, ring_r as int, k + 1),
                color: gizmo_palette(1),
            }),
        forall|k: int|
            0 <= k < 48 ==> (#[trigger] final(lines)@[old(lines)@.len() + 48 + k])@
                == (OverlayLineV {
                a: ring_point(origin@, az@, ax@, ring_r as int, k),
                b: ring_point(origin@, az@, ax@, ring_r as int, k + 1),
                color: gizmo_palette(2),
            }),
        forall|k: int|
            0 <= k < 48 ==> (#[trigger] final(lines)@[old(lines)@.len() + 96 + k])@
                == (OverlayLineV {
                a: ring_point(origin@, ax@, ay@, ring_r as int, k),
                b: ring_point(origin@, ax@, ay@, ring_r as int, k + 1),
                color: gizmo_palette(3),
            }),
{
    let color_x = Vec3Fx { x: 65536, y: 16384, z: 16384 };
    let color_y = Vec3Fx { x: 16384, y: 65536, z: 16384 };
    let color_z = Vec3Fx { x: 22938, y: 36045, z: 65536 };
    let ghost base = lines@;
    add_ring(lines, origin, ay, az, ring_r, color_x);
    let ghost mid1 = lines@;
    add_ring(lines, origin, az, ax, ring_r, color_y);
    let ghost mid2 = lines@;
    add_ring(lines, origin, ax, ay, ring_r, color_z);
    proof {
        lemma_prefix_stable(mid2, mid1);
        lemma_prefix_stable(final(lines)@, mid2);
        assert(final(lines)@.subrange(0, base.len() as int) =~= base);
    }
}

/// The world-space ring point at segment `i`.
fn ring_point_vec(origin: Vec3Fx, u: Vec3Fx, v: Vec3Fx, radius: i128, i: usize) -> (r: Vec3Fx)
    requires
        i <= RING_SEGS,
        v3_bounded(origin@, fx::COORD_LIMIT as int),
        v3_bounded(u@, UNIT_LIMIT as int),
        v3_bounded(v@, UNIT_LIMIT as int),
        0 <= radius <= fx::COORD_LIMIT,
    ensures
        r@ == ring_point(origin@, u@, v@, radius as int, i as int),
{
    let ang = (i as i128) * RING_STEP;
    let c = crate::trig::cos_fx(ang);
    let s = crate::trig::sin_fx(ang);
    proof {
        crate::vec3::lemma_scale_bound(u@, c as int, UNIT_LIMIT as int, fx::ONE as int, 0x40000);
        crate::vec3::lemma_scale_bound(v@, s as int, UNIT_LIMIT as int, fx::ONE as int, 0x40000);
        crate::vec3::lemma_scale_bound(
            v3_add(v3_scale(u@, c as int), v3_scale(v@, s as int)),
            radius as int,
            0x80000,
            fx::COORD_LIMIT as int,
            0x200000000000,
        );
    }
    origin.add(u.scale(c).add(v.scale(s)).scale(radius))
}

} // verus!
