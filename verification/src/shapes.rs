//! Local-space tessellations of the primitive shapes.
//!
//! The box and cylinder meshes are built directly in fixed point; their
//! contracts pin every vertex, normal and index. Both are centered on the
//! local origin.

use crate::fx;
use crate::fx::{fxmul, tdiv};
use crate::mesh::{mesh_local, MeshV, TriMesh};
use crate::trig::{cos_units, sin_units, TURN};
use crate::vec3::{v3_bounded, V3, Vec3Fx};
use vstd::prelude::*;

verus! {

/// The mesh of an axis-aligned box of extents `w`, `h`, `d`: six faces of
/// four vertices each, two triangles per face, with outward unit normals.
pub open spec fn box_mesh_v(w: int, h: int, d: int) -> MeshV {
    let x = tdiv(w, 2);
    let y = tdiv(h, 2);
    let z = tdiv(d, 2);
    let mx = -tdiv(w, 2);
    let my = -tdiv(h, 2);
    let mz = -tdiv(d, 2);
    let one = fx::ONE as int;
    let mone = -(fx::ONE as int);
    MeshV {
        positions: seq![
            V3 { x: x, y: my, z: mz },
            V3 { x: x, y: y, z: mz },
            V3 { x: x, y: y, z: z },
            V3 { x: x, y: my, z: z },
            V3 { x: mx, y: my, z: z },
            V3 { x: mx, y: y, z: z },
            V3 { x: mx, y: y, z: mz },
            V3 { x: mx, y: my, z: mz },
            V3 { x: mx, y: y, z: mz },
            V3 { x: mx, y: y, z: z },
            V3 { x: x, y: y, z: z },
            V3 { x: x, y: y, z: mz },
            V3 { x: mx, y: my, z: z },
            V3 { x: mx, y: my, z: mz },
            V3 { x: x, y: my, z: mz },
            V3 { x: x, y: my, z: z },
            V3 { x: mx, y: my, z: z },
            V3 { x: x, y: my, z: z },
            V3 { x: x, y: y, z: z },
            V3 { x: mx, y: y, z: z },
            V3 { x: x, y: my, z: mz },
            V3 { x: mx, y: my, z: mz },
            V3 { x: mx, y: y, z: mz },
            V3 { x: x, y: y, z: mz },
        ],
        normals: seq![
            V3 { x: one, y: 0, z: 0 },
            V3 { x: one, y: 0, z: 0 },
            V3 { x: one, y: 0, z: 0 },
            V3 { x: one, y: 0, z: 0 },
            V3 { x: mone, y: 0, z: 0 },
            V3 { x: mone, y: 0, z: 0 },
            V3 { x: mone, y: 0, z: 0 },
            V3 { x: mone, y: 0, z: 0 },
            V3 { x: 0, y: one, z: 0 },
            V3 { x: 0, y: one, z: 0 },
            V3 { x: 0, y: one, z: 0 },
            V3 { x: 0, y: one, z: 0 },
            V3 { x: 0, y: mone, z: 0 },
            V3 { x: 0, y: mone, z: 0 },
            V3 { x: 0, y: mone, z: 0 },
            V3 { x: 0, y: mone, z: 0 },
            V3 { x: 0, y: 0, z: one },
            V3 { x: 0, y: 0, z: one },
            V3 { x: 0, y: 0, z: one },
            V3 { x: 0, y: 0, z: one },
            V3 { x: 0, y: 0, z: mone },
            V3 { x: 0, y: 0, z: mone },
            V3 { x: 0, y: 0, z: mone },
            V3 { x: 0, y: 0, z: mone },
        ],
        indices: seq![
            0int, 1, 2, 0, 2, 3,
            4, 5, 6, 4, 6, 7,
            8, 9, 10, 8, 10, 11,
            12, 13, 14, 12, 14, 15,
            16, 17, 18, 16, 18, 19,
            20, 21, 22, 20, 22, 23,
        ],
    }
}

/// Tessellate an axis-aligned box centered on the local origin.
pub fn tessellate_box(w: i128, h: i128, d: i128) -> (r: TriMesh)
    requires
        0 <= w <= fx::COORD_LIMIT,
        0 <= h <= fx::COORD_LIMIT,
        0 <= d <= fx::COORD_LIMIT,
    ensures
        r@ == box_mesh_v(w as int, h as int, d as int),
        mesh_local(r@),
        r@.positions.len() == 24,
        r@.indices.len() == 36,
{
    let x = fx::div_trunc(w, 2);
    let y = fx::div_trunc(h, 2);
    let z = fx::div_trunc(d, 2);
    let mx = -x;
    let my = -y;
    let mz = -z;
    let mone = -fx::ONE;
    let positions: Vec<Vec3Fx> = vec![
        Vec3Fx { x: x, y: my, z: mz },
        Vec3Fx { x: x, y: y, z: mz },
        Vec3Fx { x: x, y: y, z: z },
        Vec3Fx { x: x, y: my, z: z },
        Vec3Fx { x: mx, y: my, z: z },
        Vec3Fx { x: mx, y: y, z: z },
        Vec3Fx { x: mx, y: y, z: mz },
        Vec3Fx { x: mx, y: my, z: mz },
        Vec3Fx { x: mx, y: y, z: mz },
        Vec3Fx { x: mx, y: y, z: z },
        Vec3Fx { x: x, y: y, z: z },
        Vec3Fx { x: x, y: y, z: mz },
        Vec3Fx { x: mx, y: my, z: z },
        Vec3Fx { x: mx, y: my, z: mz },
        Vec3Fx { x: x, y: my, z: mz },
        Vec3Fx { x: x, y: my, z: z },
        Vec3Fx { x: mx, y: my, z: z },
        Vec3Fx { x: x, y: my, z: z },
        Vec3Fx { x: x, y: y, z: z },
        Vec3Fx { x: mx, y: y, z: z },
        Vec3Fx { x: x, y: my, z: mz },
        Vec3Fx { x: mx, y: my, z: mz },
        Vec3Fx { x: mx, y: y, z: mz },
        Vec3Fx { x: x, y: y, z: mz },
    ];
    let normals: Vec<Vec3Fx> = vec![
        Vec3Fx { x: fx::ONE, y: 0, z: 0 },
        Vec3Fx { x: fx::ONE, y: 0, z: 0 },
        Vec3Fx { x: fx::ONE, y: 0, z: 0 },
        Vec3Fx { x: fx::ONE, y: 0, z: 0 },
        Vec3Fx { x: mone, y: 0, z: 0 },
        Vec3Fx { x: mone, y: 0, z: 0 },
        Vec3Fx { x: mone, y: 0, z: 0 },
        Vec3Fx { x: mone, y: 0, z: 0 },
        Vec3Fx { x: 0, y: fx::ONE, z: 0 },
        Vec3Fx { x: 0, y: fx::ONE, z: 0 },
        Vec3Fx { x: 0, y: fx::ONE, z: 0 },
        Vec3Fx { x: 0, y: fx::ONE, z: 0 },
        Vec3Fx { x: 0, y: mone, z: 0 },
        Vec3Fx { x: 0, y: mone, z: 0 },
        Vec3Fx { x: 0, y: mone, z: 0 },
        Vec3Fx { x: 0, y: mone, z: 0 },
        Vec3Fx { x: 0, y: 0, z: fx::ONE },
        Vec3Fx { x: 0, y: 0, z: fx::ONE },
        Vec3Fx { x: 0, y: 0, z: fx::ONE },
        Vec3Fx { x: 0, y: 0, z: fx::ONE },
        Vec3Fx { x: 0, y: 0, z: mone },
        Vec3Fx { x: 0, y: 0, z: mone },
        Vec3Fx { x: 0, y: 0, z: mone },
        Vec3Fx { x: 0, y: 0, z: mone },
    ];
    let indices: Vec<u32> = vec![
        0, 1, 2, 0, 2, 3,
        4, 5, 6, 4, 6, 7,
        8, 9, 10, 8, 10, 11,
        12, 13, 14, 12, 14, 15,
        16, 17, 18, 16, 18, 19,
        20, 21, 22, 20, 22, 23,
    ];
    let r = TriMesh { positions, normals, indices };
    proof {
        fx::lemma_tdiv_abs_le(w as int, 2);
        fx::lemma_tdiv_abs_le(h as int, 2);
        fx::lemma_tdiv_abs_le(d as int, 2);
        let target = box_mesh_v(w as int, h as int, d as int);
        assert(r@.positions =~= target.positions);
        assert(r@.normals =~= target.normals);
        assert(r@.indices =~= target.indices);
        assert(r@.indices.len() % 3 == 0);
        assert forall|i: int| 0 <= i < r@.indices.len() implies 0 <= #[trigger] r@.indices[i]
            < r@.positions.len() by {
            assert(0 <= target.indices[i] < 24);
        }
    }
    r
}

/// Segments in a tessellated cylinder's circumference.
pub const CYL_SEGS: usize = 24;

/// Turn units per cylinder segment.
pub const CYL_STEP: i128 = 61440;

/// The segment after `i`, wrapping at the seam.
pub open spec fn next_seg(i: int) -> int {
    if i + 1 == 24 {
        0
    } else {
        i + 1
    }
}

/// A vertex of a cylinder ring: radius `r` at segment `i`, height `y`.
pub open spec fn cyl_ring_pos(r: int, y: int, i: int) -> V3 {
    V3 {
        x: fxmul(r, cos_units(i * (CYL_STEP as int))),
        y: y,
        z: fxmul(r, sin_units(i * (CYL_STEP as int))),
    }
}

/// The outward radial normal at segment `i`.
pub open spec fn cyl_ring_normal(i: int) -> V3 {
    V3 { x: cos_units(i * (CYL_STEP as int)), y: 0, z: sin_units(i * (CYL_STEP as int)) }
}

/// The vertex index stored at slot `k` of the cylinder's index list: 24 side
/// quads, then the bottom fan, then the top fan.
pub open spec fn cyl_index_at(k: int) -> int {
    if k < 144 {
        let i = k / 6;
        let r = k % 6;
        let s = next_seg(i);
        if r == 0 {
            i
        } else if r == 1 {
            s
        } else if r == 2 {
            24 + s
        } else if r == 3 {
            i
        } else if r == 4 {
            24 + s
        } else {
            24 + i
        }
    } else if k < 216 {
        let i = (k - 144) / 3;
        let r = (k - 144) % 3;
        if r == 0 {
            48
        } else if r == 1 {
            next_seg(i)
        } else {
            i
        }
    } else {
        let i = (k - 216) / 3;
        let r = (k - 216) % 3;
        if r == 0 {
            49
        } else if r == 1 {
            24 + i
        } else {
            24 + next_seg(i)
        }
    }
}

/// The whole cylinder mesh: two rings of 24 vertices with radial normals,
/// two cap centers with axial normals, and the index list of
/// [`cyl_index_at`].
pub open spec fn cyl_mesh_v(rad: int, h: int) -> MeshV {
    let hh = tdiv(h, 2);
    let mhh = -tdiv(h, 2);
    let one = fx::ONE as int;
    let mone = -(fx::ONE as int);
    MeshV {
        positions: Seq::new(
            50,
            |i: int|
                if i < 24 {
                    cyl_ring_pos(rad, mhh, i)
                } else if i < 48 {
                    cyl_ring_pos(rad, hh, i - 24)
                } else if i == 48 {
                    V3 { x: 0, y: mhh, z: 0 }
                } else {
                    V3 { x: 0, y: hh, z: 0 }
                },
        ),
        normals: Seq::new(
            50,
            |i: int|
                if i < 24 {
                    cyl_ring_normal(i)
                } else if i < 48 {
                    cyl_ring_normal(i - 24)
                } else if i == 48 {
                    V3 { x: 0, y: mone, z: 0 }
                } else {
                    V3 { x: 0, y: one, z: 0 }
                },
        ),
        indices: Seq::new(288, |k: int| cyl_index_at(k)),
    }
}

/// Tessellate a cylinder of radius `rad` and height `h`, centered on the
/// local origin with its axis along Y: a ring of side quads between two
/// vertex rings, and a triangle fan to a center vertex on each cap.
pub fn tessellate_cylinder(rad: i128, h: i128) -> (r: TriMesh)
    requires
        0 <= rad <= fx::COORD_LIMIT,
        0 <= h <= fx::COORD_LIMIT,
    ensures
        r@ == cyl_mesh_v(rad as int, h as int),
        mesh_local(r@),
        r@.positions.len() == 2 * CYL_SEGS + 2,
        r@.normals.len() == 2 * CYL_SEGS + 2,
        r@.indices.len() == 12 * CYL_SEGS,
        forall|i: int|
            0 <= i < 24 ==> #[trigger] r@.positions[i] == cyl_ring_pos(
                rad as int,
                -tdiv(h as int, 2),
                i,
            ),
        forall|i: int|
            0 <= i < 24 ==> #[trigger] r@.positions[24 + i] == cyl_ring_pos(
                rad as int,
                tdiv(h as int, 2),
                i,
            ),
        r@.positions[48] == (V3 { x: 0, y: -tdiv(h as int, 2), z: 0 }),
        r@.positions[49] == (V3 { x: 0, y: tdiv(h as int, 2), z: 0 }),
        forall|i: int| 0 <= i < 24 ==> #[trigger] r@.normals[i] == cyl_ring_normal(i),
        forall|i: int| 0 <= i < 24 ==> #[trigger] r@.normals[24 + i] == cyl_ring_normal(i),
        r@.normals[48] == (V3 { x: 0, y: -(fx::ONE as int), z: 0 }),
        r@.normals[49] == (V3 { x: 0, y: fx::ONE as int, z: 0 }),
        forall|k: int| 0 <= k < 288 ==> #[trigger] r@.indices[k] == cyl_index_at(k),
{
    let hh = fx::div_trunc(h, 2);
    proof {
        fx::lemma_tdiv_abs_le(h as int, 2);
    }
    let mut m = TriMesh::new();
    let mut half: usize = 0;
    while half < 2
        invariant
            0 <= rad <= fx::COORD_LIMIT,
            0 <= hh <= fx::COORD_LIMIT,
            hh as int == tdiv(h as int, 2),
            half <= 2,
            m@.positions.len() == half * 24,
            m@.normals.len() == half * 24,
            m@.indices.len() == 0,
            forall|j: int|
                0 <= j < half * 24 ==> #[trigger] m@.positions[j] == cyl_ring_pos(
                    rad as int,
                    if j < 24 {
                        -tdiv(h as int, 2)
                    } else {
                        tdiv(h as int, 2)
                    },
                    if j < 24 {
                        j
                    } else {
                        j - 24
                    },
                ),
            forall|j: int|
                0 <= j < half * 24 ==> #[trigger] m@.normals[j] == cyl_ring_normal(
                    if j < 24 {
                        j
                    } else {
                        j - 24
                    },
                ),
            forall|j: int|
                0 <= j < half * 24 ==> v3_bounded(
                    #[trigger] m@.positions[j],
                    fx::COORD_LIMIT as int,
                ),
            forall|j: int|
                0 <= j < half * 24 ==> v3_bounded(
                    #[trigger] m@.normals[j],
                    crate::vec3::UNIT_LIMIT as int,
                ),
        decreases 2 - half,
    {
        let y: i128 = if half == 0 {
            -hh
        } else {
            hh
        };
        let mut i: usize = 0;
        while i < CYL_SEGS
            invariant
                0 <= rad <= fx::COORD_LIMIT,
                0 <= hh <= fx::COORD_LIMIT,
                hh as int == tdiv(h as int, 2),
                half < 2,
                y as int == if half == 0 {
                    -tdiv(h as int, 2)
                } else {
                    tdiv(h as int, 2)
                },
                i <= 24,
                m@.positions.len() == half * 24 + i,
                m@.normals.len() == half * 24 + i,
                m@.indices.len() == 0,
                forall|j: int|
                    0 <= j < half * 24 + i ==> #[trigger] m@.positions[j] == cyl_ring_pos(
                        rad as int,
                        if j < 24 {
                            -tdiv(h as int, 2)
                        } else {
                            tdiv(h as int, 2)
                        },
                        if j < 24 {
                            j
                        } else {
                            j - 24
                        },
                    ),
                forall|j: int|
                    0 <= j < half * 24 + i ==> #[trigger] m@.normals[j] == cyl_ring_normal(
                        if j < 24 {
                            j
                        } else {
                            j - 24
                        },
                    ),
                forall|j: int|
                    0 <= j < half * 24 + i ==> v3_bounded(
                        #[trigger] m@.positions[j],
                        fx::COORD_LIMIT as int,
                    ),
                forall|j: int|
                    0 <= j < half * 24 + i ==> v3_bounded(
                        #[trigger] m@.normals[j],
                        crate::vec3::UNIT_LIMIT as int,
                    ),
            decreases 24 - i,
        {
            let ang = (i as i128) * CYL_STEP;
            let c = crate::trig::cos_fx(ang);
            let s = crate::trig::sin_fx(ang);
            let px = fx::mul_fx(rad, c);
            let pz = fx::mul_fx(rad, s);
            proof {
                crate::vec3::lemma_prod_bound(rad as int, c as int, fx::COORD_LIMIT as int);
                assert(-(fx::COORD_LIMIT as int) * (fx::ONE as int) <= rad as int * c
                    <= fx::COORD_LIMIT as int * (fx::ONE as int)) by (nonlinear_arith)
                    requires
                        0 <= rad <= fx::COORD_LIMIT,
                        -fx::ONE <= c <= fx::ONE,
                ;
                assert(-(fx::COORD_LIMIT as int) * (fx::ONE as int) <= rad as int * s
                    <= fx::COORD_LIMIT as int * (fx::ONE as int)) by (nonlinear_arith)
                    requires
                        0 <= rad <= fx::COORD_LIMIT,
                        -fx::ONE <= s <= fx::ONE,
                ;
                fx::lemma_tdiv_bound(rad as int * c, fx::ONE as int, fx::COORD_LIMIT as int);
                fx::lemma_tdiv_bound(rad as int * s, fx::ONE as int, fx::COORD_LIMIT as int);
            }
            let vert = Vec3Fx { x: px, y, z: pz };
            let norm = Vec3Fx { x: c, y: 0, z: s };
            proof {
                assert(vert@ == cyl_ring_pos(rad as int, y as int, i as int));
                assert(norm@ == cyl_ring_normal(i as int));
            }
            m.push_vertex(vert, norm);
            i = i + 1;
        }
        half = half + 1;
    }
    let mhh = -hh;
    let mone = -fx::ONE;
    m.push_vertex(Vec3Fx { x: 0, y: mhh, z: 0 }, Vec3Fx { x: 0, y: mone, z: 0 });
    m.push_vertex(Vec3Fx { x: 0, y: hh, z: 0 }, Vec3Fx { x: 0, y: fx::ONE, z: 0 });
    let ghost pos_done = m@;
    let mut k: usize = 0;
    while k < 12 * CYL_SEGS
        invariant
            k <= 288,
            m@.positions == pos_done.positions,
            m@.normals == pos_done.normals,
            m@.indices.len() == k,
            forall|j: int| 0 <= j < k ==> #[trigger] m@.indices[j] == cyl_index_at(j),
        decreases 12 * CYL_SEGS - k,
    {
        let idx: u32 = cyl_index_value(k);
        let ghost pre0 = m@.indices;
        m.push_index(idx);
        proof {
            assert forall|j: int| 0 <= j < k as int + 1 implies #[trigger] m@.indices[j]
                == cyl_index_at(j) by {
                if j < k as int {
                    assert(m@.indices[j] == pre0[j]);
                } else {
                    assert(m@.indices[j] == idx as int);
                }
            }
        }
        k = k + 1;
    }
    proof {
        assert(m@.indices.len() % 3 == 0);
        assert forall|j: int| 0 <= j < m@.indices.len() implies 0 <= #[trigger] m@.indices[j]
            < m@.positions.len() by {
            lemma_cyl_index_range(j);
        }
        let target = cyl_mesh_v(rad as int, h as int);
        assert(m@.positions =~= target.positions);
        assert(m@.normals =~= target.normals);
        assert(m@.indices =~= target.indices);
    }
    m
}

/// The vertex index at slot `k`, computed at run time; it agrees with
/// `cyl_index_at`.
fn cyl_index_value(k: usize) -> (r: u32)
    requires
        k < 288,
    ensures
        r as int == cyl_index_at(k as int),
        r < 50,
{
    proof {
        lemma_cyl_index_range(k as int);
    }
    if k < 144 {
        let i = (k / 6) as u32;
        let rem = k % 6;
        let s: u32 = if i == 23 {
            0
        } else {
            i + 1
        };
        if rem == 0 {
            i
        } else if rem == 1 {
            s
        } else if rem == 2 {
            24 + s
        } else if rem == 3 {
            i
        } else if rem == 4 {
            24 + s
        } else {
            24 + i
        }
    } else if k < 216 {
        let i = ((k - 144) / 3) as u32;
        let s: u32 = if i == 23 {
            0
        } else {
            i + 1
        };
        let rem = (k - 144) % 3;
        if rem == 0 {
            48
        } else if rem == 1 {
            s
        } else {
            i
        }
    } else {
        let i = ((k - 216) / 3) as u32;
        let s: u32 = if i == 23 {
            0
        } else {
            i + 1
        };
        let rem = (k - 216) % 3;
        if rem == 0 {
            49
        } else if rem == 1 {
            24 + i
        } else {
            24 + s
        }
    }
}

/// Every slot of the cylinder index list names one of its 50 vertices, and
/// the fan segments stay under the segment count.
proof fn lemma_cyl_index_range(k: int)
    requires
        0 <= k < 288,
    ensures
        0 <= cyl_index_at(k) < 50,
        k < 144 ==> 0 <= k / 6 < 24,
        144 <= k < 216 ==> 0 <= (k - 144) / 3 < 24,
        216 <= k ==> 0 <= (k - 216) / 3 < 24,
{
    if k < 144 {
        vstd::arithmetic::div_mod::lemma_fundamental_div_mod(k, 6);
        vstd::arithmetic::div_mod::lemma_mod_bound(k, 6);
        assert(0 <= k / 6 < 24) by (nonlinear_arith)
            requires
                0 <= k < 144,
                k == 6 * (k / 6) + k % 6,
                0 <= k % 6 < 6,
        ;
    } else if k < 216 {
        vstd::arithmetic::div_mod::lemma_fundamental_div_mod(k - 144, 3);
        vstd::arithmetic::div_mod::lemma_mod_bound(k - 144, 3);
        assert(0 <= (k - 144) / 3 < 24) by (nonlinear_arith)
            requires
                0 <= k - 144 < 72,
                k - 144 == 3 * ((k - 144) / 3) + (k - 144) % 3,
                0 <= (k - 144) % 3 < 3,
        ;
    } else {
        vstd::arithmetic::div_mod::lemma_fundamental_div_mod(k - 216, 3);
        vstd::arithmetic::div_mod::lemma_mod_bound(k - 216, 3);
        assert(0 <= (k - 216) / 3 < 24) by (nonlinear_arith)
            requires
                0 <= k - 216 < 72,
                k - 216 == 3 * ((k - 216) / 3) + (k - 216) % 3,
                0 <= (k - 216) % 3 < 3,
        ;
    }
}

} // verus!
