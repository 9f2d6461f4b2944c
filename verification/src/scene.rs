//! What a frame draws: the sphere mesh that every body shares, and how much of
//! a scene fits the buffers.

use crate::words::{big_endian, little_endian, raw_bytes};
use vstd::prelude::*;

verus! {

/// Spheres drawn at most.
pub const MAX_SPHERES: usize = 64;

/// Line vertices drawn at most.
pub const MAX_LINE_VERTS: usize = 200_000;

/// Ribbon vertices drawn at most.
pub const MAX_TRI_VERTS: usize = 60_000;

// ---------------------------------------------------------------- mesh

/// Corners of the two triangles of the mesh cell in ring `r` and sector `s`.
pub open spec fn cell_corners(sectors: int, r: int, s: int) -> Seq<int> {
    let a = r * (sectors + 1) + s;
    let b = a + sectors + 1;
    seq![a, b, a + 1, a + 1, b, b + 1]
}

/// `idx` lists the corners of the first `n` mesh cells, ring by ring.
pub open spec fn lists_cells(idx: Seq<u32>, sectors: int, n: int) -> bool {
    &&& idx.len() == 6 * n
    &&& forall|c: int, k: int|
        0 <= c < n && 0 <= k < 6 ==> (#[trigger] idx[6 * c + k]) == #[trigger] cell_corners(
            sectors,
            c / sectors,
            c % sectors,
        )[k]
}

/// A point of the mesh: so far from pole to pole and round the equator.
#[derive(Clone, Copy, Debug, PartialEq, Eq, Structural)]
pub struct MeshPoint {
    pub ring: u32,
    pub sector: u32,
}

/// The point at a place of a mesh.
pub open spec fn mesh_point(sectors: int, i: int) -> MeshPoint {
    MeshPoint { ring: (i / (sectors + 1)) as u32, sector: (i % (sectors + 1)) as u32 }
}

/// Where the point of a ring and a sector stands among the points of a mesh.
pub open spec fn point_place(sectors: int, ring: int, sector: int) -> int {
    ring * (sectors + 1) + sector
}

/// The points of a mesh, ring by ring; both ends of a ring and of the equator
/// are points of their own.
pub fn mesh_points(rings: u32, sectors: u32) -> (r: Vec<MeshPoint>)
    requires
        (rings + 1) * (sectors + 1) <= u32::MAX,
    ensures
        r@.len() == (rings + 1) * (sectors + 1),
        forall|i: int|
            0 <= i < r@.len() ==> #[trigger] r@[i] == (MeshPoint {
                ring: (i / (sectors + 1)) as u32,
                sector: (i % (sectors + 1)) as u32,
            }),
        forall|i: int| 0 <= i < r@.len() ==> #[trigger] r@[i] == mesh_point(sectors as int, i),
        forall|ring: u32, sector: u32|
            ring <= rings && sector <= sectors ==> #[trigger] r@[point_place(
                sectors as int,
                ring as int,
                sector as int,
            )] == (MeshPoint { ring, sector }),
{
    assert(rings + 1 <= u32::MAX && sectors + 1 <= u32::MAX) by (nonlinear_arith)
        requires
            (rings + 1) * (sectors + 1) <= u32::MAX,
            rings >= 0,
            sectors >= 0,
    ;
    let stride: u32 = sectors + 1;
    let total: u32 = (rings + 1) * stride;
    let mut r: Vec<MeshPoint> = Vec::new();
    let mut i: u32 = 0;
    while i < total
        invariant
            i <= total,
            stride == sectors + 1,
            r.len() == i,
            forall|j: int|
                0 <= j < i ==> #[trigger] r@[j] == (MeshPoint {
                    ring: (j / (sectors + 1)) as u32,
                    sector: (j % (sectors + 1)) as u32,
                }),
        decreases total - i,
    {
        r.push(MeshPoint { ring: i / stride, sector: i % stride });
        i = i + 1;
    }
    proof {
        assert forall|ring: u32, sector: u32|
            ring <= rings && sector <= sectors implies #[trigger] r@[point_place(
            sectors as int,
            ring as int,
            sector as int,
        )] == (MeshPoint { ring, sector }) by {
            place_of_point(rings as int, sectors as int, ring as int, sector as int);
        }
    }
    r
}

proof fn place_of_point(rings: int, sectors: int, ring: int, sector: int)
    requires
        0 <= ring <= rings,
        0 <= sector <= sectors,
    ensures
        ({
            let k = point_place(sectors, ring, sector);
            &&& 0 <= k < (rings + 1) * (sectors + 1)
            &&& k / (sectors + 1) == ring
            &&& k % (sectors + 1) == sector
        }),
{
    let w = sectors + 1;
    let k = ring * w + sector;
    assert(0 <= k < (rings + 1) * w) by (nonlinear_arith)
        requires
            0 <= ring <= rings,
            0 <= sector < w,
            k == ring * w + sector,
    ;
    assert(k / w == ring && k % w == sector) by (nonlinear_arith)
        requires
            0 <= sector < w,
            k == ring * w + sector,
    ;
}

/// Corners of the triangles of a sphere mesh.
pub fn mesh_indices(rings: u32, sectors: u32) -> (r: Vec<u32>)
    requires
        (rings + 1) * (sectors + 1) <= u32::MAX,
    ensures
        lists_cells(r@, sectors as int, rings * sectors),
{
    let mut idx: Vec<u32> = Vec::new();
    let ghost w = sectors as int;
    let mut r: u32 = 0;
    assert(0 * w == 0);
    while r < rings
        invariant
            r <= rings,
            w == sectors,
            (rings + 1) * (sectors + 1) <= u32::MAX,
            lists_cells(idx@, w, r * w),
        decreases rings - r,
    {
        let mut s: u32 = 0;
        while s < sectors
            invariant
                r < rings,
                s <= sectors,
                w == sectors,
                (rings + 1) * (sectors + 1) <= u32::MAX,
                lists_cells(idx@, w, r * w + s),
            decreases sectors - s,
        {
            proof {
                corners_fit(rings as int, w, r as int, s as int);
            }
            let stride: u32 = sectors + 1;
            let a: u32 = r * stride + s;
            let b: u32 = a + stride;
            let ghost before = idx@;
            let ghost n = r * w + s;
            idx.push(a);
            idx.push(b);
            idx.push(a + 1);
            idx.push(a + 1);
            idx.push(b);
            idx.push(b + 1);
            proof {
                assert(n / w == r && n % w == s) by (nonlinear_arith)
                    requires
                        n == r * w + s,
                        0 <= s < w,
                ;
                assert forall|c: int, k: int| 0 <= c < n + 1 && 0 <= k < 6 implies (
                #[trigger] idx@[6 * c + k]) == #[trigger] cell_corners(w, c / w, c % w)[k] by {
                    if c < n {
                        assert(idx@[6 * c + k] == before[6 * c + k]);
                    } else {
                        assert(k == 0 || k == 1 || k == 2 || k == 3 || k == 4 || k == 5);
                    }
                }
            }
            s = s + 1;
        }
        assert(r * w + w == (r + 1) * w) by (nonlinear_arith);
        r = r + 1;
    }
    idx
}

proof fn corners_fit(rings: int, sectors: int, r: int, s: int)
    requires
        0 <= r < rings,
        0 <= s < sectors,
        (rings + 1) * (sectors + 1) <= u32::MAX,
    ensures
        sectors + 1 <= u32::MAX,
        0 <= r * (sectors + 1),
        r * (sectors + 1) + s + sectors + 1 + 1 < (rings + 1) * (sectors + 1) + 1,
{
    assert(sectors + 1 <= (rings + 1) * (sectors + 1)) by (nonlinear_arith)
        requires
            rings >= 0,
            sectors >= 0,
    ;
    assert(0 <= r * (sectors + 1)) by (nonlinear_arith)
        requires
            r >= 0,
            sectors >= 0,
    ;
    assert((r + 2) * (sectors + 1) <= (rings + 1) * (sectors + 1)) by (nonlinear_arith)
        requires
            r + 2 <= rings + 1,
            sectors >= 0,
    ;
    assert((r + 2) * (sectors + 1) == r * (sectors + 1) + 2 * (sectors + 1)) by (nonlinear_arith);
}

/// Every corner of the mesh is one of its points.
pub proof fn corners_are_points(rings: int, sectors: int, c: int, k: int)
    requires
        0 <= c < rings * sectors,
        0 < sectors,
        0 <= rings,
        0 <= k < 6,
    ensures
        0 <= cell_corners(sectors, c / sectors, c % sectors)[k] < (rings + 1) * (sectors + 1),
{
    let r = c / sectors;
    let s = c % sectors;
    assert(0 <= r < rings && 0 <= s < sectors) by (nonlinear_arith)
        requires
            0 <= c < rings * sectors,
            0 < sectors,
            r == c / sectors,
            s == c % sectors,
    ;
    assert((r + 2) * (sectors + 1) <= (rings + 1) * (sectors + 1)) by (nonlinear_arith)
        requires
            r + 2 <= rings + 1,
            sectors >= 0,
    ;
    assert((r + 2) * (sectors + 1) == r * (sectors + 1) + 2 * (sectors + 1)) by (nonlinear_arith);
    assert(0 <= r * (sectors + 1)) by (nonlinear_arith)
        requires
            r >= 0,
            sectors >= 0,
    ;
    assert(k == 0 || k == 1 || k == 2 || k == 3 || k == 4 || k == 5);
}

/// The index buffer of a sphere mesh.
pub fn index_bytes(rings: u32, sectors: u32) -> (r: Vec<u8>)
    requires
        (rings + 1) * (sectors + 1) <= u32::MAX,
    ensures
        exists|idx: Seq<u32>| #[trigger]
            lists_cells(idx, sectors as int, rings * sectors) && r@.len() == 4 * idx.len() && (
            little_endian(idx, r@) || big_endian(idx, r@)),
{
    let idx: Vec<u32> = mesh_indices(rings, sectors);
    let r: Vec<u8> = raw_bytes(&idx);
    assert(lists_cells(idx@, sectors as int, rings * sectors));
    r
}

// ---------------------------------------------------------------- frame

/// A run of line vertices drawn as one strip.
#[derive(Clone, Copy, Debug, PartialEq, Eq, Structural)]
pub struct Strip {
    pub start: u32,
    pub count: u32,
}

/// How much of a scene is drawn.
pub struct FramePlan {
    pub spheres: u32,
    pub line_verts: usize,
    pub strips: Vec<Strip>,
    /// Ribbon vertices uploaded.
    pub tri_verts: usize,
    /// Ribbon vertices drawn: whole triangles only.
    pub tri_count: u32,
}

/// The smaller of two counts.
pub open spec fn capped(n: int, cap: int) -> int {
    if n < cap {
        n
    } else {
        cap
    }
}

impl Strip {
    /// The strip lies within `n` vertices and has an edge.
    pub open spec fn drawable(self, n: int) -> bool {
        self.start + self.count <= n && self.count >= 2
    }
}

/// The drawable strips among the first `n`.
pub open spec fn drawable_strips(strips: Seq<Strip>, verts: int, n: int) -> Seq<Strip>
    decreases n,
{
    if n <= 0 {
        Seq::empty()
    } else if strips[n - 1].drawable(verts) {
        drawable_strips(strips, verts, n - 1).push(strips[n - 1])
    } else {
        drawable_strips(strips, verts, n - 1)
    }
}

/// How much of a scene is drawn, from how much of it there is.
pub fn plan_frame(
    spheres: usize,
    line_verts: usize,
    strips: &Vec<Strip>,
    tri_verts: usize,
) -> (r: FramePlan)
    requires
        forall|i: int|
            0 <= i < strips.len() ==> (#[trigger] strips@[i]).start + strips@[i].count <= u32::MAX,
    ensures
        r.spheres == capped(spheres as int, MAX_SPHERES as int),
        r.line_verts == capped(line_verts as int, MAX_LINE_VERTS as int),
        r.strips@ == drawable_strips(strips@, r.line_verts as int, strips@.len() as int),
        r.tri_verts == capped(tri_verts as int, MAX_TRI_VERTS as int),
        r.tri_count == r.tri_verts - r.tri_verts as int % 3,
{
    let n: usize = if spheres < MAX_SPHERES {
        spheres
    } else {
        MAX_SPHERES
    };
    let ln: usize = if line_verts < MAX_LINE_VERTS {
        line_verts
    } else {
        MAX_LINE_VERTS
    };
    let tn: usize = if tri_verts < MAX_TRI_VERTS {
        tri_verts
    } else {
        MAX_TRI_VERTS
    };
    let mut kept: Vec<Strip> = Vec::new();
    let mut i: usize = 0;
    while i < strips.len()
        invariant
            i <= strips.len(),
            ln <= MAX_LINE_VERTS,
            forall|j: int|
                0 <= j < strips.len() ==> (#[trigger] strips@[j]).start + strips@[j].count
                    <= u32::MAX,
            kept@ == drawable_strips(strips@, ln as int, i as int),
        decreases strips.len() - i,
    {
        let s: Strip = strips[i];
        if (s.start + s.count) as usize <= ln && s.count >= 2 {
            kept.push(s);
        }
        i = i + 1;
    }
    FramePlan {
        spheres: n as u32,
        line_verts: ln,
        strips: kept,
        tri_verts: tn,
        tri_count: (tn - tn % 3) as u32,
    }
}

/// Nothing is drawn past what was uploaded.
pub proof fn strips_stay_within(strips: Seq<Strip>, verts: int, n: int, i: int)
    requires
        0 <= n <= strips.len(),
        0 <= i < drawable_strips(strips, verts, n).len(),
    ensures
        drawable_strips(strips, verts, n)[i].drawable(verts),
        strips.contains(drawable_strips(strips, verts, n)[i]),
    decreases n,
{
    let all = drawable_strips(strips, verts, n);
    if n > 0 {
        let prev = drawable_strips(strips, verts, n - 1);
        if i < prev.len() {
            strips_stay_within(strips, verts, n - 1, i);
            assert(all[i] == prev[i]);
        } else {
            assert(all[i] == strips[n - 1]);
        }
    }
}

/// A strip is drawn where it has two vertices or more and all of them were uploaded:
/// its last vertex is one of them and not its first.
pub proof fn strips_need_an_edge(s: Strip, verts: int)
    ensures
        s.drawable(verts) <==> s.start < s.start + s.count - 1 && s.start + s.count - 1 < verts,
{
}

/// Every strip that can be drawn is drawn, in the order of the scene.
pub proof fn no_strip_is_lost(strips: Seq<Strip>, verts: int, n: int, i: int)
    requires
        0 <= i < n <= strips.len(),
        strips[i].drawable(verts),
    ensures
        ({
            let p = drawable_strips(strips, verts, i).len() as int;
            p < drawable_strips(strips, verts, n).len() && drawable_strips(strips, verts, n)[p]
                == strips[i]
        }),
    decreases n,
{
    if i < n - 1 {
        no_strip_is_lost(strips, verts, n - 1, i);
    }
}

/// A cap lets through what it is above of, and is never passed.
pub proof fn caps_hold(n: int, cap: int)
    ensures
        capped(n, cap) <= n && capped(n, cap) <= cap,
        n <= cap ==> capped(n, cap) == n,
        n >= cap ==> capped(n, cap) == cap,
{
}

/// The two triangles of a mesh cell share the edge across it, and between them touch
/// its four corners: the point of the cell, the next in its sector, and the two of
/// the ring behind.
pub proof fn cells_have_two_triangles(sectors: int, r: int, s: int)
    ensures
        ({
            let q = cell_corners(sectors, r, s);
            let at = |ring: int, sector: int| ring * (sectors + 1) + sector;
            &&& q.len() == 6
            &&& q[0] == at(r, s)
            &&& q[1] == q[4] == at(r + 1, s)
            &&& q[2] == q[3] == at(r, s + 1)
            &&& q[5] == at(r + 1, s + 1)
        }),
{
    assert((r + 1) * (sectors + 1) == r * (sectors + 1) + sectors + 1) by (nonlinear_arith);
}

/// Every ring has its points in a row, one more than sectors: the point of a ring and
/// a sector is found at its place, and the next place is the next sector.
pub proof fn points_stand_in_rows(rings: int, sectors: int, ring: int, sector: int)
    requires
        0 <= ring <= rings,
        0 <= sector <= sectors,
        (rings + 1) * (sectors + 1) <= u32::MAX,
    ensures
        mesh_point(sectors, point_place(sectors, ring, sector)) == (MeshPoint {
            ring: ring as u32,
            sector: sector as u32,
        }),
        0 <= point_place(sectors, ring, sector) < (rings + 1) * (sectors + 1),
        point_place(sectors, ring, sector + 1) == point_place(sectors, ring, sector) + 1,
{
    place_of_point(rings, sectors, ring, sector);
}

/// There is room for every body three times, and for three ribbon vertices to ten of
/// a line.
pub proof fn buffers_have_room()
    ensures
        MAX_SPHERES == 3 * crate::bodies::BODY_COUNT + 1,
        3 * MAX_LINE_VERTS == 10 * MAX_TRI_VERTS,
        MAX_TRI_VERTS % 3 == 0,
{
}

} // verus!
