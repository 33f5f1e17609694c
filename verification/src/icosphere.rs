//! Geodesic subdivision of the regular icosahedron into a triangle soup.
//!
//! The twenty base faces are each cut into `res * res` small triangles,
//! `res = 2^subdivisions`, walking columns away from one corner and rows
//! across each column, upward- and downward-pointing triangles alternating
//! by row parity. Every emitted corner is an exact barycentric combination
//! of the face's three base vertices with integer weights summing to `res`,
//! so the mesh here is pure integer data: a renderer multiplies the weights
//! into the twelve base vertex positions, divides by `res`, and projects
//! the result out to the icosahedron's circumscribed radius.
//!
//! Corners are emitted in a fixed winding per face band — right, apex, left
//! on the five north-cap and five south-cap faces; apex, right, left on the
//! ten equatorial faces — which keeps every triangle facing outward.
//! Vertices are deliberately not shared between triangles: the index buffer
//! is the identity, and flat shading falls out of the duplication.

use vstd::prelude::*;
use crate::fixed::{lemma_isqrt_bounds, lemma_isqrt_unique, spec_isqrt};

verus! {

/// One emitted corner: the ids of the owning face's three base vertices
/// (`0..12`) and the integer barycentric weights of this corner against
/// them. The weights sum to the face resolution.
#[derive(Clone, Copy, PartialEq, Eq, Structural, Debug)]
pub struct IcoVertex {
    pub v0: u8,
    pub v1: u8,
    pub v2: u8,
    pub w0: u32,
    pub w1: u32,
    pub w2: u32,
}

/// A non-indexed icosphere triangle list: `vertices[3k..3k+3]` is triangle
/// `k`, and `indices` is the identity.
#[derive(Debug)]
pub struct IcoMesh {
    pub vertices: Vec<IcoVertex>,
    pub indices: Vec<u32>,
}

/// `2^s`.
pub open spec fn pow2(s: nat) -> nat
    decreases s,
{
    if s == 0 {
        1
    } else {
        2 * pow2((s - 1) as nat)
    }
}

/// `4^s`.
pub open spec fn pow4(s: nat) -> nat
    decreases s,
{
    if s == 0 {
        1
    } else {
        4 * pow4((s - 1) as nat)
    }
}

/// `4^s` is `2^s` squared.
pub proof fn lemma_pow4_is_pow2_squared(s: nat)
    ensures
        pow4(s) == pow2(s) * pow2(s),
    decreases s,
{
    if s == 0 {
        assert(pow4(s) == pow2(s) * pow2(s)) by (nonlinear_arith)
            requires
                pow4(s) == 1,
                pow2(s) == 1,
        ;
    } else {
        lemma_pow4_is_pow2_squared((s - 1) as nat);
        let q = pow2((s - 1) as nat);
        assert(pow4(s) == pow2(s) * pow2(s)) by (nonlinear_arith)
            requires
                pow4(s) == 4 * pow4((s - 1) as nat),
                pow4((s - 1) as nat) == q * q,
                pow2(s) == 2 * q,
        ;
    }
}

/// Powers of two are positive.
pub proof fn lemma_pow2_pos(s: nat)
    ensures
        pow2(s) >= 1,
    decreases s,
{
    if s > 0 {
        lemma_pow2_pos((s - 1) as nat);
    }
}

/// Powers of two grow with the exponent.
pub proof fn lemma_pow2_mono(a: nat, b: nat)
    requires
        a <= b,
    ensures
        pow2(a) <= pow2(b),
    decreases b,
{
    if a < b {
        lemma_pow2_mono(a, (b - 1) as nat);
        lemma_pow2_pos((b - 1) as nat);
    }
}

/// `2^s` for `s <= 13` fits comfortably in a `u32`.
pub proof fn lemma_pow2_13_bound(s: nat)
    requires
        s <= 13,
    ensures
        1 <= pow2(s) <= 8192,
{
    lemma_pow2_pos(s);
    lemma_pow2_mono(s, 13);
    assert(pow2(13) == 8192) by {
        reveal_with_fuel(pow2, 15);
    }
}

/// Base-vertex ids of each of the twenty faces. Faces `0..5` share the
/// north apex (vertex 0), faces `5..15` form the equatorial band, and faces
/// `15..20` share the south apex (vertex 11).
pub open spec fn spec_face_corners(face: int) -> (int, int, int) {
    if face == 0 {
        (0, 1, 2)
    } else if face == 1 {
        (0, 2, 3)
    } else if face == 2 {
        (0, 3, 4)
    } else if face == 3 {
        (0, 4, 5)
    } else if face == 4 {
        (0, 5, 1)
    } else if face == 5 {
        (6, 1, 7)
    } else if face == 6 {
        (7, 1, 2)
    } else if face == 7 {
        (7, 2, 8)
    } else if face == 8 {
        (8, 2, 3)
    } else if face == 9 {
        (8, 3, 9)
    } else if face == 10 {
        (9, 3, 4)
    } else if face == 11 {
        (9, 4, 10)
    } else if face == 12 {
        (10, 4, 5)
    } else if face == 13 {
        (10, 5, 6)
    } else if face == 14 {
        (6, 5, 1)
    } else if face == 15 {
        (11, 10, 9)
    } else if face == 16 {
        (11, 9, 8)
    } else if face == 17 {
        (11, 8, 7)
    } else if face == 18 {
        (11, 7, 6)
    } else {
        (11, 6, 10)
    }
}

/// Integer barycentric weights of the three corners of the small triangle
/// at `(col, row)`: logical corner `0` is nearest the face's first base
/// vertex, `1` sits one column further out, and `2` one row across. Even
/// rows are upward-pointing triangles, odd rows downward-pointing.
pub open spec fn spec_corner_weights(res: int, col: int, row: int, j: int) -> (int, int, int) {
    if row % 2 == 0 {
        if j == 0 {
            (res - col, col - row / 2, row / 2)
        } else if j == 1 {
            (res - col - 1, col + 1 - row / 2, row / 2)
        } else {
            (res - col - 1, col - row / 2, row / 2 + 1)
        }
    } else {
        if j == 0 {
            (res - col - 1, col - (row - 1) / 2, (row - 1) / 2 + 1)
        } else if j == 1 {
            (res - col, col - (row + 1) / 2, (row + 1) / 2)
        } else {
            (res - col, col - (row - 1) / 2, (row - 1) / 2)
        }
    }
}

/// Which logical corner the `k`-th emitted vertex of a triangle is: the
/// equatorial band emits apex, right, left (`0, 1, 2`); the cap bands emit
/// right, apex, left (`1, 0, 2`).
pub open spec fn spec_emit_order(face: int, k: int) -> int {
    if 5 <= face < 15 {
        k
    } else {
        if k == 0 {
            1
        } else if k == 1 {
            0
        } else {
            2
        }
    }
}

/// The `k`-th emitted vertex of the small triangle at `(col, row)` of the
/// given face.
pub open spec fn spec_ico_vertex(face: int, res: int, col: int, row: int, k: int) -> IcoVertex {
    let c = spec_face_corners(face);
    let w = spec_corner_weights(res, col, row, spec_emit_order(face, k));
    IcoVertex {
        v0: c.0 as u8,
        v1: c.1 as u8,
        v2: c.2 as u8,
        w0: w.0 as u32,
        w1: w.1 as u32,
        w2: w.2 as u32,
    }
}

/// The first `n` triangles of a face, three vertices each. Triangle `t`
/// lives in column `isqrt(t)` at row `t - isqrt(t)^2`: each column `c`
/// holds `2c + 1` triangles, so the columns partition the indices at the
/// perfect squares.
pub open spec fn spec_face_tris(face: int, res: int, n: nat) -> Seq<IcoVertex>
    decreases n,
{
    if n == 0 {
        Seq::empty()
    } else {
        let t = (n - 1) as nat;
        let col = spec_isqrt(t) as int;
        let row = t - col * col;
        spec_face_tris(face, res, t) + seq![
            spec_ico_vertex(face, res, col, row, 0),
            spec_ico_vertex(face, res, col, row, 1),
            spec_ico_vertex(face, res, col, row, 2),
        ]
    }
}

/// The triangles of the first `nf` faces, concatenated.
pub open spec fn spec_ico_faces(res: int, nf: nat) -> Seq<IcoVertex>
    decreases nf,
{
    if nf == 0 {
        Seq::empty()
    } else {
        spec_ico_faces(res, (nf - 1) as nat) + spec_face_tris((nf - 1) as int, res, (res * res) as nat)
    }
}

/// The whole icosphere vertex stream at a given subdivision level.
pub open spec fn spec_ico_vertices(s: nat) -> Seq<IcoVertex> {
    spec_ico_faces(pow2(s) as int, 20)
}

/// Each face contributes three vertices per triangle.
pub proof fn lemma_face_tris_len(face: int, res: int, n: nat)
    ensures
        spec_face_tris(face, res, n).len() == 3 * n,
    decreases n,
{
    if n > 0 {
        lemma_face_tris_len(face, res, (n - 1) as nat);
    }
}

/// The first `nf` faces hold `3 * res^2` vertices each.
pub proof fn lemma_ico_faces_len(res: int, nf: nat)
    requires
        res >= 0,
    ensures
        spec_ico_faces(res, nf).len() == nf * (3 * (res * res)),
    decreases nf,
{
    vstd::arithmetic::mul::lemma_mul_nonnegative(res, res);
    if nf == 0 {
    } else {
        lemma_ico_faces_len(res, (nf - 1) as nat);
        lemma_face_tris_len((nf - 1) as int, res, (res * res) as nat);
        assert((nf - 1) * (3 * (res * res)) + 3 * (res * res) == nf * (3 * (res * res)))
            by (nonlinear_arith);
    }
}

/// The icosphere at subdivision `s` holds exactly `60 * 4^s` vertices: the
/// twenty base faces times `4^s` subdivision triangles times three corners.
pub proof fn lemma_ico_vertex_count(s: nat)
    ensures
        spec_ico_vertices(s).len() == 60 * pow4(s),
{
    lemma_ico_faces_len(pow2(s) as int, 20);
    lemma_pow4_is_pow2_squared(s);
    let r = pow2(s) as int;
    assert(20 * (3 * (r * r)) == 60 * (r * r)) by (nonlinear_arith);
}

/// A well-formed emitted vertex: its corner ids name base vertices and its
/// weights are a true barycentric decomposition at resolution `res` —
/// nonnegative and summing to exactly `res`.
pub open spec fn spec_vertex_wf(v: IcoVertex, res: int) -> bool {
    &&& v.v0 < 12
    &&& v.v1 < 12
    &&& v.v2 < 12
    &&& v.w0 <= res
    &&& v.w1 <= res
    &&& v.w2 <= res
    &&& v.w0 + v.w1 + v.w2 == res
}

/// Every vertex a triangle emits is well-formed.
pub proof fn lemma_ico_vertex_wf(face: int, res: int, col: int, row: int, k: int)
    requires
        0 <= face < 20,
        1 <= res <= 0xFFFF_FFFF,
        0 <= col < res,
        0 <= row <= 2 * col,
        0 <= k < 3,
    ensures
        spec_vertex_wf(spec_ico_vertex(face, res, col, row, k), res),
{
}

/// Every vertex in a face's triangle prefix is well-formed.
pub proof fn lemma_face_tris_wf(face: int, res: int, n: nat)
    requires
        0 <= face < 20,
        1 <= res <= 0xFFFF_FFFF,
        n <= res * res,
    ensures
        forall|i: int|
            0 <= i < spec_face_tris(face, res, n).len() ==> spec_vertex_wf(
                #[trigger] spec_face_tris(face, res, n)[i],
                res,
            ),
    decreases n,
{
    if n > 0 {
        lemma_face_tris_wf(face, res, (n - 1) as nat);
        let t = (n - 1) as nat;
        let col = spec_isqrt(t) as int;
        let row = t - col * col;
        lemma_isqrt_bounds(t);
        assert(col < res && 0 <= row <= 2 * col) by (nonlinear_arith)
            requires
                col == spec_isqrt(t),
                col * col <= t,
                t < (col + 1) * (col + 1),
                t < res * res,
                row == t - col * col,
                1 <= res,
        ;
        lemma_ico_vertex_wf(face, res, col, row, 0);
        lemma_ico_vertex_wf(face, res, col, row, 1);
        lemma_ico_vertex_wf(face, res, col, row, 2);
        let prefix = spec_face_tris(face, res, t);
        let whole = spec_face_tris(face, res, n);
        assert forall|i: int| 0 <= i < whole.len() implies spec_vertex_wf(
            #[trigger] whole[i],
            res,
        ) by {
            if i < prefix.len() {
                assert(whole[i] == prefix[i]);
            }
        }
    }
}

/// Every vertex across a prefix of the faces is well-formed.
pub proof fn lemma_ico_faces_wf(res: int, nf: nat)
    requires
        1 <= res <= 0xFFFF_FFFF,
        nf <= 20,
    ensures
        forall|i: int|
            0 <= i < spec_ico_faces(res, nf).len() ==> spec_vertex_wf(
                #[trigger] spec_ico_faces(res, nf)[i],
                res,
            ),
    decreases nf,
{
    if nf > 0 {
        lemma_ico_faces_wf(res, (nf - 1) as nat);
        vstd::arithmetic::mul::lemma_mul_nonnegative(res, res);
        lemma_face_tris_wf((nf - 1) as int, res, (res * res) as nat);
        let prefix = spec_ico_faces(res, (nf - 1) as nat);
        let tail = spec_face_tris((nf - 1) as int, res, (res * res) as nat);
        let whole = spec_ico_faces(res, nf);
        assert forall|i: int| 0 <= i < whole.len() implies spec_vertex_wf(
            #[trigger] whole[i],
            res,
        ) by {
            if i < prefix.len() {
                assert(whole[i] == prefix[i]);
            } else {
                assert(whole[i] == tail[i - prefix.len()]);
            }
        }
    }
}

/// Every vertex of the icosphere stream is a barycentric point of one of
/// the twenty faces: corner ids below 12 and weights summing to `2^s`.
pub proof fn lemma_ico_vertices_wf(s: nat)
    requires
        s <= 13,
    ensures
        forall|i: int|
            0 <= i < spec_ico_vertices(s).len() ==> spec_vertex_wf(
                #[trigger] spec_ico_vertices(s)[i],
                pow2(s) as int,
            ),
{
    lemma_pow2_13_bound(s);
    lemma_ico_faces_wf(pow2(s) as int, 20);
}

/// `4^s` for `s <= 13` keeps the vertex count within `u32`.
pub proof fn lemma_pow4_13_bound(s: nat)
    requires
        s <= 13,
    ensures
        1 <= pow4(s) <= 67108864,
{
    lemma_pow4_is_pow2_squared(s);
    lemma_pow2_13_bound(s);
    assert(pow2(s) * pow2(s) <= 67108864) by (nonlinear_arith)
        requires
            1 <= pow2(s) <= 8192,
    ;
    assert(pow2(s) * pow2(s) >= 1) by (nonlinear_arith)
        requires
            1 <= pow2(s),
    ;
}

/// Base-vertex ids of a face, executably.
fn face_corners(face: usize) -> (r: (u8, u8, u8))
    requires
        face < 20,
    ensures
        (r.0 as int, r.1 as int, r.2 as int) == spec_face_corners(face as int),
{
    if face == 0 {
        (0, 1, 2)
    } else if face == 1 {
        (0, 2, 3)
    } else if face == 2 {
        (0, 3, 4)
    } else if face == 3 {
        (0, 4, 5)
    } else if face == 4 {
        (0, 5, 1)
    } else if face == 5 {
        (6, 1, 7)
    } else if face == 6 {
        (7, 1, 2)
    } else if face == 7 {
        (7, 2, 8)
    } else if face == 8 {
        (8, 2, 3)
    } else if face == 9 {
        (8, 3, 9)
    } else if face == 10 {
        (9, 3, 4)
    } else if face == 11 {
        (9, 4, 10)
    } else if face == 12 {
        (10, 4, 5)
    } else if face == 13 {
        (10, 5, 6)
    } else if face == 14 {
        (6, 5, 1)
    } else if face == 15 {
        (11, 10, 9)
    } else if face == 16 {
        (11, 9, 8)
    } else if face == 17 {
        (11, 8, 7)
    } else if face == 18 {
        (11, 7, 6)
    } else {
        (11, 6, 10)
    }
}

/// The `k`-th emitted vertex of the small triangle at `(col, row)`,
/// executably.
fn emitted_vertex(face: usize, res: u32, col: u32, row: u32, k: usize) -> (v: IcoVertex)
    requires
        face < 20,
        k < 3,
        col < res,
        row <= 2 * col,
        res <= 8192,
    ensures
        v == spec_ico_vertex(face as int, res as int, col as int, row as int, k as int),
{
    let c = face_corners(face);
    let slot: usize = if face >= 5 && face < 15 {
        k
    } else if k == 0 {
        1
    } else if k == 1 {
        0
    } else {
        2
    };
    let weights: (u32, u32, u32) = if row % 2 == 0 {
        if slot == 0 {
            (res - col, col - row / 2, row / 2)
        } else if slot == 1 {
            (res - col - 1, col + 1 - row / 2, row / 2)
        } else {
            (res - col - 1, col - row / 2, row / 2 + 1)
        }
    } else {
        if slot == 0 {
            (res - col - 1, col - (row - 1) / 2, (row - 1) / 2 + 1)
        } else if slot == 1 {
            (res - col, col - (row + 1) / 2, (row + 1) / 2)
        } else {
            (res - col, col - (row - 1) / 2, (row - 1) / 2)
        }
    };
    IcoVertex { v0: c.0, v1: c.1, v2: c.2, w0: weights.0, w1: weights.1, w2: weights.2 }
}

/// Build the icosphere triangle soup at the given subdivision level: the
/// full vertex stream of `spec_ico_vertices`, so `60 * 4^subdivisions`
/// corners, with the identity index buffer. The level is capped so the
/// vertex count fits the `u32` index type.
pub fn build_icosphere(subdivisions: u32) -> (m: IcoMesh)
    requires
        subdivisions <= 13,
    ensures
        m.vertices@ == spec_ico_vertices(subdivisions as nat),
        m.vertices@.len() == 60 * pow4(subdivisions as nat),
        m.indices@.len() == m.vertices@.len(),
        forall|i: int| 0 <= i < m.indices@.len() ==> m.indices@[i] == i,
{
    let ghost s = subdivisions as nat;
    let mut res: u32 = 1;
    let mut lvl: u32 = 0;
    while lvl < subdivisions
        invariant
            lvl <= subdivisions <= 13,
            res == pow2(lvl as nat),
        decreases subdivisions - lvl,
    {
        proof {
            lemma_pow2_13_bound((lvl + 1) as nat);
        }
        res = 2 * res;
        lvl = lvl + 1;
    }
    proof {
        lemma_pow2_13_bound(s);
    }
    let ghost r = pow2(s) as int;
    let mut vertices: Vec<IcoVertex> = Vec::new();
    let mut face: usize = 0;
    while face < 20
        invariant
            face <= 20,
            res == pow2(s),
            1 <= res <= 8192,
            vertices@ == spec_ico_faces(r, face as nat),
            r == res as int,
        decreases 20 - face,
    {
        let mut col: u32 = 0;
        let mut t: usize = 0;
        while col < res
            invariant
                face < 20,
                res == pow2(s),
                1 <= res <= 8192,
                r == res as int,
                col <= res,
                t == col * col,
                vertices@ == spec_ico_faces(r, face as nat) + spec_face_tris(
                    face as int,
                    r,
                    t as nat,
                ),
            decreases res - col,
        {
            let mut row: u32 = 0;
            let bound: u32 = 2 * col + 1;
            while row < bound
                invariant
                    face < 20,
                    res == pow2(s),
                    1 <= res <= 8192,
                    r == res as int,
                    col < res,
                    bound == 2 * col + 1,
                    row <= bound,
                    t == col * col + row,
                    vertices@ == spec_ico_faces(r, face as nat) + spec_face_tris(
                        face as int,
                        r,
                        t as nat,
                    ),
                decreases bound - row,
            {
                proof {
                    assert(col * col <= t && t < (col + 1) * (col + 1)) by (nonlinear_arith)
                        requires
                            t == col * col + row,
                            row <= 2 * col,
                    ;
                    lemma_isqrt_unique(t as nat, col as nat);
                }
                let va = emitted_vertex(face, res, col, row, 0);
                let vb = emitted_vertex(face, res, col, row, 1);
                let vc = emitted_vertex(face, res, col, row, 2);
                vertices.push(va);
                vertices.push(vb);
                vertices.push(vc);
                proof {
                    assert(vertices@ =~= spec_ico_faces(r, face as nat) + spec_face_tris(
                        face as int,
                        r,
                        (t + 1) as nat,
                    ));
                }
                proof {
                    assert(t + 1 <= 67108864) by (nonlinear_arith)
                        requires
                            t == col * col + row,
                            row <= 2 * col,
                            col < res,
                            res <= 8192,
                    ;
                }
                t = t + 1;
                row = row + 1;
            }
            proof {
                assert(col * col + (2 * col + 1) == (col + 1) * (col + 1)) by (nonlinear_arith);
            }
            col = col + 1;
        }
        proof {
            assert(t == res * res);
            assert(vertices@ =~= spec_ico_faces(r, (face + 1) as nat));
        }
        face = face + 1;
    }
    proof {
        lemma_ico_vertex_count(s);
        lemma_pow4_13_bound(s);
    }
    let n: usize = vertices.len();
    let mut indices: Vec<u32> = Vec::new();
    let mut j: usize = 0;
    while j < n
        invariant
            j <= n,
            n == vertices@.len(),
            n <= 4026531840,
            indices@.len() == j,
            forall|k: int| 0 <= k < j ==> indices@[k] == k,
        decreases n - j,
    {
        indices.push(j as u32);
        j = j + 1;
    }
    IcoMesh { vertices, indices }
}

} // verus!
