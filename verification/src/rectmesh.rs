//! A pole-capped, ring-structured sphere-like mesh over a rectangular
//! height grid.
//!
//! Vertex 0 is the north pole; each interior grid row `1 ..= v - 2`
//! contributes one ring of `h` vertices; the final vertex is the south
//! pole. The index buffer fans the north pole against the first ring, ties
//! each pair of adjacent rings together with two triangles per column —
//! wrapping the last column back to the first — and fans the south pole
//! against the last ring.
//!
//! The mesh here is integer data: each vertex carries its grid row, column
//! and fixed-point height. A renderer places ring vertices by an angle
//! proportional to the column and the lens-shaped radial taper
//! `r(t) = 2 * sqrt(0.25 - (t - 0.5)^2)` over the normalized row parameter
//! `t` — a profile that vanishes at the poles, kept as is rather than
//! corrected to a great circle — and puts the poles on the vertical axis.

use vstd::prelude::*;

verus! {

/// One mesh vertex: grid row, grid column, and the fixed-point height that
/// scales its position. Row 0 is the north pole, row `v - 1` the south
/// pole; both use column 0.
#[derive(Clone, Copy, PartialEq, Eq, Structural, Debug)]
pub struct RectVertex {
    pub row: u32,
    pub col: u32,
    pub height: u64,
}

/// An indexed triangle-list mesh over a rectangular grid.
#[derive(Debug)]
pub struct RectMesh {
    pub vertices: Vec<RectVertex>,
    pub indices: Vec<u32>,
}

/// Rejected configuration: both grid dimensions must be at least 3.
#[derive(Clone, Copy, PartialEq, Eq, Structural, Debug)]
pub enum ConfigError {
    GridTooSmall,
}

/// The rows of a vector-of-vectors grid, as a sequence of sequences.
pub open spec fn grid_view(heights: Seq<Vec<u64>>) -> Seq<Seq<u64>> {
    Seq::new(heights.len(), |i: int| heights[i]@)
}

/// The first `nj` vertices of interior ring `row`.
pub open spec fn spec_ring(hs: Seq<Seq<u64>>, row: int, nj: nat) -> Seq<RectVertex>
    decreases nj,
{
    if nj == 0 {
        Seq::empty()
    } else {
        let j = (nj - 1) as int;
        spec_ring(hs, row, (nj - 1) as nat) + seq![
            RectVertex { row: row as u32, col: j as u32, height: hs[row][j] },
        ]
    }
}

/// The first `ni` interior rings (grid rows `1 ..= ni`), concatenated.
pub open spec fn spec_rings(hs: Seq<Seq<u64>>, h: int, ni: nat) -> Seq<RectVertex>
    decreases ni,
{
    if ni == 0 {
        Seq::empty()
    } else {
        spec_rings(hs, h, (ni - 1) as nat) + spec_ring(hs, ni as int, h as nat)
    }
}

/// The whole vertex stream: north pole, the `v - 2` interior rings, south
/// pole. The poles take their height from column 0 of their grid row.
pub open spec fn spec_rect_vertices(hs: Seq<Seq<u64>>, h: int, v: int) -> Seq<RectVertex> {
    seq![RectVertex { row: 0, col: 0, height: hs[0][0] }] + spec_rings(hs, h, (v - 2) as nat)
        + seq![RectVertex { row: (v - 1) as u32, col: 0, height: hs[v - 1][0] }]
}

/// The first `n` triangles of the north-pole fan: triangle `i` ties ring-0
/// vertices `i` and `i + 1` (wrapping) to the pole.
pub open spec fn spec_top_fan(h: int, n: nat) -> Seq<u32>
    decreases n,
{
    if n == 0 {
        Seq::empty()
    } else {
        let i = (n - 1) as int;
        spec_top_fan(h, (n - 1) as nat) + seq![
            (((i + 1) % h) + 1) as u32,
            (i + 1) as u32,
            0u32,
        ]
    }
}

/// The first `nj` quads of the band between interior rings `i` and `i + 1`
/// (0-based ring numbers), two triangles each, wrapping in the column.
pub open spec fn spec_band(h: int, i: int, nj: nat) -> Seq<u32>
    decreases nj,
{
    if nj == 0 {
        Seq::empty()
    } else {
        let j = (nj - 1) as int;
        spec_band(h, i, (nj - 1) as nat) + seq![
            ((i + 1) * h + (j + 1) % h + 1) as u32,
            ((i + 1) * h + j + 1) as u32,
            (i * h + j + 1) as u32,
            (i * h + (j + 1) % h + 1) as u32,
            ((i + 1) * h + (j + 1) % h + 1) as u32,
            (i * h + j + 1) as u32,
        ]
    }
}

/// The first `ni` ring-to-ring bands, concatenated.
pub open spec fn spec_bands(h: int, ni: nat) -> Seq<u32>
    decreases ni,
{
    if ni == 0 {
        Seq::empty()
    } else {
        spec_bands(h, (ni - 1) as nat) + spec_band(h, (ni - 1) as int, h as nat)
    }
}

/// The first `n` triangles of the south-pole fan against the last ring.
pub open spec fn spec_bottom_fan(h: int, v: int, n: nat) -> Seq<u32>
    decreases n,
{
    if n == 0 {
        Seq::empty()
    } else {
        let i = (n - 1) as int;
        spec_bottom_fan(h, v, (n - 1) as nat) + seq![
            (h * (v - 3) + (1 + i) % h + 1) as u32,
            (h * (v - 2) + 1) as u32,
            (h * (v - 3) + i + 1) as u32,
        ]
    }
}

/// The whole index stream: north fan, the `v - 3` bands, south fan.
pub open spec fn spec_rect_indices(h: int, v: int) -> Seq<u32> {
    spec_top_fan(h, h as nat) + spec_bands(h, (v - 3) as nat) + spec_bottom_fan(h, v, h as nat)
}

/// Ring prefixes have one vertex per column taken.
pub proof fn lemma_ring_len(hs: Seq<Seq<u64>>, row: int, nj: nat)
    ensures
        spec_ring(hs, row, nj).len() == nj,
    decreases nj,
{
    if nj > 0 {
        lemma_ring_len(hs, row, (nj - 1) as nat);
    }
}

/// The interior rings hold `h` vertices each.
pub proof fn lemma_rings_len(hs: Seq<Seq<u64>>, h: int, ni: nat)
    requires
        h >= 0,
    ensures
        spec_rings(hs, h, ni).len() == ni * h,
    decreases ni,
{
    if ni == 0 {
        assert(ni * h == 0) by (nonlinear_arith)
            requires
                ni == 0,
        ;
    } else {
        lemma_rings_len(hs, h, (ni - 1) as nat);
        lemma_ring_len(hs, ni as int, h as nat);
        assert((ni - 1) * h + h == ni * h) by (nonlinear_arith);
    }
}

/// The vertex stream holds `h * (v - 2) + 2` vertices.
pub proof fn lemma_rect_vertices_len(hs: Seq<Seq<u64>>, h: int, v: int)
    requires
        h >= 3,
        v >= 3,
    ensures
        spec_rect_vertices(hs, h, v).len() == h * (v - 2) + 2,
{
    lemma_rings_len(hs, h, (v - 2) as nat);
    assert((v - 2) * h == h * (v - 2)) by (nonlinear_arith);
}

/// Fan prefixes hold three indices per triangle.
pub proof fn lemma_top_fan_len(h: int, n: nat)
    ensures
        spec_top_fan(h, n).len() == 3 * n,
    decreases n,
{
    if n > 0 {
        lemma_top_fan_len(h, (n - 1) as nat);
    }
}

/// Band prefixes hold six indices per quad.
pub proof fn lemma_band_len(h: int, i: int, nj: nat)
    ensures
        spec_band(h, i, nj).len() == 6 * nj,
    decreases nj,
{
    if nj > 0 {
        lemma_band_len(h, i, (nj - 1) as nat);
    }
}

/// The bands hold `6 * h` indices each.
pub proof fn lemma_bands_len(h: int, ni: nat)
    requires
        h >= 0,
    ensures
        spec_bands(h, ni).len() == ni * (6 * h),
    decreases ni,
{
    if ni == 0 {
        assert(ni * (6 * h) == 0) by (nonlinear_arith)
            requires
                ni == 0,
        ;
    } else {
        lemma_bands_len(h, (ni - 1) as nat);
        lemma_band_len(h, (ni - 1) as int, h as nat);
        assert((ni - 1) * (6 * h) + 6 * h == ni * (6 * h)) by (nonlinear_arith);
    }
}

/// Bottom fan prefixes hold three indices per triangle.
pub proof fn lemma_bottom_fan_len(h: int, v: int, n: nat)
    ensures
        spec_bottom_fan(h, v, n).len() == 3 * n,
    decreases n,
{
    if n > 0 {
        lemma_bottom_fan_len(h, v, (n - 1) as nat);
    }
}

/// The index stream holds `6 * h * (v - 2)` entries — three per triangle,
/// `2 * h * (v - 2)` triangles.
pub proof fn lemma_rect_indices_len(h: int, v: int)
    requires
        h >= 3,
        v >= 3,
    ensures
        spec_rect_indices(h, v).len() == 6 * h * (v - 2),
{
    lemma_top_fan_len(h, h as nat);
    lemma_bands_len(h, (v - 3) as nat);
    lemma_bottom_fan_len(h, v, h as nat);
    assert(3 * h + (v - 3) * (6 * h) + 3 * h == 6 * h * (v - 2)) by (nonlinear_arith);
}

/// Every index a top-fan prefix emits names the pole or a ring-0 vertex.
pub proof fn lemma_top_fan_valid(h: int, n: nat)
    requires
        1 <= h <= 0xFFFF_FFFF,
        n <= h,
    ensures
        forall|k: int|
            0 <= k < spec_top_fan(h, n).len() ==> 0 <= #[trigger] spec_top_fan(h, n)[k] <= h,
    decreases n,
{
    if n > 0 {
        lemma_top_fan_valid(h, (n - 1) as nat);
        let i = (n - 1) as int;
        vstd::arithmetic::div_mod::lemma_mod_bound(i + 1, h);
        let prefix = spec_top_fan(h, (n - 1) as nat);
        let whole = spec_top_fan(h, n);
        assert forall|k: int| 0 <= k < whole.len() implies 0 <= #[trigger] whole[k] <= h by {
            if k < prefix.len() {
                assert(whole[k] == prefix[k]);
            }
        }
    }
}

/// Every index a band prefix emits names a vertex of its two rings.
pub proof fn lemma_band_valid(h: int, i: int, nj: nat)
    requires
        1 <= h,
        0 <= i,
        nj <= h,
        (i + 2) * h <= 0xFFFF_FFFF,
    ensures
        forall|k: int|
            0 <= k < spec_band(h, i, nj).len() ==> 0 <= #[trigger] spec_band(h, i, nj)[k] <= (i
                + 2) * h,
    decreases nj,
{
    if nj > 0 {
        lemma_band_valid(h, i, (nj - 1) as nat);
        let j = (nj - 1) as int;
        vstd::arithmetic::div_mod::lemma_mod_bound(j + 1, h);
        assert(0 <= i * h && i * h + h <= (i + 1) * h && (i + 1) * h + h <= (i + 2) * h)
            by (nonlinear_arith)
            requires
                1 <= h,
                0 <= i,
        ;
        let prefix = spec_band(h, i, (nj - 1) as nat);
        let whole = spec_band(h, i, nj);
        assert forall|k: int| 0 <= k < whole.len() implies 0 <= #[trigger] whole[k] <= (i + 2)
            * h by {
            if k < prefix.len() {
                assert(whole[k] == prefix[k]);
            }
        }
    }
}

/// Every index the first `ni` bands emit stays within the interior rings.
pub proof fn lemma_bands_valid(h: int, ni: nat)
    requires
        1 <= h,
        (ni + 1) * h <= 0xFFFF_FFFF,
    ensures
        forall|k: int|
            0 <= k < spec_bands(h, ni).len() ==> 0 <= #[trigger] spec_bands(h, ni)[k] <= (ni + 1)
                * h,
    decreases ni,
{
    if ni > 0 {
        assert(0 <= (ni - 1) * h && ni * h <= (ni + 1) * h && (ni - 1 + 2) * h == (ni + 1) * h)
            by (nonlinear_arith)
            requires
                1 <= h,
                ni >= 1,
        ;
        lemma_bands_valid(h, (ni - 1) as nat);
        lemma_band_valid(h, (ni - 1) as int, h as nat);
        let prefix = spec_bands(h, (ni - 1) as nat);
        let tail = spec_band(h, (ni - 1) as int, h as nat);
        let whole = spec_bands(h, ni);
        assert forall|k: int| 0 <= k < whole.len() implies 0 <= #[trigger] whole[k] <= (ni + 1)
            * h by {
            if k < prefix.len() {
                assert(whole[k] == prefix[k]);
            } else {
                assert(whole[k] == tail[k - prefix.len()]);
            }
        }
    }
}

/// Every index a bottom-fan prefix emits names the south pole or a vertex
/// of the last ring.
pub proof fn lemma_bottom_fan_valid(h: int, v: int, n: nat)
    requires
        1 <= h,
        3 <= v,
        n <= h,
        h * v <= 0xFFFF_FFFF,
    ensures
        forall|k: int|
            0 <= k < spec_bottom_fan(h, v, n).len() ==> 0 <= #[trigger] spec_bottom_fan(h, v, n)[k]
                <= h * (v - 2) + 1,
    decreases n,
{
    if n > 0 {
        lemma_bottom_fan_valid(h, v, (n - 1) as nat);
        let i = (n - 1) as int;
        vstd::arithmetic::div_mod::lemma_mod_bound(1 + i, h);
        assert(0 <= h * (v - 3) && h * (v - 3) + h == h * (v - 2) && h * (v - 2) + 1 <= h * v)
            by (nonlinear_arith)
            requires
                1 <= h,
                3 <= v,
        ;
        let prefix = spec_bottom_fan(h, v, (n - 1) as nat);
        let whole = spec_bottom_fan(h, v, n);
        assert forall|k: int| 0 <= k < whole.len() implies 0 <= #[trigger] whole[k] <= h * (v - 2)
            + 1 by {
            if k < prefix.len() {
                assert(whole[k] == prefix[k]);
            }
        }
    }
}

/// Every entry of the index stream names one of the mesh's
/// `h * (v - 2) + 2` vertices.
pub proof fn lemma_rect_indices_valid(h: int, v: int)
    requires
        3 <= h,
        3 <= v,
        h * v <= 0xFFFF_FFFF,
    ensures
        forall|k: int|
            0 <= k < spec_rect_indices(h, v).len() ==> 0 <= #[trigger] spec_rect_indices(h, v)[k]
                < h * (v - 2) + 2,
{
    assert(h <= h * (v - 2) && (v - 3 + 1) * h == h * (v - 2) && (v - 3 + 1) * h
        <= 0xFFFF_FFFF) by (nonlinear_arith)
        requires
            3 <= h,
            3 <= v,
            h * v <= 0xFFFF_FFFF,
    ;
    lemma_top_fan_valid(h, h as nat);
    lemma_bands_valid(h, (v - 3) as nat);
    lemma_bottom_fan_valid(h, v, h as nat);
    let top = spec_top_fan(h, h as nat);
    let mid = spec_bands(h, (v - 3) as nat);
    let bottom = spec_bottom_fan(h, v, h as nat);
    let whole = spec_rect_indices(h, v);
    assert forall|k: int| 0 <= k < whole.len() implies 0 <= #[trigger] whole[k] < h * (v - 2)
        + 2 by {
        if k < top.len() {
            assert(whole[k] == top[k]);
        } else if k < top.len() + mid.len() {
            assert(whole[k] == mid[k - top.len()]);
        } else {
            assert(whole[k] == bottom[k - top.len() - mid.len()]);
        }
    }
}

/// Build the pole-capped ring mesh over a height grid of `v_verts` rows of
/// `h_verts` columns. Both dimensions must be at least 3 — one ring and the
/// two poles — and the grid must have exactly the stated shape; the product
/// bound keeps every vertex index within the `u32` index type. On success
/// the mesh is exactly the specified vertex and index streams:
/// `h * (v - 2) + 2` vertices and `6 * h * (v - 2)` index entries, three
/// per triangle.
pub fn build_rect_mesh(h_verts: u32, v_verts: u32, heights: &Vec<Vec<u64>>) -> (r: Result<
    RectMesh,
    ConfigError,
>)
    requires
        heights@.len() == v_verts,
        forall|i: int| 0 <= i < heights@.len() ==> (#[trigger] heights@[i])@.len() == h_verts,
        (h_verts as int) * (v_verts as int) <= 0xFFFF_FFFF,
    ensures
        (r is Ok) <==> (h_verts >= 3 && v_verts >= 3),
        (r matches Ok(m) ==> m.vertices@ == spec_rect_vertices(
            grid_view(heights@),
            h_verts as int,
            v_verts as int,
        )),
        (r matches Ok(m) ==> m.indices@ == spec_rect_indices(h_verts as int, v_verts as int)),
        (r matches Ok(m) ==> m.vertices@.len() == (h_verts as int) * ((v_verts as int) - 2) + 2),
        (r matches Ok(m) ==> m.indices@.len() == 6 * (h_verts as int) * ((v_verts as int) - 2)),
        (r matches Ok(m) ==> forall|k: int|
            0 <= k < m.indices@.len() ==> 0 <= #[trigger] m.indices@[k] < m.vertices@.len()),
{
    if h_verts < 3 || v_verts < 3 {
        return Err(ConfigError::GridTooSmall);
    }
    let h: usize = h_verts as usize;
    let v: usize = v_verts as usize;
    let ghost hs = grid_view(heights@);
    let ghost hh = h as int;
    let ghost north = RectVertex { row: 0, col: 0, height: hs[0][0] };

    let mut vertices: Vec<RectVertex> = Vec::new();
    let first_row: &Vec<u64> = &heights[0];
    vertices.push(RectVertex { row: 0, col: 0, height: first_row[0] });
    assert(vertices@ =~= seq![north] + spec_rings(hs, hh, 0));
    let mut i: usize = 1;
    while i <= v - 2
        invariant
            3 <= h <= 0xFFFF_FFFFusize,
            3 <= v <= 0xFFFF_FFFFusize,
            1 <= i <= v - 1,
            heights@.len() == v,
            forall|k: int| 0 <= k < heights@.len() ==> (#[trigger] heights@[k])@.len() == h,
            hs == grid_view(heights@),
            hh == h as int,
            north == (RectVertex { row: 0, col: 0, height: hs[0][0] }),
            vertices@ == seq![north] + spec_rings(hs, hh, (i - 1) as nat),
        decreases v - i,
    {
        let row_vec: &Vec<u64> = &heights[i];
        let mut j: usize = 0;
        while j < h
            invariant
                3 <= h <= 0xFFFF_FFFFusize,
                3 <= v <= 0xFFFF_FFFFusize,
                1 <= i <= v - 2,
                j <= h,
                heights@.len() == v,
                forall|k: int| 0 <= k < heights@.len() ==> (#[trigger] heights@[k])@.len() == h,
                hs == grid_view(heights@),
                hh == h as int,
                north == (RectVertex { row: 0, col: 0, height: hs[0][0] }),
                row_vec == heights@[i as int],
                vertices@ == seq![north] + spec_rings(hs, hh, (i - 1) as nat) + spec_ring(
                    hs,
                    i as int,
                    j as nat,
                ),
            decreases h - j,
        {
            let hv: u64 = row_vec[j];
            vertices.push(RectVertex { row: i as u32, col: j as u32, height: hv });
            assert(vertices@ =~= seq![north] + spec_rings(hs, hh, (i - 1) as nat) + spec_ring(
                hs,
                i as int,
                (j + 1) as nat,
            ));
            j = j + 1;
        }
        assert(vertices@ =~= seq![north] + spec_rings(hs, hh, i as nat));
        i = i + 1;
    }
    let last_row: &Vec<u64> = &heights[v - 1];
    vertices.push(RectVertex { row: (v_verts - 1) as u32, col: 0, height: last_row[0] });
    assert(vertices@ =~= spec_rect_vertices(hs, hh, v as int));

    let mut indices: Vec<u32> = Vec::new();
    let mut i: usize = 0;
    while i < h
        invariant
            3 <= h <= 0xFFFF_FFFFusize,
            i <= h,
            indices@ == spec_top_fan(h as int, i as nat),
        decreases h - i,
    {
        indices.push((((i + 1) % h) + 1) as u32);
        indices.push((i + 1) as u32);
        indices.push(0u32);
        assert(indices@ =~= spec_top_fan(h as int, (i + 1) as nat));
        i = i + 1;
    }
    let ghost top = spec_top_fan(h as int, h as nat);
    let mut i: usize = 0;
    while i < v - 3
        invariant
            3 <= h <= 0xFFFF_FFFFusize,
            3 <= v <= 0xFFFF_FFFFusize,
            (h as int) * (v as int) <= 0xFFFF_FFFF,
            i <= v - 3,
            top == spec_top_fan(h as int, h as nat),
            indices@ == top + spec_bands(h as int, i as nat),
        decreases v - 3 - i,
    {
        let mut j: usize = 0;
        while j < h
            invariant
                3 <= h <= 0xFFFF_FFFFusize,
                3 <= v <= 0xFFFF_FFFFusize,
                (h as int) * (v as int) <= 0xFFFF_FFFF,
                i < v - 3,
                j <= h,
                top == spec_top_fan(h as int, h as nat),
                indices@ == top + spec_bands(h as int, i as nat) + spec_band(
                    h as int,
                    i as int,
                    j as nat,
                ),
            decreases h - j,
        {
            proof {
                assert(0 <= i * h && i * h + h <= (i + 1) * h && (i + 1) * h + h + 1
                    <= 0xFFFF_FFFF) by (nonlinear_arith)
                    requires
                        3 <= h,
                        3 <= v,
                        0 <= i,
                        i < v - 3,
                        (h as int) * (v as int) <= 0xFFFF_FFFF,
                ;
            }
            let upper: usize = (i + 1) * h;
            let lower: usize = i * h;
            let wrap: usize = (j + 1) % h;
            indices.push((upper + wrap + 1) as u32);
            indices.push((upper + j + 1) as u32);
            indices.push((lower + j + 1) as u32);
            indices.push((lower + wrap + 1) as u32);
            indices.push((upper + wrap + 1) as u32);
            indices.push((lower + j + 1) as u32);
            assert(indices@ =~= top + spec_bands(h as int, i as nat) + spec_band(
                h as int,
                i as int,
                (j + 1) as nat,
            ));
            j = j + 1;
        }
        assert(indices@ =~= top + spec_bands(h as int, (i + 1) as nat));
        i = i + 1;
    }
    let ghost mids = top + spec_bands(h as int, (v - 3) as nat);
    let mut i: usize = 0;
    while i < h
        invariant
            3 <= h <= 0xFFFF_FFFFusize,
            3 <= v <= 0xFFFF_FFFFusize,
            (h as int) * (v as int) <= 0xFFFF_FFFF,
            i <= h,
            mids == spec_top_fan(h as int, h as nat) + spec_bands(h as int, (v - 3) as nat),
            indices@ == mids + spec_bottom_fan(h as int, v as int, i as nat),
        decreases h - i,
    {
        proof {
            assert(0 <= h * (v - 3) && h * (v - 3) + h + 1 <= 0xFFFF_FFFF && h * (v - 2) + 1
                <= 0xFFFF_FFFF) by (nonlinear_arith)
                requires
                    3 <= h,
                    3 <= v,
                    (h as int) * (v as int) <= 0xFFFF_FFFF,
            ;
        }
        let base: usize = h * (v - 3);
        indices.push((base + ((1 + i) % h) + 1) as u32);
        indices.push((h * (v - 2) + 1) as u32);
        indices.push((base + i + 1) as u32);
        assert(indices@ =~= mids + spec_bottom_fan(h as int, v as int, (i + 1) as nat));
        i = i + 1;
    }
    proof {
        lemma_rect_vertices_len(hs, hh, v as int);
        lemma_rect_indices_len(hh, v as int);
        lemma_rect_indices_valid(hh, v as int);
    }
    Ok(RectMesh { vertices, indices })
}


/// Scale every height in a grid by a fixed-point factor, as the view layer
/// does when the whole terrain is grown or shrunk in one keystroke.
pub fn scale_grid(heights: &mut Vec<Vec<u64>>, factor: u64)
    ensures
        final(heights)@.len() == old(heights)@.len(),
        forall|i: int|
            0 <= i < final(heights)@.len() ==> (#[trigger] final(heights)@[i])@.len() == old(
                heights,
            )@[i]@.len(),
        forall|i: int, j: int|
            0 <= i < final(heights)@.len() && 0 <= j < final(heights)@[i]@.len()
                ==> #[trigger] final(heights)@[i]@[j] == crate::fixed::spec_mul_fp(
                old(heights)@[i]@[j] as int,
                factor as int,
            ),
{
    let ghost orig = heights@;
    let rows: usize = heights.len();
    let mut i: usize = 0;
    while i < rows
        invariant
            rows == orig.len(),
            heights@.len() == orig.len(),
            i <= rows,
            forall|k: int| i <= k < orig.len() ==> heights@[k] == orig[k],
            forall|k: int| 0 <= k < i ==> (#[trigger] heights@[k])@.len() == orig[k]@.len(),
            forall|k: int, j: int|
                0 <= k < i && 0 <= j < heights@[k]@.len() ==> #[trigger] heights@[k]@[j]
                    == crate::fixed::spec_mul_fp(orig[k]@[j] as int, factor as int),
        decreases rows - i,
    {
        let cols: usize = heights[i].len();
        let mut j: usize = 0;
        while j < cols
            invariant
                rows == orig.len(),
                heights@.len() == orig.len(),
                i < rows,
                j <= cols,
                cols == orig[i as int]@.len(),
                heights@[i as int]@.len() == cols,
                forall|k: int| i < k < orig.len() ==> heights@[k] == orig[k],
                forall|k: int| 0 <= k < i ==> (#[trigger] heights@[k])@.len() == orig[k]@.len(),
                forall|k: int, jj: int|
                    0 <= k < i && 0 <= jj < heights@[k]@.len() ==> #[trigger] heights@[k]@[jj]
                        == crate::fixed::spec_mul_fp(orig[k]@[jj] as int, factor as int),
                forall|jj: int|
                    j <= jj < cols ==> #[trigger] heights@[i as int]@[jj] == orig[i as int]@[jj],
                forall|jj: int|
                    0 <= jj < j ==> #[trigger] heights@[i as int]@[jj] == crate::fixed::spec_mul_fp(
                        orig[i as int]@[jj] as int,
                        factor as int,
                    ),
            decreases cols - j,
        {
            let scaled: u64 = crate::fixed::mul_fp(heights[i][j], factor);
            let row: &mut Vec<u64> = &mut heights[i];
            row.set(j, scaled);
            j = j + 1;
        }
        i = i + 1;
    }
}

} // verus!
