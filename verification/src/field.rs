//! The per-cell simulation state and the wraparound grid that holds it.
//!
//! Cells live on a `width x height` grid. East and west wrap modulo the
//! width, as on a torus. North past the top row and south past the bottom
//! row land on the antipodal column of the same row: the grid models a
//! sphere whose top and bottom rows ring the two poles, so crossing a pole
//! comes out half a world away in longitude, not on the opposite edge.

use vstd::prelude::*;
use crate::fixed::{sat_add, spec_sat_add};

verus! {

/// One fixed-point quantity per cardinal direction.
#[derive(Clone, Copy, PartialEq, Eq, Structural, Debug)]
pub struct Dirs {
    pub n: u64,
    pub e: u64,
    pub s: u64,
    pub w: u64,
}

impl Dirs {
    /// The all-zero quadruple.
    pub open spec fn spec_zero() -> Dirs {
        Dirs { n: 0, e: 0, s: 0, w: 0 }
    }

    /// Sum of the four directions, as an unbounded integer.
    pub open spec fn spec_total(self) -> int {
        self.n + self.e + self.s + self.w
    }

    pub fn zero() -> (r: Dirs)
        ensures
            r == Dirs::spec_zero(),
    {
        Dirs { n: 0, e: 0, s: 0, w: 0 }
    }
}

/// The state of one grid cell: three sediment reservoirs, standing water,
/// and per-direction outflow volume and flow speed. Every field is a
/// nonnegative fixed-point quantity; a value the model would drive below
/// zero is clamped to zero instead.
#[derive(Clone, Copy, PartialEq, Eq, Structural, Debug)]
pub struct Cell {
    /// Immovable terrain base; only erosion into suspension lowers it.
    pub bedrock: u64,
    /// Loose sediment resting on the bedrock.
    pub bed_sediment: u64,
    /// Sediment carried within the water column.
    pub suspended_sediment: u64,
    /// Standing water volume.
    pub water: u64,
    /// Volume currently flowing out toward each cardinal neighbor.
    pub outflow: Dirs,
    /// Per-direction flow speed, scaling future outflow growth.
    pub flow_speed: Dirs,
}

impl Cell {
    /// Terrain-plus-water column height: bedrock, bed sediment and water.
    /// Suspended sediment travels with the water and does not stack.
    pub open spec fn spec_total_height(self) -> int {
        spec_sat_add(spec_sat_add(self.bedrock as int, self.bed_sediment as int), self.water as int)
    }

    /// Everything the cell holds: all three sediment reservoirs plus water,
    /// as an unbounded integer. Outflow volumes are commitments against the
    /// water already counted here, not extra mass.
    pub open spec fn spec_mass(self) -> int {
        self.bedrock + self.bed_sediment + self.suspended_sediment + self.water
    }

    /// A cell with the given bedrock elevation and everything else zero.
    pub open spec fn spec_seeded(bedrock: u64) -> Cell {
        Cell {
            bedrock,
            bed_sediment: 0,
            suspended_sediment: 0,
            water: 0,
            outflow: Dirs::spec_zero(),
            flow_speed: Dirs::spec_zero(),
        }
    }

    /// Height of water, bed sediment and bedrock stacked together.
    pub fn total_height(&self) -> (r: u64)
        ensures
            r == self.spec_total_height(),
    {
        sat_add(sat_add(self.bedrock, self.bed_sediment), self.water)
    }

    /// Total volume of water flowing out of the cell, saturating at
    /// `u64::MAX`.
    pub fn total_outflow(&self) -> (r: u64)
        ensures
            r == spec_sat_add(
                spec_sat_add(
                    spec_sat_add(self.outflow.n as int, self.outflow.e as int),
                    self.outflow.s as int,
                ),
                self.outflow.w as int,
            ),
    {
        sat_add(sat_add(sat_add(self.outflow.n, self.outflow.e), self.outflow.s), self.outflow.w)
    }
}

/// The grid of cells. `cells` stores row after row: the cell at column `x`,
/// row `y` sits at index `y * width + x`.
pub struct HeightField {
    pub width: usize,
    pub height: usize,
    pub cells: Vec<Cell>,
}

impl HeightField {
    /// Well-formed: both dimensions are positive and the flat vector holds
    /// exactly one cell per grid position.
    pub open spec fn wf(self) -> bool {
        &&& self.width >= 1
        &&& self.height >= 1
        &&& self.cells@.len() == self.width * self.height
    }

    /// Flat index of the cell at `(x, y)`.
    pub open spec fn spec_idx(self, x: int, y: int) -> int {
        y * self.width + x
    }

    /// The cell at `(x, y)`.
    pub open spec fn spec_cell(self, x: int, y: int) -> Cell {
        self.cells@[self.spec_idx(x, y)]
    }

    /// Coordinates within the grid.
    pub open spec fn spec_in_grid(self, x: int, y: int) -> bool {
        0 <= x < self.width && 0 <= y < self.height
    }

    /// The neighbor to the north. Rows count upward, so north of `(x, y)` is
    /// `(x, y + 1)`; from the top row it crosses the pole to the antipodal
    /// column of the same row.
    pub open spec fn spec_north(self, x: int, y: int) -> (int, int) {
        if y == self.height - 1 {
            ((x + self.width / 2) % (self.width as int), y)
        } else {
            (x, y + 1)
        }
    }

    /// The neighbor to the south: `(x, y - 1)`, or across the pole from the
    /// bottom row.
    pub open spec fn spec_south(self, x: int, y: int) -> (int, int) {
        if y == 0 {
            ((x + self.width / 2) % (self.width as int), y)
        } else {
            (x, y - 1)
        }
    }

    /// The neighbor to the east: plain wrap modulo the width.
    pub open spec fn spec_east(self, x: int, y: int) -> (int, int) {
        ((x + 1) % (self.width as int), y)
    }

    /// The neighbor to the west: plain wrap modulo the width.
    pub open spec fn spec_west(self, x: int, y: int) -> (int, int) {
        ((x + self.width - 1) % (self.width as int), y)
    }

    /// A fresh field: all state zero except a uniform seed bedrock
    /// elevation.
    pub fn new(width: usize, height: usize, seed_bedrock: u64) -> (r: HeightField)
        requires
            width >= 1,
            height >= 1,
            width * height <= usize::MAX,
        ensures
            r.wf(),
            r.width == width,
            r.height == height,
            forall|i: int|
                0 <= i < r.cells@.len() ==> r.cells@[i] == Cell::spec_seeded(seed_bedrock),
    {
        let total: usize = width * height;
        let mut cells: Vec<Cell> = Vec::new();
        let mut i: usize = 0;
        while i < total
            invariant
                i <= total,
                cells@.len() == i,
                forall|j: int| 0 <= j < i ==> cells@[j] == Cell::spec_seeded(seed_bedrock),
            decreases total - i,
        {
            cells.push(
                Cell {
                    bedrock: seed_bedrock,
                    bed_sediment: 0,
                    suspended_sediment: 0,
                    water: 0,
                    outflow: Dirs::zero(),
                    flow_speed: Dirs::zero(),
                },
            );
            i = i + 1;
        }
        HeightField { width, height, cells }
    }

    /// Read the cell at `(x, y)`.
    pub fn cell(&self, x: usize, y: usize) -> (c: &Cell)
        requires
            self.wf(),
            self.spec_in_grid(x as int, y as int),
        ensures
            *c == self.spec_cell(x as int, y as int),
    {
        let bound: usize = self.cells.len();
        proof {
            lemma_idx_in_range(*self, x as int, y as int);
            assert(y * self.width + x < bound);
        }
        &self.cells[y * self.width + x]
    }

    /// Overwrite the cell at `(x, y)`.
    pub fn set_cell(&mut self, x: usize, y: usize, c: Cell)
        requires
            old(self).wf(),
            old(self).spec_in_grid(x as int, y as int),
        ensures
            final(self).wf(),
            final(self).width == old(self).width,
            final(self).height == old(self).height,
            final(self).cells@ == old(self).cells@.update(old(self).spec_idx(x as int, y as int), c),
    {
        let bound: usize = self.cells.len();
        proof {
            lemma_idx_in_range(*self, x as int, y as int);
            assert(y * self.width + x < bound);
        }
        let i: usize = y * self.width + x;
        self.cells[i] = c;
    }

    /// The grid of total heights — bedrock, bed sediment and water stacked —
    /// row by row, the snapshot the mesh builders consume.
    pub fn total_height_grid(&self) -> (r: Vec<Vec<u64>>)
        requires
            self.wf(),
        ensures
            r@.len() == self.height,
            forall|i: int| 0 <= i < r@.len() ==> (#[trigger] r@[i])@.len() == self.width,
            forall|i: int, j: int|
                0 <= i < self.height && 0 <= j < self.width ==> #[trigger] r@[i]@[j]
                    == self.spec_cell(j, i).spec_total_height(),
    {
        let mut rows: Vec<Vec<u64>> = Vec::new();
        let mut y: usize = 0;
        while y < self.height
            invariant
                self.wf(),
                y <= self.height,
                rows@.len() == y,
                forall|i: int| 0 <= i < y ==> (#[trigger] rows@[i])@.len() == self.width,
                forall|i: int, j: int|
                    0 <= i < y && 0 <= j < self.width ==> #[trigger] rows@[i]@[j]
                        == self.spec_cell(j, i).spec_total_height(),
            decreases self.height - y,
        {
            let mut row: Vec<u64> = Vec::new();
            let mut x: usize = 0;
            while x < self.width
                invariant
                    self.wf(),
                    y < self.height,
                    x <= self.width,
                    row@.len() == x,
                    forall|j: int|
                        0 <= j < x ==> #[trigger] row@[j] == self.spec_cell(
                            j,
                            y as int,
                        ).spec_total_height(),
                decreases self.width - x,
            {
                row.push(self.cell(x, y).total_height());
                x = x + 1;
            }
            rows.push(row);
            y = y + 1;
        }
        rows
    }

    /// North neighbor coordinates.
    pub fn north(&self, x: usize, y: usize) -> (r: (usize, usize))
        requires
            self.wf(),
            self.spec_in_grid(x as int, y as int),
        ensures
            (r.0 as int, r.1 as int) == self.spec_north(x as int, y as int),
            self.spec_in_grid(r.0 as int, r.1 as int),
    {
        if y == self.height - 1 {
            (antipodal(x, self.width), y)
        } else {
            (x, y + 1)
        }
    }

    /// South neighbor coordinates.
    pub fn south(&self, x: usize, y: usize) -> (r: (usize, usize))
        requires
            self.wf(),
            self.spec_in_grid(x as int, y as int),
        ensures
            (r.0 as int, r.1 as int) == self.spec_south(x as int, y as int),
            self.spec_in_grid(r.0 as int, r.1 as int),
    {
        if y == 0 {
            (antipodal(x, self.width), y)
        } else {
            (x, y - 1)
        }
    }

    /// East neighbor coordinates.
    pub fn east(&self, x: usize, y: usize) -> (r: (usize, usize))
        requires
            self.wf(),
            self.spec_in_grid(x as int, y as int),
        ensures
            (r.0 as int, r.1 as int) == self.spec_east(x as int, y as int),
            self.spec_in_grid(r.0 as int, r.1 as int),
    {
        if x == self.width - 1 {
            proof {
                vstd::arithmetic::div_mod::lemma_fundamental_div_mod_converse(
                    x as int + 1,
                    self.width as int,
                    1,
                    0,
                );
            }
            (0, y)
        } else {
            proof {
                vstd::arithmetic::div_mod::lemma_small_mod((x + 1) as nat, self.width as nat);
            }
            (x + 1, y)
        }
    }

    /// West neighbor coordinates.
    pub fn west(&self, x: usize, y: usize) -> (r: (usize, usize))
        requires
            self.wf(),
            self.spec_in_grid(x as int, y as int),
        ensures
            (r.0 as int, r.1 as int) == self.spec_west(x as int, y as int),
            self.spec_in_grid(r.0 as int, r.1 as int),
    {
        if x == 0 {
            proof {
                vstd::arithmetic::div_mod::lemma_small_mod(
                    (self.width - 1) as nat,
                    self.width as nat,
                );
            }
            (self.width - 1, y)
        } else {
            proof {
                vstd::arithmetic::div_mod::lemma_fundamental_div_mod_converse(
                    x as int + self.width - 1,
                    self.width as int,
                    1,
                    x as int - 1,
                );
            }
            (x - 1, y)
        }
    }
}

/// A flat index computed from in-grid coordinates is within the vector.
pub proof fn lemma_idx_in_range(f: HeightField, x: int, y: int)
    requires
        f.wf(),
        f.spec_in_grid(x, y),
    ensures
        0 <= f.spec_idx(x, y) < f.cells@.len(),
{
    assert(y * f.width + x < f.width * f.height) by (nonlinear_arith)
        requires
            0 <= x < f.width,
            0 <= y < f.height,
    ;
    assert(y * f.width >= 0) by (nonlinear_arith)
        requires
            y >= 0,
            f.width >= 0,
    ;
}

/// All four neighbors of an in-grid cell are in the grid.
pub proof fn lemma_neighbors_in_grid(f: HeightField, x: int, y: int)
    requires
        f.wf(),
        f.spec_in_grid(x, y),
    ensures
        f.spec_in_grid(f.spec_north(x, y).0, f.spec_north(x, y).1),
        f.spec_in_grid(f.spec_east(x, y).0, f.spec_east(x, y).1),
        f.spec_in_grid(f.spec_south(x, y).0, f.spec_south(x, y).1),
        f.spec_in_grid(f.spec_west(x, y).0, f.spec_west(x, y).1),
{
    vstd::arithmetic::div_mod::lemma_mod_bound(x + f.width / 2, f.width as int);
    vstd::arithmetic::div_mod::lemma_mod_bound(x + 1, f.width as int);
    vstd::arithmetic::div_mod::lemma_mod_bound(x + f.width - 1, f.width as int);
}

/// The column half a world away: `(x + width / 2) % width`, the landing
/// column after crossing a pole.
fn antipodal(x: usize, width: usize) -> (r: usize)
    requires
        width >= 1,
        x < width,
    ensures
        r as int == (x + width / 2) % (width as int),
        r < width,
{
    let k: usize = width / 2;
    if x >= width - k {
        proof {
            vstd::arithmetic::div_mod::lemma_fundamental_div_mod_converse(
                x as int + k,
                width as int,
                1,
                x as int + k - width,
            );
        }
        x - (width - k)
    } else {
        proof {
            vstd::arithmetic::div_mod::lemma_small_mod((x + k) as nat, width as nat);
        }
        x + k
    }
}

} // verus!
