use vstd::prelude::*;

verus! {

/// Dimensions of the collocated FDTD grid: `nx` cells along the long flight
/// axis, `ny` and `nz` across it. Cell `(i, j, k)` is stored at `lin(i, j, k)`.
#[derive(Copy, Clone, Debug)]
pub struct Grid {
    pub nx: usize,
    pub ny: usize,
    pub nz: usize,
}

/// Linear storage position of cell `(i, j, k)`: x fastest, then y, then z.
pub open spec fn linear(nx: int, ny: int, i: int, j: int, k: int) -> int {
    (k * ny + j) * nx + i
}

/// Smaller of two integers.
pub open spec fn min2(a: int, b: int) -> int {
    if a <= b {
        a
    } else {
        b
    }
}

/// `v` clamped into `[0, n - 1]`.
pub open spec fn clamp_index(v: int, n: int) -> int {
    if v < 0 {
        0
    } else if v > n - 1 {
        n - 1
    } else {
        v
    }
}

impl Grid {
    /// Every axis has at least one cell, fits an `i32`, and the cell count
    /// fits a `usize`.
    pub open spec fn wf(self) -> bool {
        &&& 1 <= self.nx <= i32::MAX
        &&& 1 <= self.ny <= i32::MAX
        &&& 1 <= self.nz <= i32::MAX
        &&& self.nx * self.ny * self.nz <= usize::MAX
    }

    /// Number of cells.
    pub open spec fn cell_count(self) -> int {
        self.nx * self.ny * self.nz
    }

    /// `(i, j, k)` names a cell of the grid.
    pub open spec fn in_grid(self, i: int, j: int, k: int) -> bool {
        0 <= i < self.nx && 0 <= j < self.ny && 0 <= k < self.nz
    }

    /// Grid for a transverse resolution `cross_n` and `stretched_x` cells along
    /// the long axis: at least 8 cells across and 16 along.
    pub fn new(cross_n: usize, stretched_x: usize) -> (g: Grid)
        requires
            ({
                let c = if cross_n < 8 { 8 } else { cross_n as int };
                let x = if stretched_x < 16 { 16 } else { stretched_x as int };
                c <= i32::MAX && x <= i32::MAX && x * c * c <= usize::MAX
            }),
        ensures
            g.wf(),
            g.ny == if cross_n < 8 { 8 } else { cross_n },
            g.nz == g.ny,
            g.nx == if stretched_x < 16 { 16 } else { stretched_x },
    {
        let c = if cross_n < 8 { 8 } else { cross_n };
        let x = if stretched_x < 16 { 16 } else { stretched_x };
        Grid { nx: x, ny: c, nz: c }
    }

    /// Number of cells (`nx * ny * nz`).
    pub fn cells(&self) -> (n: usize)
        requires
            self.wf(),
        ensures
            n as int == self.cell_count(),
    {
        assert(self.nx * self.ny <= self.nx * self.ny * self.nz) by (nonlinear_arith)
            requires
                self.nz >= 1,
        ;
        self.nx * self.ny * self.nz
    }

    /// Storage position of cell `(i, j, k)`.
    pub fn lin(&self, i: usize, j: usize, k: usize) -> (p: usize)
        requires
            self.wf(),
            self.in_grid(i as int, j as int, k as int),
        ensures
            p as int == linear(self.nx as int, self.ny as int, i as int, j as int, k as int),
            p < self.cell_count(),
    {
        proof {
            lemma_linear_bounds(self.nx as int, self.ny as int, self.nz as int, i as int, j as int, k as int);
        }
        (k * self.ny + j) * self.nx + i
    }

    /// Storage position of the cell nearest to `(i, j, k)`: each coordinate is
    /// clamped into the grid, so neighbours past a face repeat the face cell.
    pub fn idx_clamp(&self, i: i32, j: i32, k: i32) -> (p: usize)
        requires
            self.wf(),
        ensures
            p as int == linear(
                self.nx as int,
                self.ny as int,
                clamp_index(i as int, self.nx as int),
                clamp_index(j as int, self.ny as int),
                clamp_index(k as int, self.nz as int),
            ),
            p < self.cell_count(),
    {
        let ci = clamp_i32(i, self.nx as i32 - 1) as usize;
        let cj = clamp_i32(j, self.ny as i32 - 1) as usize;
        let ck = clamp_i32(k, self.nz as i32 - 1) as usize;
        self.lin(ci, cj, ck)
    }

    /// Distance of cell `(i, j, k)` from the nearest absorbing face: the -x
    /// entrance and the four side walls (the +x face is not absorbing).
    pub fn boundary_depth(&self, i: usize, j: usize, k: usize) -> (d: usize)
        requires
            self.wf(),
            self.in_grid(i as int, j as int, k as int),
        ensures
            d as int == min2(
                i as int,
                min2(
                    min2(j as int, self.ny - 1 - j),
                    min2(k as int, self.nz - 1 - k),
                ),
            ),
    {
        let dy = if j <= self.ny - 1 - j { j } else { self.ny - 1 - j };
        let dz = if k <= self.nz - 1 - k { k } else { self.nz - 1 - k };
        let dyz = if dy <= dz { dy } else { dz };
        if i <= dyz { i } else { dyz }
    }
}

fn clamp_i32(v: i32, hi: i32) -> (r: i32)
    requires
        hi >= 0,
    ensures
        r == clamp_index(v as int, hi + 1),
{
    if v < 0 {
        0
    } else if v > hi {
        hi
    } else {
        v
    }
}

proof fn lemma_linear_bounds(nx: int, ny: int, nz: int, i: int, j: int, k: int)
    requires
        0 <= i < nx,
        0 <= j < ny,
        0 <= k < nz,
    ensures
        0 <= k * ny <= k * ny + j < ny * nz,
        0 <= (k * ny + j) * nx <= linear(nx, ny, i, j, k) < nx * ny * nz,
        ny * nz <= nx * ny * nz,
{
    assert(ny * nz <= nx * ny * nz) by (nonlinear_arith)
        requires
            nx >= 1,
            ny >= 0,
            nz >= 0,
    ;
    assert(0 <= k * ny) by (nonlinear_arith)
        requires
            k >= 0,
            ny >= 0,
    ;
    assert(0 <= k * ny + j < ny * nz) by (nonlinear_arith)
        requires
            0 <= j < ny,
            0 <= k < nz,
    ;
    assert(0 <= (k * ny + j) * nx + i < nx * ny * nz) by (nonlinear_arith)
        requires
            0 <= k * ny + j < ny * nz,
            0 <= i < nx,
    ;
    assert(0 <= (k * ny + j) * nx) by (nonlinear_arith)
        requires
            0 <= k * ny + j,
            0 <= nx,
    ;
}

/// A set of grid cells (the perfect-electric-conductor cells of the mirror),
/// one flag per cell in storage order.
pub struct CellMask {
    grid: Grid,
    cells: Vec<bool>,
}

impl View for CellMask {
    type V = Seq<bool>;

    closed spec fn view(&self) -> Seq<bool> {
        self.cells@
    }
}

/// `n` cleared flags.
pub open spec fn all_clear(n: int) -> Seq<bool> {
    Seq::new(n as nat, |p: int| false)
}

impl CellMask {
    /// The mask's grid is well formed and there is one flag per cell.
    pub closed spec fn wf(&self) -> bool {
        &&& self.grid.wf()
        &&& self.cells@.len() == self.grid.cell_count()
    }

    /// The grid the mask covers.
    pub closed spec fn shape(&self) -> Grid {
        self.grid
    }

    /// A mask over `grid` with no cell set.
    pub fn new(grid: Grid) -> (m: CellMask)
        requires
            grid.wf(),
        ensures
            m.wf(),
            m.shape() == grid,
            m@ == all_clear(grid.cell_count()),
    {
        let n = grid.cells();
        let mut cells: Vec<bool> = Vec::new();
        for p in 0..n
            invariant
                cells@ == all_clear(p as int),
        {
            cells.push(false);
            assert(cells@ =~= all_clear(p + 1));
        }
        CellMask { grid, cells }
    }

    /// The grid the mask covers.
    pub fn grid(&self) -> (g: Grid)
        requires
            self.wf(),
        ensures
            g == self.shape(),
            g.wf(),
    {
        self.grid
    }

    /// Unset every cell.
    pub fn clear(&mut self)
        requires
            old(self).wf(),
        ensures
            final(self).wf(),
            final(self).shape() == old(self).shape(),
            final(self)@ == all_clear(old(self).shape().cell_count()),
    {
        let n = self.cells.len();
        let ghost g = self.grid;
        for p in 0..n
            invariant
                n == self.cells@.len(),
                self.grid == g,
                g.wf(),
                n == g.cell_count(),
                forall|q: int| 0 <= q < p ==> !self.cells@[q],
        {
            self.cells.set(p, false);
        }
        assert(self.cells@ =~= all_clear(n as int));
    }

    /// Set cell `(i, j, k)`.
    pub fn mark(&mut self, i: usize, j: usize, k: usize)
        requires
            old(self).wf(),
            old(self).shape().in_grid(i as int, j as int, k as int),
        ensures
            final(self).wf(),
            final(self).shape() == old(self).shape(),
            final(self)@ == old(self)@.update(
                linear(old(self).shape().nx as int, old(self).shape().ny as int, i as int, j as int, k as int),
                true,
            ),
    {
        let p = self.grid.lin(i, j, k);
        self.cells.set(p, true);
    }

    /// Whether cell `(i, j, k)` is set.
    pub fn contains(&self, i: usize, j: usize, k: usize) -> (b: bool)
        requires
            self.wf(),
            self.shape().in_grid(i as int, j as int, k as int),
        ensures
            b == self@[linear(self.shape().nx as int, self.shape().ny as int, i as int, j as int, k as int)],
    {
        let p = self.grid.lin(i, j, k);
        self.cells[p]
    }

    /// Whether the cell stored at position `p` is set.
    pub fn contains_at(&self, p: usize) -> (b: bool)
        requires
            self.wf(),
            p < self.shape().cell_count(),
        ensures
            b == self@[p as int],
    {
        self.cells[p]
    }
}

/// Distinct cells have distinct storage positions, so the layout is a
/// one-to-one numbering of the `nx * ny * nz` cells.
pub proof fn lemma_linear_injective(g: Grid, i: int, j: int, k: int, a: int, b: int, c: int)
    requires
        g.wf(),
        g.in_grid(i, j, k),
        g.in_grid(a, b, c),
        linear(g.nx as int, g.ny as int, i, j, k) == linear(g.nx as int, g.ny as int, a, b, c),
    ensures
        i == a && j == b && k == c,
{
    let nx = g.nx as int;
    let ny = g.ny as int;
    vstd::arithmetic::div_mod::lemma_fundamental_div_mod_converse(
        linear(nx, ny, i, j, k), nx, k * ny + j, i);
    vstd::arithmetic::div_mod::lemma_fundamental_div_mod_converse(
        linear(nx, ny, a, b, c), nx, c * ny + b, a);
    vstd::arithmetic::div_mod::lemma_fundamental_div_mod_converse(k * ny + j, ny, k, j);
    vstd::arithmetic::div_mod::lemma_fundamental_div_mod_converse(c * ny + b, ny, c, b);
}

/// Marking a cell sets exactly that cell: afterwards it reads as set, and
/// every other cell reads as it did before.
pub proof fn lemma_mark_then_read(
    g: Grid,
    before: Seq<bool>,
    i: int,
    j: int,
    k: int,
    a: int,
    b: int,
    c: int,
)
    requires
        g.wf(),
        before.len() == g.cell_count(),
        g.in_grid(i, j, k),
        g.in_grid(a, b, c),
    ensures
        ({
            let after = before.update(linear(g.nx as int, g.ny as int, i, j, k), true);
            &&& after[linear(g.nx as int, g.ny as int, i, j, k)]
            &&& (a != i || b != j || c != k) ==> after[linear(g.nx as int, g.ny as int, a, b, c)]
                == before[linear(g.nx as int, g.ny as int, a, b, c)]
        }),
{
    lemma_linear_bounds(g.nx as int, g.ny as int, g.nz as int, i, j, k);
    lemma_linear_bounds(g.nx as int, g.ny as int, g.nz as int, a, b, c);
    if linear(g.nx as int, g.ny as int, i, j, k) == linear(g.nx as int, g.ny as int, a, b, c) {
        lemma_linear_injective(g, i, j, k, a, b, c);
    }
}

} // verus!
