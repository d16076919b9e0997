//! The integer layout of a heightfield mesh: the vertex grid, the triangle
//! index list and which face gives each vertex its normal.

use vstd::prelude::*;
use vstd::arithmetic::div_mod::lemma_fundamental_div_mod_converse;

verus! {

/// Indices are 16-bit, so a mesh holds at most this many vertices.
pub const MAX_VERTICES: usize = 65536;

/// Why a grid cannot be built.
#[derive(Debug, Clone, Copy, PartialEq, Eq, Structural)]
pub enum TerrainError {
    /// The width or the height is not positive.
    InvalidSize,
    /// More vertices than a 16-bit index can address.
    TooManyVertices,
}

/// The dimensions of a terrain grid: `width` vertices per row, `height` rows.
#[derive(Debug, Clone, Copy, PartialEq, Eq, Structural)]
pub struct Grid {
    pub width: usize,
    pub height: usize,
}

/// The index of corner `t` (of six) of the two triangles over the cell in
/// row `i`, column `j`: first `{off+1, off+w+1, off}`, then `{off, off+w+1, off+w}`.
pub open spec fn quad_corner(w: int, i: int, j: int, t: int) -> int {
    let off = w * i + j;
    if t == 0 {
        off + 1
    } else if t == 1 {
        off + w + 1
    } else if t == 2 {
        off
    } else if t == 3 {
        off
    } else if t == 4 {
        off + w + 1
    } else {
        off + w
    }
}

/// Entry `k` of the index list of a grid `w` vertices wide: the cells come in
/// row-major order, six entries each.
pub open spec fn index_at(w: int, k: int) -> int {
    quad_corner(w, (k / 6) / (w - 1), (k / 6) % (w - 1), k % 6)
}

/// The triangle index list of a `w` by `h` grid.
pub open spec fn index_list(w: int, h: int) -> Seq<int> {
    Seq::new((6 * (w - 1) * (h - 1)) as nat, |k: int| index_at(w, k))
}

/// The smaller of two integers.
pub open spec fn min_int(a: int, b: int) -> int {
    if a <= b { a } else { b }
}

/// The cell whose face normal vertex `v` keeps: the last cell, in row-major
/// order, that has `v` as a corner.
pub open spec fn normal_cell(w: int, h: int, v: int) -> int {
    min_int(v / w, h - 2) * (w - 1) + min_int(v % w, w - 2)
}

/// Whether vertex `v` is a corner of cell `c` of a grid `w` vertices wide.
pub open spec fn cell_has_corner(w: int, c: int, v: int) -> bool {
    let i = c / (w - 1);
    let j = c % (w - 1);
    v == w * i + j || v == w * i + j + 1 || v == w * (i + 1) + j || v == w * (i + 1) + j + 1
}

/// Entry `6 * ((w - 1) * i + j) + t` of the index list is corner `t` of cell `(i, j)`.
proof fn lemma_index_at(w: int, i: int, j: int, t: int)
    requires
        2 <= w,
        0 <= i,
        0 <= j < w - 1,
        0 <= t < 6,
    ensures
        index_at(w, 6 * ((w - 1) * i + j) + t) == quad_corner(w, i, j, t),
{
    let c = (w - 1) * i + j;
    lemma_fundamental_div_mod_converse(6 * c + t, 6, c, t);
    lemma_fundamental_div_mod_converse(c, w - 1, i, j);
}

/// Vertex `w * row + col` of a grid `w` vertices wide is in row `row`, column `col`.
proof fn lemma_row_col(w: int, row: int, col: int)
    requires
        1 <= w,
        0 <= row,
        0 <= col < w,
    ensures
        (w * row + col) / w == row,
        (w * row + col) % w == col,
{
    assert(w * row == row * w) by (nonlinear_arith);
    lemma_fundamental_div_mod_converse(w * row + col, w, row, col);
}

/// The up component of the face normal `(a - b) x (c - b)` of a triangle of a
/// flat grid, each vertex placed at its column and row: `x = v % w`, `z = v / w`,
/// height zero. A cell scale multiplies it by the scale's square.
pub open spec fn flat_normal_y(w: int, a: int, b: int, c: int) -> int {
    let (ax, az) = (a % w, a / w);
    let (bx, bz) = (b % w, b / w);
    let (cx, cz) = (c % w, c / w);
    (az - bz) * (cx - bx) - (ax - bx) * (cz - bz)
}

/// A grid's mesh has three index entries per triangle, two triangles per cell,
/// and none at all when a side has a single vertex.
pub proof fn lemma_mesh_counts(grid: Grid)
    requires
        grid.wf(),
    ensures
        index_list(grid.width as int, grid.height as int).len() == 3 * (2 * grid.cells()),
        grid.width < 2 || grid.height < 2 ==> index_list(grid.width as int, grid.height as int).len() == 0,
        2 <= grid.width && 2 <= grid.height ==> grid.cells() == (grid.width - 1) * (grid.height - 1) > 0,
{
    let w = grid.width as int;
    let h = grid.height as int;
    assert(6 * (w - 1) * (h - 1) == 3 * (2 * ((w - 1) * (h - 1)))) by (nonlinear_arith);
    assert(w < 2 || h < 2 ==> 6 * (w - 1) * (h - 1) == 0) by (nonlinear_arith)
        requires 1 <= w, 1 <= h;
    assert(2 <= w && 2 <= h ==> (w - 1) * (h - 1) > 0) by (nonlinear_arith);
}

/// Every triangle of the index list is wound the same way: on a flat grid each
/// face normal points up, with the same length.
pub proof fn lemma_uniform_winding(grid: Grid, t: int)
    requires
        grid.wf(),
        0 <= t < 2 * grid.cells(),
    ensures
        ({
            let l = index_list(grid.width as int, grid.height as int);
            flat_normal_y(grid.width as int, l[3 * t], l[3 * t + 1], l[3 * t + 2]) == 1
        }),
{
    let w = grid.width as int;
    let h = grid.height as int;
    assert(2 <= w && 2 <= h) by (nonlinear_arith)
        requires 1 <= w, 1 <= h, 0 <= t < 2 * ((w - 1) * (h - 1));
    let c = t / 2;
    let s = t % 2;
    let i = c / (w - 1);
    let j = c % (w - 1);
    assert(0 <= i && 0 <= j < w - 1) by {
        vstd::arithmetic::div_mod::lemma_fundamental_div_mod(c, w - 1);
    }
    assert(c == (w - 1) * i + j) by {
        vstd::arithmetic::div_mod::lemma_fundamental_div_mod(c, w - 1);
    }
    assert(3 * t == 6 * c + 3 * s) by {
        vstd::arithmetic::div_mod::lemma_fundamental_div_mod(t, 2);
    }
    assert(6 * c + 6 <= 6 * (w - 1) * (h - 1)) by (nonlinear_arith)
        requires c == t / 2, 0 <= t < 2 * ((w - 1) * (h - 1));
    let l = index_list(w, h);
    let base = 6 * ((w - 1) * i + j);
    assert(3 * t == base + 3 * s);
    lemma_index_at(w, i, j, 3 * s);
    lemma_index_at(w, i, j, 3 * s + 1);
    lemma_index_at(w, i, j, 3 * s + 2);
    assert(l[3 * t] == quad_corner(w, i, j, 3 * s));
    assert(l[3 * t + 1] == quad_corner(w, i, j, 3 * s + 1));
    assert(l[3 * t + 2] == quad_corner(w, i, j, 3 * s + 2));
    lemma_row_col(w, i, j);
    lemma_row_col(w, i, j + 1);
    lemma_row_col(w, i + 1, j);
    lemma_row_col(w, i + 1, j + 1);
    assert(w * i + j + 1 == w * i + (j + 1));
    assert(w * i + j + w == w * (i + 1) + j) by (nonlinear_arith);
    assert(w * i + j + w + 1 == w * (i + 1) + (j + 1)) by (nonlinear_arith);
    let v00 = w * i + j;
    let v01 = w * i + (j + 1);
    let v10 = w * (i + 1) + j;
    let v11 = w * (i + 1) + (j + 1);
    assert(v00 % w == j && v00 / w == i);
    assert(v01 % w == j + 1 && v01 / w == i);
    assert(v10 % w == j && v10 / w == i + 1);
    assert(v11 % w == j + 1 && v11 / w == i + 1);
    if s == 0 {
        assert(flat_normal_y(w, v01, v11, v00) == (i - (i + 1)) * (j - (j + 1)) - 0 * (i - (i + 1)));
    } else {
        assert(flat_normal_y(w, v00, v11, v10) == (i - (i + 1)) * (j - (j + 1)) - (j - (j + 1)) * 0);
    }
}

/// The cell whose normal a vertex keeps is a cell that has the vertex as a
/// corner, and no later cell has it.
pub proof fn lemma_normal_cell_is_last(grid: Grid, v: int)
    requires
        grid.wf(),
        2 <= grid.width,
        2 <= grid.height,
        0 <= v < grid.width * grid.height,
    ensures
        0 <= normal_cell(grid.width as int, grid.height as int, v) < grid.cells(),
        cell_has_corner(grid.width as int, normal_cell(grid.width as int, grid.height as int, v), v),
        forall|c: int| normal_cell(grid.width as int, grid.height as int, v) < c < grid.cells()
            ==> !#[trigger] cell_has_corner(grid.width as int, c, v),
{
    let w = grid.width as int;
    let h = grid.height as int;
    let row = v / w;
    let col = v % w;
    vstd::arithmetic::div_mod::lemma_fundamental_div_mod(v, w);
    assert(0 <= row < h) by (nonlinear_arith)
        requires v == w * row + col, 0 <= col < w, 0 <= v < w * h, 2 <= w;
    let ni = min_int(row, h - 2);
    let nj = min_int(col, w - 2);
    let nc = ni * (w - 1) + nj;
    assert(0 <= nc < (w - 1) * (h - 1)) by (nonlinear_arith)
        requires 0 <= ni <= h - 2, 0 <= nj <= w - 2, nc == ni * (w - 1) + nj, 2 <= w;
    lemma_fundamental_div_mod_converse(nc, w - 1, ni, nj);
    assert(cell_has_corner(w, nc, v)) by {
        assert(v == w * row + col);
        if row == ni + 1 {
            assert(w * (ni + 1) == w * ni + w) by (nonlinear_arith);
        }
    }
    assert forall|c: int| nc < c < (w - 1) * (h - 1) implies !#[trigger] cell_has_corner(w, c, v) by {
        let i = c / (w - 1);
        let j = c % (w - 1);
        vstd::arithmetic::div_mod::lemma_fundamental_div_mod(c, w - 1);
        assert(i <= h - 2) by (nonlinear_arith)
            requires c == (w - 1) * i + j, 0 <= j, c < (w - 1) * (h - 1), 2 <= w;
        if cell_has_corner(w, c, v) {
            assert(0 <= i) by (nonlinear_arith)
                requires c == (w - 1) * i + j, j < w - 1, 0 < c, 2 <= w;
            if v == w * i + j {
                lemma_row_col(w, i, j);
            } else if v == w * i + j + 1 {
                lemma_row_col(w, i, j + 1);
            } else if v == w * (i + 1) + j {
                lemma_row_col(w, i + 1, j);
            } else {
                lemma_row_col(w, i + 1, j + 1);
            }
            assert(i <= ni && j <= nj);
            assert(c <= nc) by (nonlinear_arith)
                requires c == (w - 1) * i + j, nc == ni * (w - 1) + nj, i <= ni, j <= nj,
                    0 <= j < w - 1, 0 <= nj < w - 1, 2 <= w;
        }
    }
}

impl Grid {
    /// Both sides positive, and every vertex addressable by a 16-bit index.
    pub open spec fn wf(&self) -> bool {
        1 <= self.width && 1 <= self.height && self.width * self.height <= MAX_VERTICES
    }

    /// The number of cells, each covered by two triangles.
    pub open spec fn cells(&self) -> int {
        (self.width - 1) * (self.height - 1)
    }

    /// A grid of `width` by `height` vertices. Sizes that are not positive and
    /// grids with more vertices than 16-bit indices reach are refused.
    pub fn new(width: i32, height: i32) -> (r: Result<Grid, TerrainError>)
        ensures
            match r {
                Ok(g) => 0 < width && 0 < height && width * height <= MAX_VERTICES
                    && g.width == width && g.height == height && g.wf(),
                Err(TerrainError::InvalidSize) => width <= 0 || height <= 0,
                Err(TerrainError::TooManyVertices) => 0 < width && 0 < height
                    && width * height > MAX_VERTICES,
            },
    {
        if width <= 0 || height <= 0 {
            return Err(TerrainError::InvalidSize);
        }
        assert(0 <= (width as int) * (height as int) <= 0x7fff_ffff * 0x7fff_ffff) by (nonlinear_arith)
            requires 0 < width <= 0x7fff_ffff, 0 < height <= 0x7fff_ffff;
        let n: u64 = (width as u64) * (height as u64);
        if n > MAX_VERTICES as u64 {
            return Err(TerrainError::TooManyVertices);
        }
        Ok(Grid { width: width as usize, height: height as usize })
    }

    /// The number of vertices.
    pub fn vertex_count(&self) -> (r: usize)
        requires
            self.wf(),
        ensures
            r == self.width * self.height,
    {
        self.width * self.height
    }

    /// The number of triangles: two per cell, none when a side has one vertex.
    pub fn triangle_count(&self) -> (r: usize)
        requires
            self.wf(),
        ensures
            r == 2 * self.cells(),
            self.width < 2 || self.height < 2 ==> r == 0,
    {
        proof {
            let (w, h) = (self.width as int, self.height as int);
            assert(0 <= (w - 1) * (h - 1) <= w * h) by (nonlinear_arith)
                requires 1 <= w, 1 <= h;
            assert(w < 2 || h < 2 ==> (w - 1) * (h - 1) == 0) by (nonlinear_arith)
                requires 1 <= w, 1 <= h;
        }
        2 * ((self.width - 1) * (self.height - 1))
    }
    /// The triangle index list: for each cell in row-major order, the six
    /// corners of its two triangles, all wound the same way.
    pub fn triangle_indices(&self) -> (r: Vec<u16>)
        requires
            self.wf(),
        ensures
            r@.len() == index_list(self.width as int, self.height as int).len(),
            forall|k: int| 0 <= k < r@.len()
                ==> r@[k] as int == #[trigger] index_list(self.width as int, self.height as int)[k],
    {
        let w = self.width;
        let h = self.height;
        let mut r: Vec<u16> = Vec::new();
        if w < 2 || h < 2 {
            proof {
                assert(6 * (w - 1) * (h - 1) == 0) by (nonlinear_arith)
                    requires 1 <= w, 1 <= h, w < 2 || h < 2;
            }
            return r;
        }
        let mut i: usize = 0;
        while i < h - 1
            invariant
                2 <= w, 2 <= h, w * h <= MAX_VERTICES,
                i <= h - 1,
                r@.len() == 6 * ((w - 1) * i),
                forall|k: int| 0 <= k < r@.len() ==> r@[k] as int == #[trigger] index_at(w as int, k),
            decreases h - 1 - i,
        {
            let mut j: usize = 0;
            while j < w - 1
                invariant
                    2 <= w, 2 <= h, w * h <= MAX_VERTICES,
                    i < h - 1,
                    j <= w - 1,
                    r@.len() == 6 * ((w - 1) * i + j),
                    forall|k: int| 0 <= k < r@.len() ==> r@[k] as int == #[trigger] index_at(w as int, k),
                decreases w - 1 - j,
            {
                proof {
                    assert(w * i + j + w + 1 <= w * h - 1) by (nonlinear_arith)
                        requires i + 2 <= h, j + 2 <= w;
                }
                let off: usize = w * i + j;
                let ghost base = r@.len() as int;
                r.push((off + 1) as u16);
                r.push((off + w + 1) as u16);
                r.push(off as u16);
                r.push(off as u16);
                r.push((off + w + 1) as u16);
                r.push((off + w) as u16);
                proof {
                    assert forall|k: int| 0 <= k < r@.len() implies r@[k] as int == #[trigger] index_at(w as int, k) by {
                        if k >= base {
                            lemma_index_at(w as int, i as int, j as int, k - base);
                        }
                    }
                }
                j = j + 1;
            }
            proof {
                assert(6 * ((w - 1) * i + (w - 1)) == 6 * ((w - 1) * (i + 1))) by (nonlinear_arith);
            }
            i = i + 1;
        }
        proof {
            assert(6 * ((w - 1) * (h - 1)) == 6 * (w - 1) * (h - 1)) by (nonlinear_arith);
        }
        r
    }
    /// The column and row of each vertex, in row-major order.
    pub fn vertex_cells(&self) -> (r: Vec<(usize, usize)>)
        requires
            self.wf(),
        ensures
            r@.len() == self.width * self.height,
            forall|v: int| 0 <= v < r@.len()
                ==> #[trigger] r@[v].0 as int == v % self.width as int && r@[v].1 as int == v / self.width as int,
    {
        let w = self.width;
        let h = self.height;
        let mut r: Vec<(usize, usize)> = Vec::new();
        let mut row: usize = 0;
        while row < h
            invariant
                1 <= w, 1 <= h, w * h <= MAX_VERTICES,
                row <= h,
                r@.len() == w * row,
                forall|v: int| 0 <= v < r@.len() ==> #[trigger] r@[v].0 as int == v % w as int && r@[v].1 as int == v / w as int,
            decreases h - row,
        {
            let mut col: usize = 0;
            while col < w
                invariant
                    1 <= w, 1 <= h, w * h <= MAX_VERTICES,
                    row < h,
                    col <= w,
                    r@.len() == w * row + col,
                    forall|v: int| 0 <= v < r@.len() ==> #[trigger] r@[v].0 as int == v % w as int && r@[v].1 as int == v / w as int,
                decreases w - col,
            {
                proof {
                    lemma_row_col(w as int, row as int, col as int);
                }
                r.push((col, row));
                col = col + 1;
            }
            proof {
                assert(w * row + w == w * (row + 1)) by (nonlinear_arith);
            }
            row = row + 1;
        }
        r
    }

    /// The normal of each vertex, given the face normal of each cell in
    /// row-major order. Faces overwrite the normals of their corners in turn, so
    /// each vertex keeps the normal of the last cell that has it as a corner;
    /// a grid with no cell gives every vertex `zero`.
    pub fn vertex_normals<T: Copy>(&self, faces: &Vec<T>, zero: T) -> (r: Vec<T>)
        requires
            self.wf(),
            faces@.len() == self.cells(),
        ensures
            r@.len() == self.width * self.height,
            forall|v: int| 0 <= v < r@.len() ==> #[trigger] r@[v] == if 2 <= self.width && 2 <= self.height {
                faces@[normal_cell(self.width as int, self.height as int, v)]
            } else {
                zero
            },
    {
        let w = self.width;
        let h = self.height;
        let flat = w < 2 || h < 2;
        let mut r: Vec<T> = Vec::new();
        let mut row: usize = 0;
        while row < h
            invariant
                1 <= w, 1 <= h, w * h <= MAX_VERTICES,
                flat == (w < 2 || h < 2),
                faces@.len() == (w - 1) * (h - 1),
                row <= h,
                r@.len() == w * row,
                forall|v: int| 0 <= v < r@.len() ==> #[trigger] r@[v] == if !flat {
                    faces@[normal_cell(w as int, h as int, v)]
                } else {
                    zero
                },
            decreases h - row,
        {
            let mut col: usize = 0;
            while col < w
                invariant
                    1 <= w, 1 <= h, w * h <= MAX_VERTICES,
                    flat == (w < 2 || h < 2),
                    faces@.len() == (w - 1) * (h - 1),
                    row < h,
                    col <= w,
                    r@.len() == w * row + col,
                    forall|v: int| 0 <= v < r@.len() ==> #[trigger] r@[v] == if !flat {
                        faces@[normal_cell(w as int, h as int, v)]
                    } else {
                        zero
                    },
                decreases w - col,
            {
                proof {
                    lemma_row_col(w as int, row as int, col as int);
                }
                if flat {
                    r.push(zero);
                } else {
                    let ci: usize = if row < h - 2 { row } else { h - 2 };
                    let cj: usize = if col < w - 2 { col } else { w - 2 };
                    proof {
                        assert(ci * (w - 1) + cj < (w - 1) * (h - 1) <= w * h) by (nonlinear_arith)
                            requires ci <= h - 2, cj <= w - 2, 2 <= w, 2 <= h;
                    }
                    r.push(faces[ci * (w - 1) + cj]);
                }
                col = col + 1;
            }
            proof {
                assert(w * row + w == w * (row + 1)) by (nonlinear_arith);
            }
            row = row + 1;
        }
        r
    }
}

} // verus!
