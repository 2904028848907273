//! Tile grid geometry. Boundaries are computed in whole cells, so that the
//! composite image and the cursor overlay agree on where each tile lies.

use vstd::prelude::*;

verus! {

/// The cell at which tile `index` begins when `cells` cells are divided
/// among `count` tiles; `index == count` gives the end of the last tile.
pub open spec fn tile_boundary(index: int, cells: int, count: int) -> int {
    (index * cells) / count
}

/// Boundaries do not decrease with the index, start at zero and end at
/// `cells`.
pub proof fn lemma_tile_boundary_ordered(index: int, cells: int, count: int)
    requires
        0 <= index < count,
        0 <= cells,
    ensures
        0 <= tile_boundary(index, cells, count) <= tile_boundary(index + 1, cells, count) <= cells,
        tile_boundary(0, cells, count) == 0,
        tile_boundary(count, cells, count) == cells,
{
    assert(0 <= index * cells <= (index + 1) * cells <= count * cells) by (nonlinear_arith)
        requires
            0 <= index < count,
            0 <= cells,
    ;
    vstd::arithmetic::div_mod::lemma_div_is_ordered(0, index * cells, count);
    vstd::arithmetic::div_mod::lemma_div_is_ordered(index * cells, (index + 1) * cells, count);
    vstd::arithmetic::div_mod::lemma_div_is_ordered((index + 1) * cells, count * cells, count);
    vstd::arithmetic::div_mod::lemma_div_multiples_vanish(cells, count);
    assert(0 * cells == 0);
    assert(0int / count == 0);
}

/// Compute a tile boundary.
pub fn tile_edge(index: usize, cells: u32, count: usize) -> (edge: u32)
    requires
        index <= count,
        count > 0,
    ensures
        edge == tile_boundary(index as int, cells as int, count as int),
        edge <= cells,
{
    proof {
        if index < count {
            lemma_tile_boundary_ordered(index as int, cells as int, count as int);
        } else {
            lemma_tile_boundary_ordered(0, cells as int, count as int);
        }
        assert(0 <= index * cells <= 0xFFFF_FFFF_FFFF_FFFF * 0xFFFF_FFFF) by (nonlinear_arith)
            requires
                0 <= index <= 0xFFFF_FFFF_FFFF_FFFF,
                0 <= cells <= 0xFFFF_FFFF,
        ;
    }
    let product: u128 = (index as u128) * (cells as u128);
    (product / (count as u128)) as u32
}

/// Position of a tile in the grid: column and row of tile `index` in a grid
/// of `cols` columns, filled row by row.
pub open spec fn tile_col(index: int, cols: int) -> int {
    index % cols
}

pub open spec fn tile_row(index: int, cols: int) -> int {
    index / cols
}

/// Whether tile `index` exists in a grid of `cols` by `rows` tiles.
pub open spec fn in_grid(grid: (usize, usize), index: int) -> bool {
    &&& grid.0 > 0
    &&& grid.1 > 0
    &&& 0 <= index < grid.0 * grid.1
}

/// Whether tile `index` exists in the grid, without forming the product of
/// columns and rows.
pub fn grid_holds(grid: (usize, usize), index: usize) -> (b: bool)
    ensures
        b == in_grid(grid, index as int),
{
    let (cols, rows) = grid;
    if cols == 0 || rows == 0 {
        return false;
    }
    proof {
        let c = cols as int;
        let r = rows as int;
        let i = index as int;
        vstd::arithmetic::div_mod::lemma_fundamental_div_mod(i, c);
        vstd::arithmetic::div_mod::lemma_mod_bound(i, c);
        if i / c < r {
            assert(c * (i / c) <= c * (r - 1)) by (nonlinear_arith)
                requires
                    i / c <= r - 1,
                    c > 0,
            ;
            assert(c * (r - 1) + c == c * r) by (nonlinear_arith);
        } else {
            assert(c * (i / c) >= c * r) by (nonlinear_arith)
                requires
                    i / c >= r,
                    c > 0,
            ;
        }
    }
    index / cols < rows
}

/// The cell span of a tile inside an area of `width` by `height` cells:
/// first column, first row, end column, end row, relative to the area.
pub open spec fn tile_cells(grid: (usize, usize), index: int, width: int, height: int) -> (
    int,
    int,
    int,
    int,
) {
    let col = tile_col(index, grid.0 as int);
    let row = tile_row(index, grid.0 as int);
    (
        tile_boundary(col, width, grid.0 as int),
        tile_boundary(row, height, grid.1 as int),
        tile_boundary(col + 1, width, grid.0 as int),
        tile_boundary(row + 1, height, grid.1 as int),
    )
}

/// The cell span of a tile that lies in the grid.
pub fn tile_span(grid: (usize, usize), index: usize, width: u32, height: u32) -> (span: (
    u32,
    u32,
    u32,
    u32,
))
    requires
        in_grid(grid, index as int),
    ensures
        (span.0 as int, span.1 as int, span.2 as int, span.3 as int) == tile_cells(
            grid,
            index as int,
            width as int,
            height as int,
        ),
        span.0 <= span.2 <= width,
        span.1 <= span.3 <= height,
{
    let (cols, rows) = grid;
    let col: usize = index % cols;
    let row: usize = index / cols;
    proof {
        lemma_grid_position(grid, index as int);
        lemma_tile_boundary_ordered(col as int, width as int, cols as int);
        lemma_tile_boundary_ordered(row as int, height as int, rows as int);
    }
    (
        tile_edge(col, width, cols),
        tile_edge(row, height, rows),
        tile_edge(col + 1, width, cols),
        tile_edge(row + 1, height, rows),
    )
}

/// A tile of the grid lies in one of its rows.
pub proof fn lemma_grid_position(grid: (usize, usize), index: int)
    requires
        in_grid(grid, index),
    ensures
        0 <= index / (grid.0 as int) < grid.1,
        0 <= index % (grid.0 as int) < grid.0,
{
    let c = grid.0 as int;
    let r = grid.1 as int;
    vstd::arithmetic::div_mod::lemma_fundamental_div_mod(index, c);
    vstd::arithmetic::div_mod::lemma_mod_bound(index, c);
    if index / c >= r {
        assert(c * (index / c) >= c * r) by (nonlinear_arith)
            requires
                index / c >= r,
                c > 0,
        ;
    }
    if index / c < 0 {
        assert(c * (index / c) <= -c) by (nonlinear_arith)
            requires
                index / c <= -1,
                c > 0,
        ;
    }
}

} // verus!
