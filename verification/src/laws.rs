//! Grid-level laws of the simulation, proved once and for all: what
//! neighbor counting yields on uniform grids, and that toggling a cell is
//! an involution.

use vstd::prelude::*;
use vstd::arithmetic::div_mod::lemma_mod_division_less_than_divisor;

use crate::cell::{flipped, Cell};
use crate::universe::{flat_index, live_neighbors, wrapped};

verus! {

/// A wrapped coordinate always lands inside its dimension.
pub proof fn lemma_wrapped_in_range(coord: int, delta: int, dim: int)
    requires
        1 <= dim,
    ensures
        0 <= wrapped(coord, delta, dim) < dim,
{
    lemma_mod_division_less_than_divisor(coord + delta + dim, dim);
}

/// The flat index of a toroidally wrapped neighbor position lies inside
/// the cell buffer of a `width` by `height` grid.
proof fn lemma_neighbor_flat_in_range(width: int, height: int, row: int, col: int, dr: int, dc: int)
    requires
        1 <= width,
        1 <= height,
    ensures
        ({
            let i = flat_index(width, wrapped(row, dr, height), wrapped(col, dc, width));
            0 <= i < width * height
        }),
{
    lemma_wrapped_in_range(row, dr, height);
    lemma_wrapped_in_range(col, dc, width);
    let r = wrapped(row, dr, height);
    let c = wrapped(col, dc, width);
    assert(0 <= r * width + c < width * height) by (nonlinear_arith)
        requires
            0 <= r < height,
            0 <= c < width,
    ;
}

/// On a grid whose cells are all `Dead`, the live-neighbor count of every
/// cell is 0.
pub proof fn lemma_all_dead_grid_counts_zero(
    cells: Seq<Cell>,
    width: int,
    height: int,
    row: int,
    col: int,
)
    requires
        1 <= width,
        1 <= height,
        cells.len() == width * height,
        forall|i: int| 0 <= i < cells.len() ==> cells[i] == Cell::Dead,
        0 <= row < height,
        0 <= col < width,
    ensures
        live_neighbors(cells, width, height, row, col) == 0,
{
    lemma_neighbor_flat_in_range(width, height, row, col, -1, -1);
    lemma_neighbor_flat_in_range(width, height, row, col, -1, 0);
    lemma_neighbor_flat_in_range(width, height, row, col, -1, 1);
    lemma_neighbor_flat_in_range(width, height, row, col, 0, -1);
    lemma_neighbor_flat_in_range(width, height, row, col, 0, 1);
    lemma_neighbor_flat_in_range(width, height, row, col, 1, -1);
    lemma_neighbor_flat_in_range(width, height, row, col, 1, 0);
    lemma_neighbor_flat_in_range(width, height, row, col, 1, 1);
}

/// On a grid whose cells are all `Alive`, the live-neighbor count of every
/// cell is 8: the toroidal wrap supplies a full set of 8 neighbors
/// everywhere, at the corners and edges included.
pub proof fn lemma_all_alive_grid_counts_eight(
    cells: Seq<Cell>,
    width: int,
    height: int,
    row: int,
    col: int,
)
    requires
        1 <= width,
        1 <= height,
        cells.len() == width * height,
        forall|i: int| 0 <= i < cells.len() ==> cells[i] == Cell::Alive,
        0 <= row < height,
        0 <= col < width,
    ensures
        live_neighbors(cells, width, height, row, col) == 8,
{
    lemma_neighbor_flat_in_range(width, height, row, col, -1, -1);
    lemma_neighbor_flat_in_range(width, height, row, col, -1, 0);
    lemma_neighbor_flat_in_range(width, height, row, col, -1, 1);
    lemma_neighbor_flat_in_range(width, height, row, col, 0, -1);
    lemma_neighbor_flat_in_range(width, height, row, col, 0, 1);
    lemma_neighbor_flat_in_range(width, height, row, col, 1, -1);
    lemma_neighbor_flat_in_range(width, height, row, col, 1, 0);
    lemma_neighbor_flat_in_range(width, height, row, col, 1, 1);
}

/// Toggling the cell at one position twice, with no mutation in between,
/// returns the grid to its original state.  The grid after each toggle is
/// written as the sequence update that `Universe::toggle_cell` promises.
pub proof fn lemma_toggle_twice_restores(cells: Seq<Cell>, i: int)
    requires
        0 <= i < cells.len(),
    ensures
        ({
            let once = cells.update(i, flipped(cells[i]));
            let twice = once.update(i, flipped(once[i]));
            twice == cells
        }),
{
    let once = cells.update(i, flipped(cells[i]));
    let twice = once.update(i, flipped(once[i]));
    assert(twice =~= cells);
}

} // verus!
