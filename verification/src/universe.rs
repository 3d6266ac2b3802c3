//! The toroidal grid and its operations: sizing, cell editing, the
//! generation step, and textual rendering.

use vstd::prelude::*;
use vstd::arithmetic::div_mod::{
    lemma_mod_add_multiples_vanish, lemma_mod_self_0, lemma_small_mod,
};
use vstd::pervasive::VecAdditionalExecFns;

use crate::cell::{alive_weight, flipped, glyph, Cell};

verus! {

/// The flat, row-major position of the cell at `(row, col)` on a grid of
/// the given width.
pub open spec fn flat_index(width: int, row: int, col: int) -> int {
    row * width + col
}

/// The cell that the default constructor places at flat index `i`:
/// `Alive` where `i` is divisible by 2 or by 7, `Dead` elsewhere.  A
/// deterministic seed pattern, not a random one.
pub open spec fn seed_cell(i: int) -> Cell {
    if i % 2 == 0 || i % 7 == 0 {
        Cell::Alive
    } else {
        Cell::Dead
    }
}

/// A coordinate moved by `delta` and wrapped around a dimension of size
/// `dim`, the toroidal neighbor rule: `(coord + delta + dim) % dim`.
/// Adding `dim` before taking the remainder keeps the dividend non-negative
/// for the offsets -1, 0 and 1.
pub open spec fn wrapped(coord: int, delta: int, dim: int) -> int {
    (coord + delta + dim) % dim
}

/// The live-neighbor contribution of the cell one toroidal step `(dr, dc)`
/// away from `(row, col)`: 1 if it is `Alive`, 0 if it is `Dead`.
pub open spec fn neighbor_weight(
    cells: Seq<Cell>,
    width: int,
    height: int,
    row: int,
    col: int,
    dr: int,
    dc: int,
) -> int {
    alive_weight(cells[flat_index(width, wrapped(row, dr, height), wrapped(col, dc, width))])
}

/// The number of `Alive` cells among the 8 toroidally wrapped neighbors of
/// `(row, col)`: every combination of row and column offsets -1, 0 and 1
/// except the cell's own position.
pub open spec fn live_neighbors(
    cells: Seq<Cell>,
    width: int,
    height: int,
    row: int,
    col: int,
) -> int {
    neighbor_weight(cells, width, height, row, col, -1, -1)
        + neighbor_weight(cells, width, height, row, col, -1, 0)
        + neighbor_weight(cells, width, height, row, col, -1, 1)
        + neighbor_weight(cells, width, height, row, col, 0, -1)
        + neighbor_weight(cells, width, height, row, col, 0, 1)
        + neighbor_weight(cells, width, height, row, col, 1, -1)
        + neighbor_weight(cells, width, height, row, col, 1, 0)
        + neighbor_weight(cells, width, height, row, col, 1, 1)
}

/// The classic Game-of-Life transition for one cell with `n` live
/// neighbors: an `Alive` cell survives exactly with 2 or 3 live neighbors
/// (underpopulation below, overpopulation above); a `Dead` cell comes alive
/// exactly with 3 (reproduction); every other cell keeps its state.
pub open spec fn next_cell(c: Cell, n: int) -> Cell {
    match c {
        Cell::Alive => if n < 2 {
            Cell::Dead
        } else if n <= 3 {
            Cell::Alive
        } else {
            Cell::Dead
        },
        Cell::Dead => if n == 3 {
            Cell::Alive
        } else {
            Cell::Dead
        },
    }
}

/// The character at column `col` of line `row` in the rendered picture:
/// one glyph per cell of the row, in column order, then a terminating
/// newline at column `width`.
pub open spec fn render_char_at(cells: Seq<Cell>, width: int, row: int, col: int) -> char {
    if col == width {
        '\n'
    } else {
        glyph(cells[flat_index(width, row, col)])
    }
}

/// Relies on `String::from_iter`: collecting characters builds the string
/// that holds exactly those characters in order.
#[verifier::external_body]
fn chars_to_string(chars: Vec<char>) -> (s: String)
    ensures
        s@ == chars@,
{
    String::from_iter(chars)
}

/// The grid: a flat, row-major buffer of `width * height` cells.
pub struct Universe {
    width: u32,
    height: u32,
    cells: Vec<Cell>,
}

impl Universe {
    /// The grid width, as a mathematical integer.
    pub closed spec fn spec_width(&self) -> int {
        self.width as int
    }

    /// The grid height, as a mathematical integer.
    pub closed spec fn spec_height(&self) -> int {
        self.height as int
    }

    /// The cell buffer, as a mathematical sequence in row-major order.
    pub closed spec fn grid(&self) -> Seq<Cell> {
        self.cells@
    }

    /// The structural invariant: the buffer holds exactly one cell per grid
    /// position, and the cell count fits the 32-bit index arithmetic that
    /// the operations use.
    pub open spec fn well_formed(&self) -> bool {
        &&& self.grid().len() == self.spec_width() * self.spec_height()
        &&& self.spec_width() * self.spec_height() <= u32::MAX
    }

    /// The grid width.
    pub fn width(&self) -> (w: u32)
        ensures
            w == self.spec_width(),
    {
        self.width
    }

    /// The grid height.
    pub fn height(&self) -> (h: u32)
        ensures
            h == self.spec_height(),
    {
        self.height
    }

    /// The flat buffer index of the cell at `(row, column)`:
    /// `row * width + column`.
    pub fn get_index(&self, row: u32, column: u32) -> (idx: usize)
        requires
            self.well_formed(),
            row < self.spec_height(),
            column < self.spec_width(),
        ensures
            idx == flat_index(self.spec_width(), row as int, column as int),
            idx < self.grid().len(),
    {
        proof {
            assert(row * self.spec_width() + column < self.spec_height() * self.spec_width())
                by (nonlinear_arith)
                requires
                    row < self.spec_height(),
                    column < self.spec_width(),
                    0 <= row,
                    0 <= column,
            ;
            assert(self.spec_height() * self.spec_width() == self.spec_width() * self.spec_height())
                by (nonlinear_arith);
        }
        (row * self.width + column) as usize
    }

    /// A fresh buffer of `count` `Dead` cells.
    fn dead_cells(count: u32) -> (v: Vec<Cell>)
        ensures
            v@.len() == count,
            forall|i: int| 0 <= i < v@.len() ==> v@[i] == Cell::Dead,
    {
        let mut v: Vec<Cell> = Vec::new();
        let mut i: u32 = 0;
        while i < count
            invariant
                i <= count,
                v@.len() == i,
                forall|j: int| 0 <= j < v@.len() ==> v@[j] == Cell::Dead,
            decreases count - i,
        {
            v.push(Cell::Dead);
            i = i + 1;
        }
        v
    }

    /// Replace the width and reset every cell of the resized grid to `Dead`.
    /// Resizing deliberately wipes the whole grid; it does not preserve any
    /// previously live cell.
    pub fn set_width(&mut self, width: u32)
        requires
            width * old(self).spec_height() <= u32::MAX,
        ensures
            final(self).well_formed(),
            final(self).spec_width() == width,
            final(self).spec_height() == old(self).spec_height(),
            final(self).grid().len() == width * old(self).spec_height(),
            forall|i: int| 0 <= i < final(self).grid().len() ==> final(self).grid()[i] == Cell::Dead,
    {
        self.width = width;
        let count = self.width * self.height;
        self.cells = Self::dead_cells(count);
    }

    /// Replace the height and reset every cell of the resized grid to `Dead`.
    /// Resizing deliberately wipes the whole grid; it does not preserve any
    /// previously live cell.
    pub fn set_height(&mut self, height: u32)
        requires
            old(self).spec_width() * height <= u32::MAX,
        ensures
            final(self).well_formed(),
            final(self).spec_width() == old(self).spec_width(),
            final(self).spec_height() == height,
            final(self).grid().len() == old(self).spec_width() * height,
            forall|i: int| 0 <= i < final(self).grid().len() ==> final(self).grid()[i] == Cell::Dead,
    {
        self.height = height;
        let count = self.width * self.height;
        self.cells = Self::dead_cells(count);
    }

    /// A read-only, row-major view of the whole cell buffer.
    pub fn get_cells(&self) -> (s: &[Cell])
        ensures
            s@ == self.grid(),
    {
        self.cells.as_slice()
    }

    /// A read-only, row-major view of the whole cell buffer, for a renderer
    /// that reads the grid without copying it.  The slice carries the
    /// buffer's length, `width * height`.
    pub fn cells(&self) -> (s: &[Cell])
        ensures
            s@ == self.grid(),
    {
        self.cells.as_slice()
    }

    /// Set every listed `(row, column)` position to `Alive`, in order,
    /// leaving every other cell at its prior value.  Nothing is cleared
    /// first, and pairs are applied independently; a repeated pair simply
    /// sets its cell to `Alive` again.
    pub fn set_cells(&mut self, cells: &[(u32, u32)])
        requires
            old(self).well_formed(),
            forall|j: int|
                0 <= j < cells@.len() ==> (#[trigger] cells@[j]).0 < old(self).spec_height()
                    && cells@[j].1 < old(self).spec_width(),
        ensures
            final(self).well_formed(),
            final(self).spec_width() == old(self).spec_width(),
            final(self).spec_height() == old(self).spec_height(),
            final(self).grid().len() == old(self).grid().len(),
            forall|i: int|
                0 <= i < final(self).grid().len() ==> final(self).grid()[i] == (if (exists|j: int|
                    0 <= j < cells@.len() && i == flat_index(
                        old(self).spec_width(),
                        (#[trigger] cells@[j]).0 as int,
                        cells@[j].1 as int,
                    )) {
                    Cell::Alive
                } else {
                    old(self).grid()[i]
                }),
    {
        let ghost w = self.spec_width();
        let ghost h = self.spec_height();
        let ghost g0 = self.grid();
        let mut k: usize = 0;
        while k < cells.len()
            invariant
                self.well_formed(),
                w == self.spec_width(),
                h == self.spec_height(),
                self.grid().len() == g0.len(),
                k <= cells@.len(),
                forall|j: int|
                    0 <= j < cells@.len() ==> (#[trigger] cells@[j]).0 < h && cells@[j].1 < w,
                forall|i: int|
                    0 <= i < self.grid().len() ==> self.grid()[i] == (if (exists|j: int|
                        0 <= j < k && i == flat_index(
                            w,
                            (#[trigger] cells@[j]).0 as int,
                            cells@[j].1 as int,
                        )) {
                        Cell::Alive
                    } else {
                        g0[i]
                    }),
            decreases cells@.len() - k,
        {
            let pair = cells[k];
            let idx = self.get_index(pair.0, pair.1);
            self.cells.set(idx, Cell::Alive);
            k = k + 1;
            proof {
                assert forall|i: int| 0 <= i < self.grid().len() implies self.grid()[i] == (if (
                exists|j: int|
                    0 <= j < k && i == flat_index(
                        w,
                        (#[trigger] cells@[j]).0 as int,
                        cells@[j].1 as int,
                    )) {
                    Cell::Alive
                } else {
                    g0[i]
                }) by {
                    let last = flat_index(w, cells@[k - 1].0 as int, cells@[k - 1].1 as int);
                    if i == last {
                        assert(0 <= k - 1 < k && i == flat_index(
                            w,
                            (cells@[k - 1]).0 as int,
                            cells@[k - 1].1 as int,
                        ));
                    } else {
                        if exists|j: int|
                            0 <= j < k - 1 && i == flat_index(
                                w,
                                (#[trigger] cells@[j]).0 as int,
                                cells@[j].1 as int,
                            ) {
                            let j0 = choose|j: int|
                                0 <= j < k - 1 && i == flat_index(
                                    w,
                                    (#[trigger] cells@[j]).0 as int,
                                    cells@[j].1 as int,
                                );
                            assert(0 <= j0 < k && i == flat_index(
                                w,
                                (cells@[j0]).0 as int,
                                cells@[j0].1 as int,
                            ));
                        } else {
                            if exists|j: int|
                                0 <= j < k && i == flat_index(
                                    w,
                                    (#[trigger] cells@[j]).0 as int,
                                    cells@[j].1 as int,
                                ) {
                                let j1 = choose|j: int|
                                    0 <= j < k && i == flat_index(
                                        w,
                                        (#[trigger] cells@[j]).0 as int,
                                        cells@[j].1 as int,
                                    );
                                assert(j1 == k - 1 ==> i == last);
                                assert(0 <= j1 < k - 1 && i == flat_index(
                                    w,
                                    (cells@[j1]).0 as int,
                                    cells@[j1].1 as int,
                                ));
                            }
                        }
                    }
                }
            }
        }
    }

    /// Flip the state of the cell at `(row, col)`.  No wrap-around: the
    /// coordinates must lie inside the grid.
    pub fn toggle_cell(&mut self, row: u32, col: u32)
        requires
            old(self).well_formed(),
            row < old(self).spec_height(),
            col < old(self).spec_width(),
        ensures
            final(self).well_formed(),
            final(self).spec_width() == old(self).spec_width(),
            final(self).spec_height() == old(self).spec_height(),
            final(self).grid() == old(self).grid().update(
                flat_index(old(self).spec_width(), row as int, col as int),
                flipped(
                    old(self).grid()[flat_index(old(self).spec_width(), row as int, col as int)],
                ),
            ),
    {
        let idx = self.get_index(row, col);
        let mut c = self.cells[idx];
        c.toggle();
        self.cells.set(idx, c);
    }

    /// The coordinate one wrapped step towards zero: `(coord - 1 + dim) % dim`.
    fn wrap_dec(coord: u32, dim: u32) -> (r: u32)
        requires
            1 <= dim,
            coord < dim,
        ensures
            r == wrapped(coord as int, -1, dim as int),
            r < dim,
    {
        proof {
            if coord == 0 {
                lemma_small_mod((dim - 1) as nat, dim as nat);
            } else {
                lemma_mod_add_multiples_vanish(coord - 1, dim as int);
                lemma_small_mod((coord - 1) as nat, dim as nat);
            }
        }
        if coord == 0 {
            dim - 1
        } else {
            coord - 1
        }
    }

    /// The coordinate one wrapped step away from zero: `(coord + 1 + dim) % dim`.
    fn wrap_inc(coord: u32, dim: u32) -> (r: u32)
        requires
            1 <= dim,
            coord < dim,
        ensures
            r == wrapped(coord as int, 1, dim as int),
            r < dim,
    {
        proof {
            lemma_mod_add_multiples_vanish(coord + 1, dim as int);
            if coord + 1 == dim {
                lemma_mod_self_0(dim as int);
            } else {
                lemma_small_mod((coord + 1) as nat, dim as nat);
            }
        }
        if coord + 1 == dim {
            0
        } else {
            coord + 1
        }
    }

    /// The live-neighbor contribution of the cell at `(row, col)`.
    fn cell_weight(&self, row: u32, col: u32) -> (w: u8)
        requires
            self.well_formed(),
            row < self.spec_height(),
            col < self.spec_width(),
        ensures
            w == alive_weight(self.grid()[flat_index(self.spec_width(), row as int, col as int)]),
            w <= 1,
    {
        let idx = self.get_index(row, col);
        match self.cells[idx] {
            Cell::Alive => 1,
            Cell::Dead => 0,
        }
    }

    /// The number of `Alive` cells among the 8 toroidally wrapped neighbors
    /// of `(row, column)`.
    pub fn live_neighbor_count(&self, row: u32, column: u32) -> (count: u8)
        requires
            self.well_formed(),
            1 <= self.spec_width(),
            1 <= self.spec_height(),
            row < self.spec_height(),
            column < self.spec_width(),
        ensures
            count == live_neighbors(
                self.grid(),
                self.spec_width(),
                self.spec_height(),
                row as int,
                column as int,
            ),
    {
        proof {
            lemma_mod_add_multiples_vanish(row as int, self.spec_height());
            lemma_small_mod(row as nat, self.height as nat);
            lemma_mod_add_multiples_vanish(column as int, self.spec_width());
            lemma_small_mod(column as nat, self.width as nat);
        }
        let north = Self::wrap_dec(row, self.height);
        let south = Self::wrap_inc(row, self.height);
        let west = Self::wrap_dec(column, self.width);
        let east = Self::wrap_inc(column, self.width);
        let mut count: u8 = 0;
        count = count + self.cell_weight(north, west);
        count = count + self.cell_weight(north, column);
        count = count + self.cell_weight(north, east);
        count = count + self.cell_weight(row, west);
        count = count + self.cell_weight(row, east);
        count = count + self.cell_weight(south, west);
        count = count + self.cell_weight(south, column);
        count = count + self.cell_weight(south, east);
        count
    }

    /// A 128 by 128 universe seeded with the deterministic default pattern:
    /// the cell at flat index `i` is `Alive` where `i` is divisible by 2 or
    /// by 7, `Dead` elsewhere.
    pub fn new() -> (u: Universe)
        ensures
            u.well_formed(),
            u.spec_width() == 128,
            u.spec_height() == 128,
            u.grid().len() == 128 * 128,
            forall|i: int| 0 <= i < u.grid().len() ==> u.grid()[i] == seed_cell(i),
    {
        let width: u32 = 128;
        let height: u32 = 128;
        let count: u32 = width * height;
        let mut cells: Vec<Cell> = Vec::new();
        let mut i: u32 = 0;
        while i < count
            invariant
                i <= count,
                count == 128 * 128,
                cells@.len() == i,
                forall|j: int| 0 <= j < cells@.len() ==> cells@[j] == seed_cell(j),
            decreases count - i,
        {
            let cell = if i % 2 == 0 || i % 7 == 0 {
                Cell::Alive
            } else {
                Cell::Dead
            };
            cells.push(cell);
            i = i + 1;
        }
        Universe { width, height, cells }
    }

    /// The next generation of the current grid, computed cell by cell in
    /// row-major order against the current state only.
    fn next_generation(&self) -> (next: Vec<Cell>)
        requires
            self.well_formed(),
            1 <= self.spec_width(),
            1 <= self.spec_height(),
        ensures
            next@.len() == self.grid().len(),
            forall|r: int, c: int|
                0 <= r < self.spec_height() && 0 <= c < self.spec_width() ==> next@[flat_index(
                    self.spec_width(),
                    r,
                    c,
                )] == next_cell(
                    self.grid()[flat_index(self.spec_width(), r, c)],
                    #[trigger] live_neighbors(
                        self.grid(),
                        self.spec_width(),
                        self.spec_height(),
                        r,
                        c,
                    ),
                ),
    {
        let ghost w = self.spec_width();
        let ghost h = self.spec_height();
        let mut next: Vec<Cell> = Vec::new();
        let mut row: u32 = 0;
        while row < self.height
            invariant
                self.well_formed(),
                1 <= w,
                1 <= h,
                w == self.spec_width(),
                h == self.spec_height(),
                row <= h,
                next@.len() == row * w,
                forall|r: int, c: int|
                    0 <= r < row && 0 <= c < w ==> next@[flat_index(w, r, c)] == next_cell(
                        self.grid()[flat_index(w, r, c)],
                        #[trigger] live_neighbors(self.grid(), w, h, r, c),
                    ),
            decreases h - row,
        {
            let mut col: u32 = 0;
            while col < self.width
                invariant
                    self.well_formed(),
                    1 <= w,
                    1 <= h,
                    w == self.spec_width(),
                    h == self.spec_height(),
                    row < h,
                    col <= w,
                    next@.len() == row * w + col,
                    forall|r: int, c: int|
                        0 <= r < row && 0 <= c < w ==> next@[flat_index(w, r, c)] == next_cell(
                            self.grid()[flat_index(w, r, c)],
                            #[trigger] live_neighbors(self.grid(), w, h, r, c),
                        ),
                    forall|c: int|
                        0 <= c < col ==> next@[flat_index(w, row as int, c)] == next_cell(
                            self.grid()[flat_index(w, row as int, c)],
                            #[trigger] live_neighbors(self.grid(), w, h, row as int, c),
                        ),
                decreases w - col,
            {
                proof {
                    assert(row * w + col < h * w) by (nonlinear_arith)
                        requires
                            0 <= row < h,
                            0 <= col < w,
                    ;
                    assert(h * w == w * h) by (nonlinear_arith);
                }
                let idx = self.get_index(row, col);
                let cell = self.cells[idx];
                let n = self.live_neighbor_count(row, col);
                let new_cell = match cell {
                    Cell::Alive => if n < 2 {
                        Cell::Dead
                    } else if n <= 3 {
                        Cell::Alive
                    } else {
                        Cell::Dead
                    },
                    Cell::Dead => if n == 3 {
                        Cell::Alive
                    } else {
                        Cell::Dead
                    },
                };
                next.push(new_cell);
                proof {
                    assert forall|r: int, c: int|
                        0 <= r < row && 0 <= c < w implies 0 <= #[trigger] flat_index(w, r, c)
                            < row * w by {
                        assert(0 <= r * w + c < row * w) by (nonlinear_arith)
                            requires
                                0 <= r < row,
                                0 <= c < w,
                        ;
                    }
                }
                col = col + 1;
            }
            row = row + 1;
            proof {
                assert(next@.len() == row * w) by (nonlinear_arith)
                    requires
                        next@.len() == (row - 1) * w + w,
                ;
                assert forall|r: int, c: int| 0 <= r < row && 0 <= c < w implies next@[flat_index(
                    w,
                    r,
                    c,
                )] == next_cell(
                    self.grid()[flat_index(w, r, c)],
                    #[trigger] live_neighbors(self.grid(), w, h, r, c),
                ) by {
                    assert(0 <= r * w + c < row * w) by (nonlinear_arith)
                        requires
                            0 <= r < row,
                            0 <= c < w,
                    ;
                    assert((row - 1) * w + c == flat_index(w, row - 1, c)) by (nonlinear_arith);
                    if r == row - 1 {
                        assert(next@[flat_index(w, row - 1, c)] == next_cell(
                            self.grid()[flat_index(w, row - 1, c)],
                            live_neighbors(self.grid(), w, h, row - 1, c),
                        ));
                    }
                }
            }
        }
        proof {
            assert(next@.len() == self.grid().len()) by (nonlinear_arith)
                requires
                    next@.len() == row * w,
                    row == h,
                    self.grid().len() == w * h,
            ;
        }
        next
    }

    /// Advance the grid by one generation.  Every cell's new state is the
    /// classic transition applied to its old state and the live-neighbor
    /// count taken from the old grid exclusively: the new generation is
    /// computed into a separate buffer and only then swapped in, so no cell
    /// sees an already-updated neighbor.
    pub fn tick(&mut self)
        requires
            old(self).well_formed(),
            1 <= old(self).spec_width(),
            1 <= old(self).spec_height(),
        ensures
            final(self).well_formed(),
            final(self).spec_width() == old(self).spec_width(),
            final(self).spec_height() == old(self).spec_height(),
            final(self).grid().len() == old(self).grid().len(),
            forall|r: int, c: int|
                0 <= r < old(self).spec_height() && 0 <= c < old(self).spec_width()
                    ==> final(self).grid()[flat_index(old(self).spec_width(), r, c)] == next_cell(
                    old(self).grid()[flat_index(old(self).spec_width(), r, c)],
                    #[trigger] live_neighbors(
                        old(self).grid(),
                        old(self).spec_width(),
                        old(self).spec_height(),
                        r,
                        c,
                    ),
                ),
    {
        let next = self.next_generation();
        self.cells = next;
    }

    /// A textual picture of the grid: `height` lines of `width` glyphs
    /// each, rows in order, columns left to right, every line terminated by
    /// a newline.  A pure function of the current state.
    pub fn render(&self) -> (out: String)
        requires
            self.well_formed(),
        ensures
            out@.len() == self.spec_height() * (self.spec_width() + 1),
            forall|r: int, c: int|
                0 <= r < self.spec_height() && 0 <= c <= self.spec_width()
                    ==> out@[r * (self.spec_width() + 1) + c] == #[trigger] render_char_at(
                    self.grid(),
                    self.spec_width(),
                    r,
                    c,
                ),
    {
        let ghost w = self.spec_width();
        let ghost h = self.spec_height();
        let mut chars: Vec<char> = Vec::new();
        let mut row: u32 = 0;
        while row < self.height
            invariant
                self.well_formed(),
                w == self.spec_width(),
                h == self.spec_height(),
                row <= h,
                chars@.len() == row * (w + 1),
                forall|r: int, c: int|
                    0 <= r < row && 0 <= c <= w ==> chars@[r * (w + 1) + c]
                        == #[trigger] render_char_at(self.grid(), w, r, c),
            decreases h - row,
        {
            let mut col: u32 = 0;
            while col < self.width
                invariant
                    self.well_formed(),
                    w == self.spec_width(),
                    h == self.spec_height(),
                    row < h,
                    col <= w,
                    chars@.len() == row * (w + 1) + col,
                    forall|r: int, c: int|
                        0 <= r < row && 0 <= c <= w ==> chars@[r * (w + 1) + c]
                            == #[trigger] render_char_at(self.grid(), w, r, c),
                    forall|c: int|
                        0 <= c < col ==> chars@[row * (w + 1) + c] == #[trigger] render_char_at(
                            self.grid(),
                            w,
                            row as int,
                            c,
                        ),
                decreases w - col,
            {
                let idx = self.get_index(row, col);
                let cell = self.cells[idx];
                let ch = match cell {
                    Cell::Alive => '◼',
                    Cell::Dead => '◻',
                };
                chars.push(ch);
                proof {
                    assert forall|r: int, c: int|
                        0 <= r < row && 0 <= c <= w implies chars@[r * (w + 1) + c]
                            == #[trigger] render_char_at(self.grid(), w, r, c) by {
                        assert(0 <= r * (w + 1) + c < row * (w + 1)) by (nonlinear_arith)
                            requires
                                0 <= r < row,
                                0 <= c <= w,
                        ;
                    }
                }
                col = col + 1;
            }
            chars.push('\n');
            proof {
                assert(chars@.len() == (row + 1) * (w + 1)) by (nonlinear_arith)
                    requires
                        chars@.len() == row * (w + 1) + w + 1,
                ;
                assert forall|r: int, c: int|
                    0 <= r < row + 1 && 0 <= c <= w implies chars@[r * (w + 1) + c]
                        == #[trigger] render_char_at(self.grid(), w, r, c) by {
                    assert(0 <= r * (w + 1) + c < (row + 1) * (w + 1)) by (nonlinear_arith)
                        requires
                            0 <= r <= row,
                            0 <= c <= w,
                    ;
                    if r == row {
                        if c < w {
                            assert(chars@[row * (w + 1) + c] == render_char_at(
                                self.grid(),
                                w,
                                row as int,
                                c,
                            ));
                        } else {
                            assert(chars@[row * (w + 1) + w] == '\n');
                        }
                    } else {
                        assert(0 <= r * (w + 1) + c < row * (w + 1)) by (nonlinear_arith)
                            requires
                                0 <= r < row,
                                0 <= c <= w,
                        ;
                    }
                }
            }
            row = row + 1;
        }
        chars_to_string(chars)
    }
}

} // verus!
