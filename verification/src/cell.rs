//! The binary state of one grid position: `Dead` or `Alive`.

use vstd::prelude::*;

verus! {

/// One grid position's state.  The byte encoding shared with external
/// renderers maps `Dead` to 0 and `Alive` to 1 (see [`Cell::as_byte`]).
#[derive(Clone, Copy, Debug, PartialEq, Eq, Structural)]
pub enum Cell {
    Dead,
    Alive,
}

/// The state with `Dead` and `Alive` exchanged.
pub open spec fn flipped(c: Cell) -> Cell {
    match c {
        Cell::Dead => Cell::Alive,
        Cell::Alive => Cell::Dead,
    }
}

/// The contribution of one cell to a live-neighbor count: 1 if it is
/// `Alive`, 0 if it is `Dead`.
pub open spec fn alive_weight(c: Cell) -> int {
    if c == Cell::Alive {
        1
    } else {
        0
    }
}

/// The glyph that renders one cell in the textual grid picture.
pub open spec fn glyph(c: Cell) -> char {
    if c == Cell::Alive {
        '◼'
    } else {
        '◻'
    }
}

impl Cell {
    /// Flip this cell between `Dead` and `Alive`.
    pub fn toggle(&mut self)
        ensures
            *final(self) == flipped(*old(self)),
    {
        *self = match *self {
            Cell::Alive => Cell::Dead,
            Cell::Dead => Cell::Alive,
        };
    }

    /// The byte encoding of this cell: 0 for `Dead`, 1 for `Alive`.
    pub fn as_byte(&self) -> (b: u8)
        ensures
            b == alive_weight(*self),
    {
        match *self {
            Cell::Dead => 0,
            Cell::Alive => 1,
        }
    }
}

/// Flipping a cell twice restores its original state.
pub proof fn lemma_flipped_involutive(c: Cell)
    ensures
        flipped(flipped(c)) == c,
{
}

} // verus!
