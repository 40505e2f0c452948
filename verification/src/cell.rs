//! One grid position and its mathematical view.

use vstd::prelude::*;

verus! {

/// What a cell holds, as a plain mathematical value.
pub struct CellView {
    /// Whether a mine lies here; fixed at placement.
    pub is_mine: bool,
    /// Number of mines among the neighbours; meaningful for safe cells.
    pub adjacent: nat,
    /// Whether the cell has been uncovered.
    pub revealed: bool,
    /// Whether the player has locked the cell with a flag.
    pub flagged: bool,
}

impl CellView {
    /// The cell of a freshly made board: safe, uncounted, covered, unflagged.
    pub open spec fn blank() -> CellView {
        CellView { is_mine: false, adjacent: 0, revealed: false, flagged: false }
    }

    /// The same cell, uncovered.
    pub open spec fn uncover(self) -> CellView {
        CellView { revealed: true, ..self }
    }

    /// The same cell with a mine in it.
    pub open spec fn arm(self) -> CellView {
        CellView { is_mine: true, ..self }
    }

    /// The same cell with its neighbour count set to `n`.
    pub open spec fn count(self, n: nat) -> CellView {
        CellView { adjacent: n, ..self }
    }

    /// The same cell with its flag flipped.
    pub open spec fn flip_flag(self) -> CellView {
        CellView { flagged: !self.flagged, ..self }
    }

    /// Covered, unflagged and safe: the cells a reveal may uncover.
    pub open spec fn open_to_reveal(self) -> bool {
        !self.revealed && !self.flagged && !self.is_mine
    }
}

/// One grid position.
#[derive(Clone, Copy, Debug)]
pub struct Cell {
    is_mine: bool,
    adjacent: u8,
    revealed: bool,
    flagged: bool,
}

impl View for Cell {
    type V = CellView;

    closed spec fn view(&self) -> CellView {
        CellView {
            is_mine: self.is_mine,
            adjacent: self.adjacent as nat,
            revealed: self.revealed,
            flagged: self.flagged,
        }
    }
}

impl Default for Cell {
    fn default() -> (c: Cell)
        ensures
            c@ == CellView::blank(),
    {
        Cell { is_mine: false, adjacent: 0, revealed: false, flagged: false }
    }
}

impl Cell {
    /// Whether a mine lies here.
    pub fn is_mine(&self) -> (r: bool)
        ensures
            r == self@.is_mine,
    {
        self.is_mine
    }

    /// Number of mines among the neighbours.
    pub fn adjacent(&self) -> (r: u8)
        ensures
            r as nat == self@.adjacent,
    {
        self.adjacent
    }

    /// Whether the cell has been uncovered.
    pub fn revealed(&self) -> (r: bool)
        ensures
            r == self@.revealed,
    {
        self.revealed
    }

    /// Whether the cell carries a flag.
    pub fn flagged(&self) -> (r: bool)
        ensures
            r == self@.flagged,
    {
        self.flagged
    }

    /// The same cell with a mine in it.
    pub(crate) fn armed(self) -> (c: Cell)
        ensures
            c@ == self@.arm(),
    {
        Cell { is_mine: true, ..self }
    }

    /// The same cell with its neighbour count set to `n`.
    pub(crate) fn counted(self, n: u8) -> (c: Cell)
        ensures
            c@ == self@.count(n as nat),
    {
        Cell { adjacent: n, ..self }
    }

    /// The same cell, uncovered.
    pub(crate) fn uncovered(self) -> (c: Cell)
        ensures
            c@ == self@.uncover(),
    {
        Cell { revealed: true, ..self }
    }

    /// The same cell with its flag flipped.
    pub(crate) fn flag_flipped(self) -> (c: Cell)
        ensures
            c@ == self@.flip_flag(),
    {
        Cell { flagged: !self.flagged, ..self }
    }
}

} // verus!
