//! The board as a mathematical value, and each move as a function on it.
//!
//! The executable board in `engine` is specified against these definitions:
//! every operation there ends in the state that the function of the same move
//! gives here.

use crate::cell::CellView;
use crate::engine::RevealResult;
use crate::grid::{cell_index, in_grid, touching};
use crate::rng::start_state;
use crate::shuffle::shuffled;
use crate::tally::tally;
use vstd::prelude::*;

verus! {

/// How many cells hold a mine.
pub open spec fn count_mines(cells: Seq<CellView>) -> nat {
    tally(cells, |c: CellView| c.is_mine)
}

/// How many cells are safe and still covered.
pub open spec fn count_hidden_safe(cells: Seq<CellView>) -> nat {
    tally(cells, |c: CellView| !c.is_mine && !c.revealed)
}

/// The indices among which mines are drawn when the cell with index `safe` is
/// revealed first: every index of the area but `safe`, in rising order.
pub open spec fn candidates(area: nat, safe: int) -> Seq<int> {
    Seq::new(
        (area - 1) as nat,
        |k: int|
            if k < safe {
                k
            } else {
                k + 1
            },
    )
}

/// The indices that receive a mine: the first `mines` of the candidates, once
/// shuffled by the generator started from `seed`.
pub open spec fn mine_spots(area: nat, mines: nat, seed: u64, safe: int) -> Seq<int> {
    shuffled(candidates(area, safe), start_state(seed)).take(mines as int)
}

/// A board: its grid and the progress of the game.
pub struct BoardView {
    /// Number of columns.
    pub width: nat,
    /// Number of rows.
    pub height: nat,
    /// Number of mines asked for.
    pub mines: nat,
    /// The cells, row by row.
    pub cells: Seq<CellView>,
    /// Number of safe cells still covered.
    pub remaining_safe: nat,
    /// False once a mine has been revealed.
    pub alive: bool,
    /// True once every safe cell is revealed.
    pub won: bool,
    /// True once the mines are placed.
    pub initialized: bool,
    /// The seed of the mine layout.
    pub seed: u64,
}

impl BoardView {
    /// The board as it is made: every cell blank, nothing placed yet.
    pub open spec fn fresh(width: nat, height: nat, mines: nat, seed: u64) -> BoardView {
        BoardView {
            width,
            height,
            mines,
            cells: Seq::new(width * height, |i: int| CellView::blank()),
            remaining_safe: (width * height - mines) as nat,
            alive: true,
            won: false,
            initialized: false,
            seed,
        }
    }

    /// Number of cells.
    pub open spec fn area(self) -> nat {
        self.width * self.height
    }

    /// Whether `(x, y)` is a position of this board.
    pub open spec fn on_board(self, x: int, y: int) -> bool {
        in_grid(self.width, self.height, x, y)
    }

    /// The index of `(x, y)` among the cells.
    pub open spec fn index_of(self, x: int, y: int) -> int {
        cell_index(self.width, x, y)
    }

    /// The cell at `(x, y)`.
    pub open spec fn at(self, x: int, y: int) -> CellView {
        self.cells[self.index_of(x, y)]
    }

    /// The column of the cell with index `i`.
    pub open spec fn column_of(self, i: int) -> int {
        i % (self.width as int)
    }

    /// The row of the cell with index `i`.
    pub open spec fn row_of(self, i: int) -> int {
        i / (self.width as int)
    }

    /// One if `(x, y)` is a position of the board that holds a mine, else zero.
    pub open spec fn mine_at(self, x: int, y: int) -> int {
        if self.on_board(x, y) && self.at(x, y).is_mine {
            1
        } else {
            0
        }
    }

    /// Number of mines among the up to eight neighbours of `(x, y)`.
    pub open spec fn mines_around(self, x: int, y: int) -> int {
        self.mine_at(x - 1, y - 1) + self.mine_at(x, y - 1) + self.mine_at(x + 1, y - 1)
            + self.mine_at(x - 1, y) + self.mine_at(x + 1, y) + self.mine_at(x - 1, y + 1)
            + self.mine_at(x, y + 1) + self.mine_at(x + 1, y + 1)
    }

    /// The state before the first reveal: no mine, no count, nothing revealed;
    /// flags may already stand.
    pub open spec fn pristine(self) -> bool {
        &&& self.alive
        &&& self.remaining_safe == self.area() - self.mines
        &&& forall|i: int|
            0 <= i < self.cells.len() ==> {
                let c = #[trigger] self.cells[i];
                !c.is_mine && c.adjacent == 0 && !c.revealed
            }
    }

    /// The state from the first reveal on: exactly the mines asked for, every
    /// safe cell counted, and the counter of covered safe cells exact.
    pub open spec fn laid_out(self) -> bool {
        &&& count_mines(self.cells) == self.mines
        &&& self.remaining_safe == count_hidden_safe(self.cells)
        &&& forall|x: int, y: int|
            self.on_board(x, y) ==> (#[trigger] self.at(x, y)).adjacent == (if self.at(
                x,
                y,
            ).is_mine {
                0
            } else {
                self.mines_around(x, y)
            })
    }

    /// The invariant of every board that the operations make.
    pub open spec fn valid(self) -> bool {
        &&& self.width > 0
        &&& self.height > 0
        &&& self.mines < self.area()
        &&& self.cells.len() == self.area()
        &&& self.seed != 0
        &&& forall|i: int|
            0 <= i < self.cells.len() ==> {
                let c = #[trigger] self.cells[i];
                &&& !(c.revealed && c.flagged)
                &&& c.adjacent <= 8
                &&& c.revealed && c.is_mine ==> !self.alive
            }
        &&& if self.initialized {
            self.laid_out()
        } else {
            self.pristine()
        }
        &&& self.won <==> self.remaining_safe == 0
        &&& self.won ==> self.alive
    }

    /// Whether a flag can be toggled at `(x, y)`: the position is on the board
    /// and its cell is still covered.
    pub open spec fn can_flag(self, x: int, y: int) -> bool {
        self.on_board(x, y) && !self.at(x, y).revealed
    }

    /// The board after a flag toggle at `(x, y)`.
    pub open spec fn flag_at(self, x: int, y: int) -> BoardView {
        if self.can_flag(x, y) {
            BoardView {
                cells: self.cells.update(self.index_of(x, y), self.at(x, y).flip_flag()),
                ..self
            }
        } else {
            self
        }
    }

    /// The board with a mine in each cell whose index occurs in `spots`.
    pub open spec fn arm_all(self, spots: Seq<int>) -> BoardView {
        BoardView {
            cells: Seq::new(
                self.cells.len(),
                |i: int|
                    if spots.contains(i) {
                        self.cells[i].arm()
                    } else {
                        self.cells[i]
                    },
            ),
            ..self
        }
    }

    /// The board with the neighbour count of every safe cell set; the cells
    /// with a mine keep theirs.
    pub open spec fn count_all(self) -> BoardView {
        BoardView {
            cells: Seq::new(
                self.cells.len(),
                |i: int|
                    if self.cells[i].is_mine {
                        self.cells[i]
                    } else {
                        self.cells[i].count(
                            self.mines_around(self.column_of(i), self.row_of(i)) as nat,
                        )
                    },
            ),
            ..self
        }
    }

    /// The board after mine placement for a first reveal at `(x, y)`: mines on
    /// the spots drawn among all cells but that one, then every safe cell
    /// counted.
    pub open spec fn lay_out(self, x: int, y: int) -> BoardView {
        let spots = mine_spots(self.area(), self.mines, self.seed, self.index_of(x, y));
        BoardView { initialized: true, ..self.arm_all(spots).count_all() }
    }

    /// Whether the flood fill may uncover `(x, y)`: on the board, covered,
    /// unflagged and safe.
    pub open spec fn fillable(self, x: int, y: int) -> bool {
        self.on_board(x, y) && self.at(x, y).open_to_reveal()
    }

    /// Whether the flood fill goes on from `(x, y)` to its neighbours: it may
    /// uncover the cell, and the cell has no mine around it.
    pub open spec fn spreads(self, x: int, y: int) -> bool {
        self.fillable(x, y) && self.at(x, y).adjacent == 0
    }

    /// Whether the fill passes from `path[k]` to `path[k + 1]`.
    pub open spec fn fill_step(self, path: Seq<(int, int)>, k: int) -> bool {
        &&& self.spreads(path[k].0, path[k].1)
        &&& touching(path[k].0, path[k].1, path[k + 1].0, path[k + 1].1)
    }

    /// Whether the fill can follow `path`: every position on it may be
    /// uncovered, and each but the last spreads to the next, which touches it.
    pub open spec fn fill_path(self, path: Seq<(int, int)>) -> bool {
        &&& path.len() > 0
        &&& forall|k: int| 0 <= k < path.len() ==> self.fillable((#[trigger] path[k]).0, path[k].1)
        &&& forall|k: int| 0 <= k < path.len() - 1 ==> #[trigger] self.fill_step(path, k)
    }

    /// Whether `path` leads the fill from `(sx, sy)` to `(tx, ty)`.
    pub open spec fn fill_route(self, path: Seq<(int, int)>, sx: int, sy: int, tx: int, ty: int)
        -> bool {
        &&& self.fill_path(path)
        &&& path[0] == (sx, sy)
        &&& path.last() == (tx, ty)
    }

    /// Whether a fill started at `(sx, sy)` uncovers `(tx, ty)`.
    pub open spec fn fill_reaches(self, sx: int, sy: int, tx: int, ty: int) -> bool {
        exists|path: Seq<(int, int)>| #[trigger] self.fill_route(path, sx, sy, tx, ty)
    }

    /// The board after a flood fill from `(sx, sy)`: every cell that the fill
    /// reaches is uncovered, and the counter of covered safe cells follows.
    pub open spec fn flood(self, sx: int, sy: int) -> BoardView {
        let cells = Seq::new(
            self.cells.len(),
            |i: int|
                if self.fill_reaches(sx, sy, self.column_of(i), self.row_of(i)) {
                    self.cells[i].uncover()
                } else {
                    self.cells[i]
                },
        );
        BoardView { cells, remaining_safe: count_hidden_safe(cells), ..self }
    }

    /// The board with the game won if it is still on and no safe cell is left
    /// covered.
    pub open spec fn settle(self) -> BoardView {
        BoardView { won: self.won || (self.remaining_safe == 0 && self.alive), ..self }
    }

    /// Whether a reveal at `(x, y)` changes nothing: the game is over, the
    /// position is off the board, or its cell is flagged or already revealed.
    pub open spec fn reveal_ignored(self, x: int, y: int) -> bool {
        ||| !self.alive
        ||| self.won
        ||| !self.on_board(x, y)
        ||| self.at(x, y).flagged
        ||| self.at(x, y).revealed
    }

    /// The board on which a reveal at `(x, y)` acts: this one, with the mines
    /// placed around `(x, y)` if they were not placed yet.
    pub open spec fn prepared(self, x: int, y: int) -> BoardView {
        if self.initialized {
            self
        } else {
            self.lay_out(x, y)
        }
    }

    /// The board after the reveal of the mine at `(x, y)`: that cell is
    /// uncovered and the game is lost.
    pub open spec fn explode(self, x: int, y: int) -> BoardView {
        BoardView {
            cells: self.cells.update(self.index_of(x, y), self.at(x, y).uncover()),
            alive: false,
            ..self
        }
    }

    /// What a reveal at `(x, y)` reports.
    pub open spec fn reveal_outcome(self, x: int, y: int) -> RevealResult {
        if self.reveal_ignored(x, y) {
            RevealResult::NoOp
        } else if self.prepared(x, y).at(x, y).is_mine {
            RevealResult::HitMine
        } else {
            RevealResult::RevealedSafe
        }
    }

    /// The board after a reveal at `(x, y)`.
    pub open spec fn reveal_at(self, x: int, y: int) -> BoardView {
        if self.reveal_ignored(x, y) {
            self
        } else if self.prepared(x, y).at(x, y).is_mine {
            self.prepared(x, y).explode(x, y)
        } else {
            self.prepared(x, y).flood(x, y).settle()
        }
    }
}

} // verus!
