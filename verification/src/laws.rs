//! What holds of every game, proved from the definitions of the moves.

use crate::cell::CellView;
use crate::engine::RevealResult;
use crate::fill::{
    lemma_fill_extend, lemma_fill_start, lemma_flood_at, lemma_flood_keeps_valid,
    lemma_reached_is_fillable,
};
use crate::grid::{lemma_index_in_area, touching};
use crate::layout::{lemma_lay_out_valid, lemma_mines_among_neighbors};
use crate::model::{count_mines, mine_spots, BoardView};
use crate::moves::{
    lemma_explode_keeps_valid, lemma_flag_keeps_valid, lemma_same_mines_same_counts,
};
use crate::tally::{lemma_tally_implies, lemma_tally_zero};
use vstd::prelude::*;

verus! {

/// A reveal keeps a valid board valid, whatever it does.
pub proof fn law_reveal_keeps_valid(b: BoardView, x: int, y: int)
    requires
        b.valid(),
    ensures
        b.reveal_at(x, y).valid(),
{
    if !b.reveal_ignored(x, y) {
        let ready = b.prepared(x, y);
        lemma_index_in_area(b.width, b.height, x, y);
        if !b.initialized {
            lemma_lay_out_valid(b, x, y);
        }
        if ready.at(x, y).is_mine {
            lemma_explode_keeps_valid(ready, x, y);
        } else {
            lemma_flood_keeps_valid(ready, x, y);
        }
    }
}

/// A flag toggle keeps a valid board valid.
pub proof fn law_flag_keeps_valid(b: BoardView, x: int, y: int)
    requires
        b.valid(),
    ensures
        b.flag_at(x, y).valid(),
{
    lemma_flag_keeps_valid(b, x, y);
}

/// The first reveal never hits a mine: the revealed cell is safe and
/// uncovered afterwards, and the reveal reports safe cells.
pub proof fn law_first_reveal_is_safe(b: BoardView, x: int, y: int)
    requires
        b.valid(),
        !b.initialized,
        b.on_board(x, y),
    ensures
        !b.reveal_at(x, y).at(x, y).is_mine,
        b.reveal_outcome(x, y) != RevealResult::HitMine,
        !b.at(x, y).flagged ==> {
            &&& b.reveal_outcome(x, y) == RevealResult::RevealedSafe
            &&& b.reveal_at(x, y).initialized
            &&& b.reveal_at(x, y).at(x, y).revealed
        },
{
    lemma_index_in_area(b.width, b.height, x, y);
    lemma_lay_out_valid(b, x, y);
    if !b.reveal_ignored(x, y) {
        let ready = b.lay_out(x, y);
        assert(ready.fillable(x, y));
        lemma_fill_start(ready, x, y);
        lemma_flood_at(ready, x, y, x, y);
    }
}

/// Once the mines are placed, the count stored in a safe cell is the number
/// of mines among its neighbours on the board, at most eight.
pub proof fn law_adjacency_is_exact(b: BoardView, x: int, y: int)
    requires
        b.valid(),
        b.initialized,
        b.on_board(x, y),
        !b.at(x, y).is_mine,
    ensures
        b.at(x, y).adjacent == b.mines_around(x, y),
        0 <= b.mines_around(x, y) <= 8,
{
    lemma_mines_among_neighbors(b, x, y);
}

/// The mines on the board are none before the first reveal and exactly the
/// number asked for after it; a new board has as many safe cells to find as
/// cells without the mines.
pub proof fn law_mine_count_is_kept(b: BoardView)
    requires
        b.valid(),
    ensures
        count_mines(b.cells) == (if b.initialized {
            b.mines
        } else {
            0
        }),
        count_mines(b.cells) <= b.mines,
        !b.initialized ==> b.remaining_safe == b.width * b.height - b.mines,
        b.remaining_safe <= b.width * b.height - b.mines,
{
    let is_mine = |c: CellView| c.is_mine;
    let hidden_safe = |c: CellView| !c.is_mine && !c.revealed;
    let safe = |c: CellView| !c.is_mine;
    if !b.initialized {
        lemma_tally_zero(b.cells, is_mine);
    } else {
        lemma_tally_implies(b.cells, b.cells, hidden_safe, safe);
        crate::tally::lemma_tally_split(b.cells, is_mine, safe);
    }
}

/// The board made for given measures and seed has every cell blank and as
/// many safe cells to find as cells without the mines.
pub proof fn law_fresh_board(width: nat, height: nat, mines: nat, seed: u64)
    requires
        width > 0,
        height > 0,
        mines < width * height,
        seed != 0,
    ensures
        BoardView::fresh(width, height, mines, seed).valid(),
        BoardView::fresh(width, height, mines, seed).remaining_safe == width * height - mines,
        !BoardView::fresh(width, height, mines, seed).initialized,
{
}

/// A reveal never covers a cell again, never raises the number of safe cells
/// to find, never revives a lost game and never takes a win back; it keeps
/// the measures of the board and, once they are placed, the mines.
pub proof fn law_reveal_is_monotone(b: BoardView, x: int, y: int)
    requires
        b.valid(),
    ensures
        ({
            let a = b.reveal_at(x, y);
            &&& a.width == b.width && a.height == b.height && a.mines == b.mines && a.seed
                == b.seed
            &&& a.cells.len() == b.cells.len()
            &&& forall|i: int|
                0 <= i < b.cells.len() ==> {
                    let c = #[trigger] a.cells[i];
                    &&& b.cells[i].revealed ==> c.revealed
                    &&& c.flagged == b.cells[i].flagged
                    &&& b.initialized ==> c.is_mine == b.cells[i].is_mine && c.adjacent
                        == b.cells[i].adjacent
                }
            &&& a.remaining_safe <= b.remaining_safe
            &&& !b.alive ==> !a.alive
            &&& b.won ==> a.won
            &&& b.initialized ==> a.initialized
        }),
{
    if !b.reveal_ignored(x, y) {
        let ready = b.prepared(x, y);
        let a = b.reveal_at(x, y);
        lemma_index_in_area(b.width, b.height, x, y);
        law_reveal_keeps_valid(b, x, y);
        if !b.initialized {
            lemma_lay_out_valid(b, x, y);
        }
        assert forall|i: int| 0 <= i < b.cells.len() implies {
            let c = #[trigger] a.cells[i];
            &&& ready.cells[i].revealed ==> c.revealed
            &&& c.flagged == ready.cells[i].flagged
            &&& c.is_mine == ready.cells[i].is_mine
            &&& c.adjacent == ready.cells[i].adjacent
        } by {}
        if !ready.at(x, y).is_mine {
            lemma_tally_implies(
                a.cells,
                ready.cells,
                |c: CellView| !c.is_mine && !c.revealed,
                |c: CellView| !c.is_mine && !c.revealed,
            );
        }
    }
}

/// A flag toggle changes no more than the flag of one covered cell.
pub proof fn law_flag_is_local(b: BoardView, x: int, y: int)
    requires
        b.valid(),
    ensures
        ({
            let a = b.flag_at(x, y);
            &&& a == (BoardView { cells: a.cells, ..b })
            &&& a.cells.len() == b.cells.len()
            &&& forall|i: int|
                0 <= i < b.cells.len() ==> {
                    let c = #[trigger] a.cells[i];
                    &&& c.revealed == b.cells[i].revealed
                    &&& c.is_mine == b.cells[i].is_mine
                    &&& c.adjacent == b.cells[i].adjacent
                    &&& c.flagged != b.cells[i].flagged ==> b.can_flag(x, y) && i == b.index_of(
                        x,
                        y,
                    )
                }
        }),
{
    if b.can_flag(x, y) {
        lemma_index_in_area(b.width, b.height, x, y);
    }
}

/// What a flood shows of a board on which the mines are placed.
pub open spec fn flood_shown(ready: BoardView, a: BoardView, x: int, y: int) -> bool {
    &&& a.at(x, y).revealed
    &&& forall|tx: int, ty: int|
        ready.on_board(tx, ty) ==> ((#[trigger] a.at(tx, ty)).revealed <==> ready.at(
            tx,
            ty,
        ).revealed || ready.fill_reaches(x, y, tx, ty))
    &&& forall|tx: int, ty: int|
        ready.on_board(tx, ty) && (ready.at(tx, ty).flagged || ready.at(tx, ty).is_mine)
            ==> #[trigger] a.at(tx, ty) == ready.at(tx, ty)
    &&& forall|ux: int, uy: int, tx: int, ty: int|
        ready.on_board(ux, uy) && ready.on_board(tx, ty) && #[trigger] touching(ux, uy, tx, ty)
            && a.at(ux, uy).revealed && !ready.at(ux, uy).revealed && a.at(ux, uy).adjacent == 0
            && !ready.at(tx, ty).flagged ==> a.at(tx, ty).revealed
}

proof fn lemma_flood_shown(b: BoardView, x: int, y: int)
    requires
        b.valid(),
        b.initialized,
        !b.reveal_ignored(x, y),
        !b.at(x, y).is_mine,
    ensures
        flood_shown(b, b.reveal_at(x, y), x, y),
{
    let a = b.reveal_at(x, y);
    lemma_fill_start(b, x, y);
    lemma_flood_at(b, x, y, x, y);
    assert forall|tx: int, ty: int| b.on_board(tx, ty) implies ((#[trigger] a.at(
        tx,
        ty,
    )).revealed <==> b.at(tx, ty).revealed || b.fill_reaches(x, y, tx, ty)) && (b.at(
        tx,
        ty,
    ).flagged || b.at(tx, ty).is_mine ==> a.at(tx, ty) == b.at(tx, ty)) by {
        lemma_flood_at(b, x, y, tx, ty);
        if b.fill_reaches(x, y, tx, ty) {
            lemma_reached_is_fillable(b, x, y, tx, ty);
        }
    }
    assert forall|ux: int, uy: int, tx: int, ty: int|
        b.on_board(ux, uy) && b.on_board(tx, ty) && #[trigger] touching(ux, uy, tx, ty) && a.at(
            ux,
            uy,
        ).revealed && !b.at(ux, uy).revealed && a.at(ux, uy).adjacent == 0 && !b.at(
            tx,
            ty,
        ).flagged implies a.at(tx, ty).revealed by {
        lemma_flood_at(b, x, y, ux, uy);
        lemma_flood_at(b, x, y, tx, ty);
        lemma_reached_is_fillable(b, x, y, ux, uy);
        lemma_mines_among_neighbors(b, ux, uy);
        assert(b.mines_around(ux, uy) == 0);
        assert(b.mine_at(tx, ty) == 0);
        if !b.at(tx, ty).revealed {
            lemma_fill_extend(b, x, y, ux, uy, tx, ty);
        }
    }
}

/// A reveal of a safe cell uncovers exactly what the flood fill reaches from
/// it on the board as it stands once the mines are placed: the cell itself,
/// and through every uncovered cell with no mine around it all its
/// neighbours but the flagged ones. Flagged cells and mines stay covered.
pub proof fn law_flood_is_complete(b: BoardView, x: int, y: int)
    requires
        b.valid(),
        !b.reveal_ignored(x, y),
        !b.prepared(x, y).at(x, y).is_mine,
    ensures
        flood_shown(b.prepared(x, y), b.reveal_at(x, y), x, y),
{
    let ready = b.prepared(x, y);
    if b.initialized {
        lemma_flood_shown(b, x, y);
    } else {
        lemma_index_in_area(b.width, b.height, x, y);
        lemma_lay_out_valid(b, x, y);
        assert(ready.at(x, y) == ready.cells[b.index_of(x, y)]);
        assert(!ready.reveal_ignored(x, y));
        assert(ready.reveal_at(x, y) == b.reveal_at(x, y));
        lemma_flood_shown(ready, x, y);
    }
}

/// No board is both won and lost, and a won board has no safe cell covered.
pub proof fn law_win_excludes_loss(b: BoardView)
    requires
        b.valid(),
    ensures
        !(b.won && !b.alive),
        b.won <==> b.remaining_safe == 0,
        b.won ==> forall|i: int|
            0 <= i < b.cells.len() ==> (#[trigger] b.cells[i]).is_mine || b.cells[i].revealed,
{
    if b.won {
        lemma_tally_zero(b.cells, |c: CellView| !c.is_mine && !c.revealed);
        assert(b.initialized);
    }
}

/// Once the game is over, a reveal changes nothing.
pub proof fn law_game_over_is_final(b: BoardView, x: int, y: int)
    requires
        !b.alive || b.won,
    ensures
        b.reveal_at(x, y) == b,
        b.reveal_outcome(x, y) == RevealResult::NoOp,
{
}

/// Two boards of the same measures and seed that take their first reveal at
/// the same cell get the same mines and the same counts, whatever flags
/// stand on them.
pub proof fn law_layout_is_determined(a: BoardView, b: BoardView, x: int, y: int)
    requires
        a.valid(),
        b.valid(),
        !a.initialized,
        !b.initialized,
        a.width == b.width,
        a.height == b.height,
        a.mines == b.mines,
        a.seed == b.seed,
        !a.reveal_ignored(x, y),
        !b.reveal_ignored(x, y),
    ensures
        forall|i: int|
            0 <= i < a.cells.len() ==> {
                let c = #[trigger] a.reveal_at(x, y).cells[i];
                let d = b.reveal_at(x, y).cells[i];
                &&& c.is_mine == d.is_mine
                &&& c.adjacent == d.adjacent
                &&& c.is_mine == mine_spots(a.area(), a.mines, a.seed, a.index_of(x, y)).contains(i)
            },
        a.reveal_outcome(x, y) == b.reveal_outcome(x, y),
{
    let spots = mine_spots(a.area(), a.mines, a.seed, a.index_of(x, y));
    let ra = a.lay_out(x, y);
    let rb = b.lay_out(x, y);
    lemma_index_in_area(a.width, a.height, x, y);
    lemma_lay_out_valid(a, x, y);
    lemma_lay_out_valid(b, x, y);
    lemma_same_mines_same_counts(a.arm_all(spots), b.arm_all(spots));
    law_reveal_is_monotone(ra, x, y);
    law_reveal_is_monotone(rb, x, y);
    assert(a.reveal_at(x, y) == ra.reveal_at(x, y));
    assert(b.reveal_at(x, y) == rb.reveal_at(x, y));
    assert forall|i: int| 0 <= i < a.cells.len() implies {
        let c = #[trigger] a.reveal_at(x, y).cells[i];
        let d = b.reveal_at(x, y).cells[i];
        &&& c.is_mine == d.is_mine
        &&& c.adjacent == d.adjacent
        &&& c.is_mine == spots.contains(i)
    } by {
        assert(ra.cells[i].is_mine == spots.contains(i));
        assert(rb.cells[i].is_mine == spots.contains(i));
        assert(ra.cells[i].adjacent == rb.cells[i].adjacent);
        let c = ra.reveal_at(x, y).cells[i];
        let d = rb.reveal_at(x, y).cells[i];
        assert(c.is_mine == ra.cells[i].is_mine);
        assert(d.is_mine == rb.cells[i].is_mine);
    }
}

} // verus!
