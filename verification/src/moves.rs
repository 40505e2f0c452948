//! Every move keeps a valid board valid.

use crate::grid::lemma_index_in_area;
use crate::model::{count_hidden_safe, count_mines, BoardView};
use crate::tally::lemma_tally_same;
use vstd::prelude::*;

verus! {

/// Two boards of one shape with mines in the same cells have the same mine
/// counts around every position.
pub proof fn lemma_same_mines_same_counts(a: BoardView, b: BoardView)
    requires
        a.width == b.width,
        a.height == b.height,
        a.cells.len() == a.area(),
        b.cells.len() == a.area(),
        forall|i: int| 0 <= i < a.cells.len() ==> a.cells[i].is_mine == b.cells[i].is_mine,
    ensures
        forall|x: int, y: int| #[trigger] a.mine_at(x, y) == b.mine_at(x, y),
        forall|x: int, y: int| #[trigger] a.mines_around(x, y) == b.mines_around(x, y),
{
    assert forall|x: int, y: int| #[trigger] a.mine_at(x, y) == b.mine_at(x, y) by {
        if a.on_board(x, y) {
            lemma_index_in_area(a.width, a.height, x, y);
        }
    }
}

/// A flag toggle keeps the board valid.
pub proof fn lemma_flag_keeps_valid(b: BoardView, x: int, y: int)
    requires
        b.valid(),
    ensures
        b.flag_at(x, y).valid(),
{
    if b.can_flag(x, y) {
        let a = b.flag_at(x, y);
        let i = b.index_of(x, y);
        lemma_index_in_area(b.width, b.height, x, y);
        if b.initialized {
            lemma_tally_same(b.cells, a.cells, |c: crate::cell::CellView| c.is_mine);
            lemma_tally_same(
                b.cells,
                a.cells,
                |c: crate::cell::CellView| !c.is_mine && !c.revealed,
            );
            lemma_same_mines_same_counts(a, b);
            assert forall|x2: int, y2: int| a.on_board(x2, y2) implies (#[trigger] a.at(
                x2,
                y2,
            )).adjacent == (if a.at(x2, y2).is_mine {
                0
            } else {
                a.mines_around(x2, y2)
            }) by {
                lemma_index_in_area(b.width, b.height, x2, y2);
                assert(b.at(x2, y2).adjacent == (if b.at(x2, y2).is_mine {
                    0
                } else {
                    b.mines_around(x2, y2)
                }));
            }
            assert(count_mines(a.cells) == count_mines(b.cells));
            assert(count_hidden_safe(a.cells) == count_hidden_safe(b.cells));
        }
    }
}

/// The reveal of a mine keeps the board valid.
pub proof fn lemma_explode_keeps_valid(b: BoardView, x: int, y: int)
    requires
        b.valid(),
        b.initialized,
        !b.won,
        b.on_board(x, y),
        b.at(x, y).is_mine,
        !b.at(x, y).flagged,
    ensures
        b.explode(x, y).valid(),
{
    let a = b.explode(x, y);
    lemma_index_in_area(b.width, b.height, x, y);
    lemma_tally_same(b.cells, a.cells, |c: crate::cell::CellView| c.is_mine);
    lemma_tally_same(b.cells, a.cells, |c: crate::cell::CellView| !c.is_mine && !c.revealed);
    lemma_same_mines_same_counts(a, b);
    assert forall|x2: int, y2: int| a.on_board(x2, y2) implies (#[trigger] a.at(x2, y2)).adjacent
        == (if a.at(x2, y2).is_mine {
        0
    } else {
        a.mines_around(x2, y2)
    }) by {
        lemma_index_in_area(b.width, b.height, x2, y2);
        assert(b.at(x2, y2).adjacent == (if b.at(x2, y2).is_mine {
            0
        } else {
            b.mines_around(x2, y2)
        }));
    }
    assert(count_mines(a.cells) == count_mines(b.cells));
    assert(count_hidden_safe(a.cells) == count_hidden_safe(b.cells));
}

} // verus!
