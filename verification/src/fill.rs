//! The flood fill as a worklist: what holds while positions wait on the
//! stack, and that an empty stack leaves exactly the reached cells uncovered.

use crate::cell::CellView;
use crate::grid::{
    lemma_index_in_area, lemma_index_injective, lemma_index_roundtrip, lemma_index_split, touching,
};
use crate::model::{count_hidden_safe, BoardView};
use crate::moves::lemma_same_mines_same_counts;
use crate::tally::{lemma_tally_same, lemma_tally_update};
use vstd::prelude::*;

verus! {

/// The path of one position.
pub proof fn lemma_fill_start(b: BoardView, sx: int, sy: int)
    requires
        b.fillable(sx, sy),
    ensures
        b.fill_reaches(sx, sy, sx, sy),
{
    let path = seq![(sx, sy)];
    assert(path[0] == (sx, sy));
    assert(b.fill_route(path, sx, sy, sx, sy));
}

/// A path goes on from a position that spreads to a fillable one that touches
/// it.
pub proof fn lemma_fill_extend(b: BoardView, sx: int, sy: int, ux: int, uy: int, tx: int, ty: int)
    requires
        b.fill_reaches(sx, sy, ux, uy),
        b.spreads(ux, uy),
        touching(ux, uy, tx, ty),
        b.fillable(tx, ty),
    ensures
        b.fill_reaches(sx, sy, tx, ty),
{
    let path = choose|path: Seq<(int, int)>| #[trigger] b.fill_route(path, sx, sy, ux, uy);
    let longer = path.push((tx, ty));
    assert forall|k: int| 0 <= k < longer.len() implies b.fillable(
        (#[trigger] longer[k]).0,
        longer[k].1,
    ) by {
        if k < path.len() {
            assert(longer[k] == path[k]);
        }
    }
    assert forall|k: int| 0 <= k < longer.len() - 1 implies #[trigger] b.fill_step(longer, k) by {
        if k < path.len() - 1 {
            assert(b.fill_step(path, k));
            assert(longer[k] == path[k]);
            assert(longer[k + 1] == path[k + 1]);
        } else {
            assert(longer[k] == path.last());
            assert(longer[k + 1] == (tx, ty));
        }
    }
    assert(longer[0] == path[0]);
    assert(b.fill_route(longer, sx, sy, tx, ty));
}

/// What the fill reaches, it may uncover.
pub proof fn lemma_reached_is_fillable(b: BoardView, sx: int, sy: int, x: int, y: int)
    requires
        b.fill_reaches(sx, sy, x, y),
    ensures
        b.fillable(x, y),
        b.fillable(sx, sy),
{
    let path = choose|path: Seq<(int, int)>| #[trigger] b.fill_route(path, sx, sy, x, y);
    assert(b.fillable(path[path.len() - 1].0, path[path.len() - 1].1));
    assert(b.fillable(path[0].0, path[0].1));
}

/// The board `c` is `b` with some cells uncovered and the counter of covered
/// safe cells kept exact.
pub open spec fn uncovers_only(b: BoardView, c: BoardView) -> bool {
    &&& c == (BoardView { cells: c.cells, remaining_safe: c.remaining_safe, ..b })
    &&& c.cells.len() == b.cells.len()
    &&& c.remaining_safe == count_hidden_safe(c.cells)
    &&& forall|i: int|
        0 <= i < c.cells.len() ==> #[trigger] c.cells[i] == b.cells[i] || c.cells[i]
            == b.cells[i].uncover()
}

/// Every cell uncovered since `b` is one that the fill from `(sx, sy)`
/// reaches.
pub open spec fn fill_sound(b: BoardView, c: BoardView, sx: int, sy: int) -> bool {
    forall|x: int, y: int|
        b.on_board(x, y) && (#[trigger] c.at(x, y)).revealed && !b.at(x, y).revealed
            ==> b.fill_reaches(sx, sy, x, y)
}

/// Every waiting position is on the board, and is reached by the fill if it
/// may be uncovered at all.
pub open spec fn waiting_sound(b: BoardView, stack: Seq<(int, int)>, sx: int, sy: int) -> bool {
    forall|k: int|
        0 <= k < stack.len() ==> {
            let p = #[trigger] stack[k];
            &&& b.on_board(p.0, p.1)
            &&& b.fillable(p.0, p.1) ==> b.fill_reaches(sx, sy, p.0, p.1)
        }
}

/// The position is uncovered already or waits on the stack.
pub open spec fn settled(c: BoardView, stack: Seq<(int, int)>, x: int, y: int) -> bool {
    c.at(x, y).revealed || stack.contains((x, y))
}

/// Whether the fill has passed from `(x, y)`, uncovered by now, towards
/// `(tx, ty)`.
pub open spec fn passes(b: BoardView, c: BoardView, x: int, y: int, tx: int, ty: int) -> bool {
    &&& b.spreads(x, y)
    &&& c.at(x, y).revealed
    &&& touching(x, y, tx, ty)
    &&& b.fillable(tx, ty)
}

/// Nothing is forgotten: the start, and every position that the fill passes
/// to from an uncovered one, is uncovered or waiting.
pub open spec fn fill_closed(
    b: BoardView,
    c: BoardView,
    stack: Seq<(int, int)>,
    sx: int,
    sy: int,
) -> bool {
    &&& settled(c, stack, sx, sy)
    &&& forall|x: int, y: int, tx: int, ty: int| #[trigger]
        passes(b, c, x, y, tx, ty) ==> settled(c, stack, tx, ty)
}

/// What holds of the fill from `(sx, sy)` on `b` whenever it looks at the
/// stack.
pub open spec fn fill_inv(
    b: BoardView,
    c: BoardView,
    stack: Seq<(int, int)>,
    sx: int,
    sy: int,
) -> bool {
    &&& b.width > 0
    &&& b.cells.len() == b.area()
    &&& b.fillable(sx, sy)
    &&& uncovers_only(b, c)
    &&& fill_sound(b, c, sx, sy)
    &&& waiting_sound(b, stack, sx, sy)
    &&& fill_closed(b, c, stack, sx, sy)
}

/// The fill begins with its start on the stack.
pub proof fn lemma_fill_begin(b: BoardView, sx: int, sy: int)
    requires
        b.width > 0,
        b.cells.len() == b.area(),
        b.remaining_safe == count_hidden_safe(b.cells),
        b.fillable(sx, sy),
    ensures
        fill_inv(b, b, seq![(sx, sy)], sx, sy),
{
    let stack = seq![(sx, sy)];
    lemma_fill_start(b, sx, sy);
    assert(stack[0] == (sx, sy));
    assert(stack.contains((sx, sy)));
    assert forall|x: int, y: int, tx: int, ty: int| #[trigger]
        passes(b, b, x, y, tx, ty) implies settled(b, stack, tx, ty) by {}
}

/// A position that cannot be uncovered leaves the stack.
pub proof fn lemma_fill_skip(b: BoardView, c: BoardView, stack: Seq<(int, int)>, sx: int, sy: int)
    requires
        fill_inv(b, c, stack, sx, sy),
        stack.len() > 0,
        !c.fillable(stack.last().0, stack.last().1),
    ensures
        fill_inv(b, c, stack.drop_last(), sx, sy),
{
    let rest = stack.drop_last();
    let top = stack.last();
    assert(b.on_board(top.0, top.1));
    lemma_index_in_area(b.width, b.height, top.0, top.1);
    assert(c.at(top.0, top.1).revealed || !b.fillable(top.0, top.1));
    assert forall|tx: int, ty: int|
        settled(c, stack, tx, ty) && b.fillable(tx, ty) implies settled(c, rest, tx, ty) by {
        if !c.at(tx, ty).revealed {
            let k = choose|k: int| 0 <= k < stack.len() && stack[k] == (tx, ty);
            assert(k < rest.len());
            assert(rest[k] == (tx, ty));
        }
    }
    assert forall|k: int| 0 <= k < rest.len() implies {
        let p = #[trigger] rest[k];
        &&& b.on_board(p.0, p.1)
        &&& b.fillable(p.0, p.1) ==> b.fill_reaches(sx, sy, p.0, p.1)
    } by {
        assert(rest[k] == stack[k]);
    }
    assert forall|x: int, y: int, tx: int, ty: int| #[trigger]
        passes(b, c, x, y, tx, ty) implies settled(c, rest, tx, ty) by {
        assert(settled(c, stack, tx, ty));
    }
}

/// The board `c` with the cell at `(x, y)` uncovered and one safe cell fewer
/// to find.
pub open spec fn uncover_at(c: BoardView, x: int, y: int) -> BoardView {
    BoardView {
        cells: c.cells.update(c.index_of(x, y), c.at(x, y).uncover()),
        remaining_safe: (c.remaining_safe - 1) as nat,
        ..c
    }
}

/// Uncovering a safe covered cell takes one off the count of covered safe
/// cells.
pub proof fn lemma_uncover_counts(b: BoardView, c: BoardView, x: int, y: int)
    requires
        b.width > 0,
        b.cells.len() == b.area(),
        uncovers_only(b, c),
        c.fillable(x, y),
    ensures
        count_hidden_safe(c.cells) >= 1,
        count_hidden_safe(uncover_at(c, x, y).cells) == count_hidden_safe(c.cells) - 1,
{
    lemma_index_in_area(b.width, b.height, x, y);
    lemma_tally_update(
        c.cells,
        |v: CellView| !v.is_mine && !v.revealed,
        c.index_of(x, y),
        c.at(x, y).uncover(),
    );
}

/// The top of the stack is uncovered, and whatever it passes to has been put
/// on the stack: the fill goes on.
pub proof fn lemma_fill_uncover(
    b: BoardView,
    c: BoardView,
    stack: Seq<(int, int)>,
    after: Seq<(int, int)>,
    sx: int,
    sy: int,
)
    requires
        fill_inv(b, c, stack, sx, sy),
        stack.len() > 0,
        c.fillable(stack.last().0, stack.last().1),
        stack.drop_last().len() <= after.len(),
        forall|k: int| 0 <= k < stack.len() - 1 ==> after[k] == stack[k],
        waiting_sound(b, after, sx, sy),
        forall|tx: int, ty: int| #[trigger]
            passes(b, uncover_at(c, stack.last().0, stack.last().1), stack.last().0, stack.last().1, tx, ty)
                ==> settled(uncover_at(c, stack.last().0, stack.last().1), after, tx, ty),
    ensures
        fill_inv(b, uncover_at(c, stack.last().0, stack.last().1), after, sx, sy),
        b.fill_reaches(sx, sy, stack.last().0, stack.last().1),
{
    let top = stack.last();
    let (x, y) = top;
    let c2 = uncover_at(c, x, y);
    let i = c.index_of(x, y);
    assert(b.on_board(x, y));
    lemma_index_in_area(b.width, b.height, x, y);
    assert(c.cells[i] == b.cells[i] || c.cells[i] == b.cells[i].uncover());
    assert(b.fillable(x, y));
    assert(b.fill_reaches(sx, sy, x, y));
    lemma_uncover_counts(b, c, x, y);

    assert forall|j: int| 0 <= j < c2.cells.len() implies #[trigger] c2.cells[j] == b.cells[j]
        || c2.cells[j] == b.cells[j].uncover() by {
        assert(c.cells[j] == b.cells[j] || c.cells[j] == b.cells[j].uncover());
    }
    assert forall|x2: int, y2: int|
        b.on_board(x2, y2) && (#[trigger] c2.at(x2, y2)).revealed && !b.at(
            x2,
            y2,
        ).revealed implies b.fill_reaches(sx, sy, x2, y2) by {
        lemma_index_in_area(b.width, b.height, x2, y2);
        if c2.index_of(x2, y2) == i {
            lemma_index_injective(b.width, x, y, x2, y2);
        } else {
            assert(c.at(x2, y2).revealed);
        }
    }
    assert forall|tx: int, ty: int|
        settled(c, stack, tx, ty) && b.on_board(tx, ty) implies settled(c2, after, tx, ty) by {
        lemma_index_in_area(b.width, b.height, tx, ty);
        if c.at(tx, ty).revealed {
            assert(c2.at(tx, ty).revealed);
        } else {
            let k = choose|k: int| 0 <= k < stack.len() && stack[k] == (tx, ty);
            if k == stack.len() - 1 {
                assert(c2.at(tx, ty).revealed);
            } else {
                assert(after[k] == (tx, ty));
            }
        }
    }
    assert forall|x2: int, y2: int, tx: int, ty: int| #[trigger]
        passes(b, c2, x2, y2, tx, ty) implies settled(c2, after, tx, ty) by {
        lemma_index_in_area(b.width, b.height, x2, y2);
        if c2.index_of(x2, y2) == i {
            lemma_index_injective(b.width, x, y, x2, y2);
        } else {
            assert(c.at(x2, y2).revealed);
            assert(passes(b, c, x2, y2, tx, ty));
            assert(settled(c, stack, tx, ty));
        }
    }
}

/// With nothing left on the stack, every position on a path from the start is
/// uncovered.
proof fn lemma_path_uncovered(b: BoardView, c: BoardView, sx: int, sy: int, path: Seq<(int, int)>, k: int)
    requires
        fill_inv(b, c, Seq::empty(), sx, sy),
        b.fill_path(path),
        path[0] == (sx, sy),
        0 <= k < path.len(),
    ensures
        c.at(path[k].0, path[k].1).revealed,
    decreases k,
{
    let none = Seq::<(int, int)>::empty();
    if k == 0 {
        assert(settled(c, none, sx, sy));
    } else {
        lemma_path_uncovered(b, c, sx, sy, path, k - 1);
        assert(b.fill_step(path, k - 1));
        assert(b.fillable(path[k].0, path[k].1));
        assert(passes(b, c, path[k - 1].0, path[k - 1].1, path[k].0, path[k].1));
        assert(settled(c, none, path[k].0, path[k].1));
    }
}

/// With nothing left on the stack, the uncovered cells are those of the
/// flood.
pub proof fn lemma_fill_done(b: BoardView, c: BoardView, sx: int, sy: int)
    requires
        fill_inv(b, c, Seq::empty(), sx, sy),
    ensures
        c == b.flood(sx, sy),
{
    let target = b.flood(sx, sy).cells;
    assert forall|i: int| 0 <= i < c.cells.len() implies c.cells[i] == target[i] by {
        lemma_index_split(b.width, b.height, i);
        let x = b.column_of(i);
        let y = b.row_of(i);
        assert(c.cells[i] == b.cells[i] || c.cells[i] == b.cells[i].uncover());
        assert(c.at(x, y) == c.cells[i]);
        assert(b.at(x, y) == b.cells[i]);
        if b.fill_reaches(sx, sy, x, y) {
            let path = choose|path: Seq<(int, int)>| #[trigger] b.fill_route(path, sx, sy, x, y);
            lemma_path_uncovered(b, c, sx, sy, path, path.len() - 1);
            lemma_reached_is_fillable(b, sx, sy, x, y);
        }
    }
    assert(c.cells =~= target);
}

/// A flood from a fillable cell of a valid board that is laid out and still
/// in play gives a valid board, once the win is settled.
pub proof fn lemma_flood_keeps_valid(b: BoardView, x: int, y: int)
    requires
        b.valid(),
        b.initialized,
        b.alive,
        !b.won,
        b.fillable(x, y),
    ensures
        b.flood(x, y).settle().valid(),
{
    let a = b.flood(x, y).settle();
    assert forall|i: int| 0 <= i < a.cells.len() implies {
        let v = #[trigger] a.cells[i];
        &&& v.is_mine == b.cells[i].is_mine
        &&& v.adjacent == b.cells[i].adjacent
        &&& v.flagged == b.cells[i].flagged
        &&& !(v.revealed && v.flagged)
        &&& !(v.revealed && v.is_mine)
    } by {
        lemma_index_split(b.width, b.height, i);
        if b.fill_reaches(x, y, b.column_of(i), b.row_of(i)) {
            lemma_reached_is_fillable(b, x, y, b.column_of(i), b.row_of(i));
        }
    }
    lemma_tally_same(b.cells, a.cells, |v: CellView| v.is_mine);
    lemma_same_mines_same_counts(a, b);
    assert forall|x2: int, y2: int| a.on_board(x2, y2) implies (#[trigger] a.at(x2, y2)).adjacent
        == (if a.at(x2, y2).is_mine {
        0
    } else {
        a.mines_around(x2, y2)
    }) by {
        lemma_index_in_area(b.width, b.height, x2, y2);
        assert(b.at(x2, y2).adjacent == (if b.at(x2, y2).is_mine {
            0
        } else {
            b.mines_around(x2, y2)
        }));
    }
}

/// The cell that a flood leaves at a position of the board: uncovered if the
/// fill reaches it, else as it was.
pub proof fn lemma_flood_at(b: BoardView, sx: int, sy: int, x: int, y: int)
    requires
        b.cells.len() == b.area(),
        b.on_board(x, y),
    ensures
        b.flood(sx, sy).at(x, y) == (if b.fill_reaches(sx, sy, x, y) {
            b.at(x, y).uncover()
        } else {
            b.at(x, y)
        }),
{
    lemma_index_in_area(b.width, b.height, x, y);
    lemma_index_roundtrip(b.width, x, y);
}

} // verus!
