//! Mine placement and neighbour counts: what the drawn spots are, and that a
//! laid-out board is valid.

use crate::cell::CellView;
use crate::grid::{
    in_grid, lemma_index_in_area, lemma_index_roundtrip, lemma_neighbors_touch, neighbor_seq,
    neighbors_upto, touching,
};
use crate::model::{candidates, count_hidden_safe, count_mines, mine_spots, BoardView};
use crate::moves::lemma_same_mines_same_counts;
use crate::rng::start_state;
use crate::shuffle::{
    lemma_shuffled_is_permutation, shuffle_draws, shuffle_steps, shuffled, swap_at,
};
use crate::tally::{lemma_tally_same, lemma_tally_split, lemma_tally_update};
use vstd::prelude::*;

verus! {

/// Machine indices as mathematical integers.
pub open spec fn as_ints(s: Seq<usize>) -> Seq<int> {
    s.map_values(|p: usize| p as int)
}

/// Shuffling commutes with reading the items as integers.
pub proof fn lemma_shuffle_steps_as_ints(s: Seq<usize>, state: u64, i: nat)
    requires
        i < s.len() || i == 0,
    ensures
        shuffle_steps(as_ints(s), state, i) == as_ints(shuffle_steps(s, state, i)),
    decreases i,
{
    if i > 0 {
        let next = crate::rng::xorshift(state);
        let j = crate::rng::draw_index(next, i + 1);
        assert(0 <= j < i + 1) by {
            vstd::arithmetic::div_mod::lemma_mod_bound((next >> 1) as int, (i + 1) as int);
        }
        assert(swap_at(as_ints(s), i as int, j) =~= as_ints(swap_at(s, i as int, j)));
        lemma_shuffle_steps_as_ints(swap_at(s, i as int, j), next, (i - 1) as nat);
    }
}

/// Shuffling commutes with reading the items as integers.
pub proof fn lemma_shuffled_as_ints(s: Seq<usize>, state: u64)
    ensures
        shuffled(as_ints(s), state) == as_ints(shuffled(s, state)),
{
    lemma_shuffle_steps_as_ints(s, state, shuffle_draws(s.len()));
}

/// The shuffled candidates are the indices of the area without the safe one,
/// each once.
pub proof fn lemma_shuffled_candidates(area: nat, state: u64, safe: int)
    requires
        0 <= safe < area,
    ensures
        ({
            let s = shuffled(candidates(area, safe), state);
            &&& s.len() == area - 1
            &&& s.no_duplicates()
            &&& forall|k: int| 0 <= k < s.len() ==> 0 <= #[trigger] s[k] < area && s[k] != safe
        }),
{
    let c = candidates(area, safe);
    let s = shuffled(c, state);
    lemma_shuffled_is_permutation(c, state);
    assert forall|k: int| 0 <= k < s.len() implies 0 <= #[trigger] s[k] < area && s[k] != safe by {
        assert(s.contains(s[k]));
        assert(c.contains(s[k]));
        let j = choose|j: int| 0 <= j < c.len() && c[j] == s[k];
        assert(c[j] == s[k]);
    }
}

/// The spots that receive a mine are as many as the mines asked for, all
/// different, all in the area, and none is the safe index.
pub proof fn lemma_mine_spots(area: nat, mines: nat, seed: u64, safe: int)
    requires
        0 <= safe < area,
        mines < area,
    ensures
        ({
            let spots = mine_spots(area, mines, seed, safe);
            &&& spots.len() == mines
            &&& spots.no_duplicates()
            &&& forall|k: int|
                0 <= k < spots.len() ==> 0 <= #[trigger] spots[k] < area && spots[k] != safe
            &&& !spots.contains(safe)
        }),
{
    let s = shuffled(candidates(area, safe), start_state(seed));
    let spots = mine_spots(area, mines, seed, safe);
    lemma_shuffled_candidates(area, start_state(seed), safe);
    assert forall|k: int| 0 <= k < spots.len() implies 0 <= #[trigger] spots[k] < area && spots[k]
        != safe by {
        assert(spots[k] == s[k]);
    }
    assert forall|i: int, j: int| 0 <= i < spots.len() && 0 <= j < spots.len() && i != j implies spots[i]
        != spots[j] by {
        assert(spots[i] == s[i]);
        assert(spots[j] == s[j]);
    }
}

/// Arming one more spot arms that cell and leaves the others.
pub proof fn lemma_arm_push(b: BoardView, spots: Seq<int>, v: int)
    requires
        0 <= v < b.cells.len(),
    ensures
        b.arm_all(spots.push(v)).cells == b.arm_all(spots).cells.update(
            v,
            b.arm_all(spots).cells[v].arm(),
        ),
{
    let more = spots.push(v);
    let lhs = b.arm_all(more).cells;
    let rhs = b.arm_all(spots).cells.update(v, b.arm_all(spots).cells[v].arm());
    assert forall|i: int| 0 <= i < lhs.len() implies lhs[i] == rhs[i] by {
        assert(more[spots.len() as int] == v);
        if spots.contains(i) {
            let j = choose|j: int| 0 <= j < spots.len() && spots[j] == i;
            assert(more[j] == i);
        }
        if more.contains(i) && i != v {
            let j = choose|j: int| 0 <= j < more.len() && more[j] == i;
            assert(spots[j] == i);
        }
    }
    assert(lhs =~= rhs);
}

/// Arming distinct spots of a board without mines gives as many mines as
/// spots.
pub proof fn lemma_arm_count(b: BoardView, spots: Seq<int>)
    requires
        forall|i: int| 0 <= i < b.cells.len() ==> !(#[trigger] b.cells[i]).is_mine,
        spots.no_duplicates(),
        forall|k: int| 0 <= k < spots.len() ==> 0 <= #[trigger] spots[k] < b.cells.len(),
    ensures
        count_mines(b.arm_all(spots).cells) == spots.len(),
    decreases spots.len(),
{
    let is_mine = |c: CellView| c.is_mine;
    if spots.len() == 0 {
        assert(b.arm_all(spots).cells =~= b.cells);
        crate::tally::lemma_tally_zero(b.cells, is_mine);
    } else {
        let d = spots.drop_last();
        let v = spots.last();
        assert(spots =~= d.push(v));
        lemma_arm_count(b, d);
        lemma_arm_push(b, d, v);
        let before = b.arm_all(d).cells;
        assert(!d.contains(v)) by {
            if d.contains(v) {
                let j = choose|j: int| 0 <= j < d.len() && d[j] == v;
                assert(spots[j] == v);
            }
        }
        assert(before[v] == b.cells[v]);
        lemma_tally_update(before, is_mine, v, before[v].arm());
    }
}

/// Number of mines at the positions of `points`.
pub open spec fn mines_among(b: BoardView, points: Seq<(int, int)>) -> int
    decreases points.len(),
{
    if points.len() == 0 {
        0
    } else {
        mines_among(b, points.drop_last()) + b.mine_at(points.last().0, points.last().1)
    }
}

/// Number of mines at the first `k` positions of the block around `(x, y)`,
/// the centre left out.
pub open spec fn mines_in_block(b: BoardView, x: int, y: int, k: nat) -> int
    decreases k,
{
    if k == 0 {
        0
    } else {
        let p = k - 1;
        mines_in_block(b, x, y, p as nat) + if p != 4 {
            b.mine_at(x + p % 3 - 1, y + p / 3 - 1)
        } else {
            0
        }
    }
}

proof fn lemma_mines_among_block(b: BoardView, x: int, y: int, k: nat)
    ensures
        mines_among(b, neighbors_upto(b.width, b.height, x, y, k)) == mines_in_block(b, x, y, k),
    decreases k,
{
    if k > 0 {
        let p = (k - 1) as nat;
        let before = neighbors_upto(b.width, b.height, x, y, p);
        lemma_mines_among_block(b, x, y, p);
        let nx = x + p % 3 - 1;
        let ny = y + p / 3 - 1;
        if p != 4 && in_grid(b.width, b.height, nx, ny) {
            assert(before.push((nx, ny)).drop_last() =~= before);
        }
    }
}

/// The mines at the neighbours of a position are the mines around it.
pub proof fn lemma_mines_among_neighbors(b: BoardView, x: int, y: int)
    ensures
        mines_among(b, neighbor_seq(b.width, b.height, x, y)) == b.mines_around(x, y),
        0 <= b.mines_around(x, y) <= 8,
{
    lemma_mines_among_block(b, x, y, 9);
    reveal_with_fuel(mines_in_block, 10);
}

/// One more point adds the mine at it, if there is one.
pub proof fn lemma_mines_among_push(b: BoardView, points: Seq<(int, int)>, k: int)
    requires
        0 <= k < points.len(),
    ensures
        mines_among(b, points.take(k + 1)) == mines_among(b, points.take(k)) + b.mine_at(
            points[k].0,
            points[k].1,
        ),
        0 <= mines_among(b, points.take(k)) <= k,
    decreases k,
{
    assert(points.take(k + 1).drop_last() =~= points.take(k));
    if k > 0 {
        lemma_mines_among_push(b, points, k - 1);
    }
}

/// Every neighbour lies on the grid and touches the cell, and there are at
/// most eight.
pub proof fn lemma_neighbors_on_grid(w: nat, h: nat, x: int, y: int)
    ensures
        neighbor_seq(w, h, x, y).len() <= 8,
        forall|j: int|
            0 <= j < neighbor_seq(w, h, x, y).len() ==> {
                let p = #[trigger] neighbor_seq(w, h, x, y)[j];
                in_grid(w, h, p.0, p.1) && touching(x, y, p.0, p.1)
            },
{
    let ns = neighbor_seq(w, h, x, y);
    assert(ns.len() <= 8) by {
        reveal_with_fuel(neighbors_upto, 10);
    }
    assert forall|j: int| 0 <= j < ns.len() implies {
        let p = #[trigger] ns[j];
        in_grid(w, h, p.0, p.1) && touching(x, y, p.0, p.1)
    } by {
        let p = ns[j];
        assert(ns.contains(p));
        lemma_neighbors_touch(w, h, x, y, p.0, p.1);
    }
}

/// The cells of a board whose first `n` cells are counted and whose others
/// are as they were.
pub open spec fn counted_upto(b: BoardView, n: int) -> Seq<CellView> {
    Seq::new(
        b.cells.len(),
        |i: int|
            if i < n {
                b.count_all().cells[i]
            } else {
                b.cells[i]
            },
    )
}

/// Placement around the first revealed cell gives a valid board on which that
/// cell is safe, and touches neither flags nor covers.
pub proof fn lemma_lay_out_valid(b: BoardView, x: int, y: int)
    requires
        b.valid(),
        !b.initialized,
        b.on_board(x, y),
    ensures
        b.lay_out(x, y).valid(),
        b.lay_out(x, y).initialized,
        !b.lay_out(x, y).at(x, y).is_mine,
        b.lay_out(x, y).cells.len() == b.cells.len(),
        forall|i: int|
            0 <= i < b.cells.len() ==> {
                let c = #[trigger] b.lay_out(x, y).cells[i];
                c.flagged == b.cells[i].flagged && !c.revealed
            },
{
    let safe = b.index_of(x, y);
    lemma_index_in_area(b.width, b.height, x, y);
    let spots = mine_spots(b.area(), b.mines, b.seed, safe);
    lemma_mine_spots(b.area(), b.mines, b.seed, safe);
    let armed = b.arm_all(spots);
    let a = b.lay_out(x, y);
    let is_mine = |c: CellView| c.is_mine;
    let hidden_safe = |c: CellView| !c.is_mine && !c.revealed;

    lemma_arm_count(b, spots);
    lemma_tally_same(armed.cells, a.cells, is_mine);
    lemma_tally_split(a.cells, is_mine, hidden_safe);
    lemma_same_mines_same_counts(a, armed);

    assert forall|x2: int, y2: int| a.on_board(x2, y2) implies (#[trigger] a.at(x2, y2)).adjacent
        == (if a.at(x2, y2).is_mine {
        0
    } else {
        a.mines_around(x2, y2)
    }) by {
        lemma_index_in_area(b.width, b.height, x2, y2);
        lemma_index_roundtrip(b.width, x2, y2);
        lemma_mines_among_neighbors(armed, x2, y2);
    }
    assert forall|i: int| 0 <= i < a.cells.len() implies {
        let c = #[trigger] a.cells[i];
        &&& !(c.revealed && c.flagged)
        &&& c.adjacent <= 8
        &&& c.revealed && c.is_mine ==> !a.alive
    } by {
        lemma_mines_among_neighbors(armed, armed.column_of(i), armed.row_of(i));
    }
    assert(count_mines(a.cells) == a.mines);
    assert(a.remaining_safe == count_hidden_safe(a.cells));
    assert(!a.at(x, y).is_mine);
}

} // verus!
