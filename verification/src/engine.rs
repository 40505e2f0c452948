//! The executable board: construction, flags, reveal.

pub use crate::cell::{Cell, CellView};
use crate::clock::seed_from_time;
use crate::fill::{
    fill_inv, lemma_fill_begin, lemma_fill_done, lemma_fill_extend, lemma_fill_skip,
    lemma_fill_uncover, lemma_flood_keeps_valid, lemma_uncover_counts, passes, settled,
    uncover_at, waiting_sound,
};
use crate::grid::{
    as_points, idx, lemma_index_in_area, lemma_index_roundtrip, lemma_neighbors_touch, neighbors,
};
use crate::layout::{
    as_ints, counted_upto, lemma_arm_push, lemma_lay_out_valid, lemma_mines_among_neighbors,
    lemma_mines_among_push, lemma_neighbors_on_grid, lemma_shuffled_as_ints,
    lemma_shuffled_candidates, mines_among,
};
use crate::model::{candidates, count_hidden_safe, BoardView};
use crate::moves::{lemma_explode_keeps_valid, lemma_flag_keeps_valid};
use crate::rng::{start_state, XorShift64};
use crate::shuffle::{fisher_yates_shuffle, shuffled};
use vstd::prelude::*;

verus! {

/// What a reveal did.
#[derive(Clone, Copy, Debug, PartialEq, Eq, Structural)]
pub enum RevealResult {
    /// Nothing changed.
    NoOp,
    /// One or more safe cells were uncovered.
    RevealedSafe,
    /// The cell held a mine; the game is lost.
    HitMine,
}

/// Why a board could not be made.
#[derive(Clone, Copy, Debug, PartialEq, Eq, Structural)]
pub enum BoardError {
    /// The width or the height is zero.
    InvalidDimensions,
    /// There are as many mines as cells, or more.
    TooManyMines,
}

impl BoardError {
    /// The message of this error, as a sequence of characters.
    pub open spec fn text(self) -> Seq<char> {
        match self {
            BoardError::InvalidDimensions => "Board dimensions must be positive"@,
            BoardError::TooManyMines => "Mines must be less than cells"@,
        }
    }

    /// The message of this error.
    pub fn message(&self) -> (s: String)
        ensures
            s@ == self.text(),
    {
        match self {
            BoardError::InvalidDimensions => "Board dimensions must be positive".to_owned(),
            BoardError::TooManyMines => "Mines must be less than cells".to_owned(),
        }
    }
}

/// The error, if any, that refuses a board of these measures.
pub open spec fn refusal(width: nat, height: nat, mines: nat) -> Option<BoardError> {
    if width == 0 || height == 0 {
        Some(BoardError::InvalidDimensions)
    } else if mines >= width * height {
        Some(BoardError::TooManyMines)
    } else {
        None
    }
}

/// The seed a board keeps: the one asked for, or for the seed 0 the one
/// offered in its place, never zero.
pub open spec fn resolved_seed(seed: u64, fallback: u64) -> u64 {
    if seed != 0 {
        seed
    } else {
        start_state(fallback)
    }
}

/// The grid and the progress of one game.
pub struct Board {
    width: usize,
    height: usize,
    mines: usize,
    cells: Vec<Cell>,
    remaining_safe: usize,
    alive: bool,
    won: bool,
    initialized: bool,
    seed: u64,
}

impl View for Board {
    type V = BoardView;

    closed spec fn view(&self) -> BoardView {
        BoardView {
            width: self.width as nat,
            height: self.height as nat,
            mines: self.mines as nat,
            cells: self.cells@.map_values(|c: Cell| c@),
            remaining_safe: self.remaining_safe as nat,
            alive: self.alive,
            won: self.won,
            initialized: self.initialized,
            seed: self.seed,
        }
    }
}

impl Board {
    /// Whether the board satisfies the invariant that every operation keeps.
    pub open spec fn wf(&self) -> bool {
        self@.valid()
    }

    /// On a valid board the cells are as many as the area, a number that fits
    /// the machine, and every position of the board has its index among them.
    proof fn lemma_cells_fit(&self)
        requires
            self.wf(),
        ensures
            self.cells@.len() == self.width * self.height,
            self.width * self.height <= usize::MAX,
            forall|x: int, y: int|
                self@.on_board(x, y) ==> 0 <= #[trigger] self@.index_of(x, y) < self.cells@.len(),
    {
        assert(self.cells@.len() == self@.cells.len());
        assert(self.cells@.len() == self.cells.len());
        assert forall|x: int, y: int| self@.on_board(x, y) implies 0 <= #[trigger] self@.index_of(
            x,
            y,
        ) < self.cells@.len() by {
            lemma_index_in_area(self.width as nat, self.height as nat, x, y);
        }
    }

    /// The area of a valid board fits the machine's index type.
    pub proof fn lemma_area_fits(&self)
        requires
            self.wf(),
        ensures
            self@.width * self@.height <= usize::MAX,
    {
        self.lemma_cells_fit();
    }

    /// A board of `width` by `height` cells with `mines` mines to place at the
    /// first reveal. A non-zero `seed` fixes the layout; for the seed 0 the
    /// clock provides one.
    pub fn new(width: usize, height: usize, mines: usize, seed: u64) -> (r: Result<
        Board,
        BoardError,
    >)
        requires
            width * height <= usize::MAX,
        ensures
            match r {
                Ok(b) => {
                    &&& refusal(width as nat, height as nat, mines as nat) is None
                    &&& b.wf()
                    &&& b@ == BoardView::fresh(width as nat, height as nat, mines as nat, b@.seed)
                    &&& seed != 0 ==> b@.seed == seed
                },
                Err(e) => refusal(width as nat, height as nat, mines as nat) == Some(e),
            },
    {
        let fallback: u64 = if seed == 0 {
            seed_from_time()
        } else {
            0
        };
        Board::with_fallback_seed(width, height, mines, seed, fallback)
    }

    /// A board as `new` makes it, with `fallback` in place of the clock's
    /// seed.
    pub fn with_fallback_seed(
        width: usize,
        height: usize,
        mines: usize,
        seed: u64,
        fallback: u64,
    ) -> (r: Result<Board, BoardError>)
        requires
            width * height <= usize::MAX,
        ensures
            match r {
                Ok(b) => {
                    &&& refusal(width as nat, height as nat, mines as nat) is None
                    &&& b.wf()
                    &&& b@ == BoardView::fresh(
                        width as nat,
                        height as nat,
                        mines as nat,
                        resolved_seed(seed, fallback),
                    )
                },
                Err(e) => refusal(width as nat, height as nat, mines as nat) == Some(e),
            },
    {
        if width == 0 || height == 0 {
            return Err(BoardError::InvalidDimensions);
        }
        let total: usize = width * height;
        if mines >= total {
            return Err(BoardError::TooManyMines);
        }
        let seed: u64 = if seed != 0 {
            seed
        } else if fallback != 0 {
            fallback
        } else {
            1
        };
        let mut cells: Vec<Cell> = Vec::with_capacity(total);
        let mut i: usize = 0;
        while i < total
            invariant
                i <= total,
                cells@.len() == i,
                forall|j: int| 0 <= j < i ==> (#[trigger] cells@[j])@ == CellView::blank(),
            decreases total - i,
        {
            cells.push(Cell::default());
            i += 1;
        }
        let board = Board {
            width,
            height,
            mines,
            cells,
            remaining_safe: total - mines,
            alive: true,
            won: false,
            initialized: false,
            seed,
        };
        assert(board@.cells =~= BoardView::fresh(
            width as nat,
            height as nat,
            mines as nat,
            seed,
        ).cells);
        Ok(board)
    }

    /// Toggles the flag at `(x, y)`. Returns whether it did: not off the
    /// board, and not on a revealed cell.
    pub fn toggle_flag(&mut self, x: usize, y: usize) -> (changed: bool)
        requires
            old(self).wf(),
        ensures
            final(self).wf(),
            final(self)@ == old(self)@.flag_at(x as int, y as int),
            changed == old(self)@.can_flag(x as int, y as int),
    {
        if x >= self.width || y >= self.height {
            return false;
        }
        proof {
            self.lemma_cells_fit();
            assert(self@.index_of(x as int, y as int) == y * self.width + x);
        }
        let i: usize = idx(self.width, x, y);
        if self.cells[i].revealed() {
            return false;
        }
        let flipped: Cell = self.cells[i].flag_flipped();
        self.cells[i] = flipped;
        proof {
            assert(self@.cells =~= old(self)@.flag_at(x as int, y as int).cells);
            lemma_flag_keeps_valid(old(self)@, x as int, y as int);
        }
        true
    }

    /// Reveals the cell at `(x, y)`. Nothing happens once the game is over,
    /// off the board, or on a flagged or revealed cell. The first reveal
    /// places the mines, none of them on this cell. A mine ends the game; on a
    /// safe cell the flood fill uncovers all it reaches, and the game is won
    /// when no safe cell is left covered.
    pub fn reveal_cell(&mut self, x: usize, y: usize) -> (r: RevealResult)
        requires
            old(self).wf(),
        ensures
            final(self).wf(),
            final(self)@ == old(self)@.reveal_at(x as int, y as int),
            r == old(self)@.reveal_outcome(x as int, y as int),
    {
        if !self.alive || self.won {
            return RevealResult::NoOp;
        }
        if x >= self.width || y >= self.height {
            return RevealResult::NoOp;
        }
        proof {
            self.lemma_cells_fit();
            assert(self@.index_of(x as int, y as int) == y * self.width + x);
        }
        let i: usize = idx(self.width, x, y);
        if self.cells[i].flagged() || self.cells[i].revealed() {
            return RevealResult::NoOp;
        }
        if !self.initialized {
            proof {
                lemma_lay_out_valid(self@, x as int, y as int);
            }
            self.initialize(x, y);
        }
        let ghost ready = self@;
        proof {
            self.lemma_cells_fit();
            assert(ready == old(self)@.prepared(x as int, y as int));
            assert(ready.index_of(x as int, y as int) == i);
            assert(self.cells@[i as int]@ == ready.at(x as int, y as int));
        }
        if self.cells[i].is_mine() {
            let shown: Cell = self.cells[i].uncovered();
            self.cells[i] = shown;
            self.alive = false;
            proof {
                assert(self@.cells =~= ready.explode(x as int, y as int).cells);
                lemma_explode_keeps_valid(ready, x as int, y as int);
            }
            return RevealResult::HitMine;
        }
        self.flood_reveal(x, y);
        if self.remaining_safe == 0 && self.alive {
            self.won = true;
        }
        proof {
            lemma_flood_keeps_valid(ready, x as int, y as int);
        }
        RevealResult::RevealedSafe
    }

    /// Uncovers the cell at `(x, y)` and, from each uncovered cell with no
    /// mine around it, its covered safe neighbours in turn; flagged cells stay
    /// covered.
    #[verifier::loop_isolation(false)]
    fn flood_reveal(&mut self, x: usize, y: usize)
        requires
            old(self).wf(),
            old(self)@.initialized,
            old(self)@.fillable(x as int, y as int),
        ensures
            final(self)@ == old(self)@.flood(x as int, y as int),
    {
        let ghost start = self@;
        let ghost sx = x as int;
        let ghost sy = y as int;
        proof {
            self.lemma_cells_fit();
            lemma_fill_begin(start, sx, sy);
        }
        let mut stack: Vec<(usize, usize)> = Vec::new();
        stack.push((x, y));
        assert(as_points(stack@) =~= seq![(sx, sy)]);
        while stack.len() > 0
            invariant
                self.cells@.len() == start.cells.len(),
                fill_inv(start, self@, as_points(stack@), sx, sy),
            decreases count_hidden_safe(self@.cells), stack.len(),
        {
            let ghost waiting = as_points(stack@);
            let ghost before = self@;
            let (cx, cy) = stack.pop().unwrap();
            proof {
                assert(waiting[waiting.len() - 1] == (cx as int, cy as int));
                assert(as_points(stack@) =~= waiting.drop_last());
                assert(start.on_board(cx as int, cy as int));
                lemma_index_in_area(start.width, start.height, cx as int, cy as int);
            }
            let i: usize = idx(self.width, cx, cy);
            let cell: Cell = self.cells[i];
            assert(cell@ == before.at(cx as int, cy as int));
            if cell.revealed() || cell.flagged() {
                proof {
                    lemma_fill_skip(start, before, waiting, sx, sy);
                }
                continue ;
            }
            if cell.is_mine() {
                proof {
                    lemma_fill_skip(start, before, waiting, sx, sy);
                }
                continue ;
            }
            proof {
                lemma_uncover_counts(start, before, cx as int, cy as int);
            }
            self.cells[i] = cell.uncovered();
            if self.remaining_safe > 0 {
                self.remaining_safe -= 1;
            }
            let ghost now = uncover_at(before, cx as int, cy as int);
            assert(self@.cells =~= now.cells);
            assert(self@ == now);
            if cell.adjacent() == 0 {
                let around = neighbors(self.width, self.height, cx, cy);
                let ghost points = as_points(around@);
                proof {
                    lemma_neighbors_on_grid(start.width, start.height, cx as int, cy as int);
                    assert(start.fill_reaches(sx, sy, cx as int, cy as int));
                    assert(start.spreads(cx as int, cy as int));
                }
                let mut j: usize = 0;
                while j < around.len()
                    invariant
                        j <= around.len(),
                        self@ == now,
                        self.cells@.len() == start.cells.len(),
                        as_points(stack@).len() >= waiting.len() - 1,
                        forall|k: int|
                            0 <= k < waiting.len() - 1 ==> as_points(stack@)[k] == waiting[k],
                        waiting_sound(start, as_points(stack@), sx, sy),
                        forall|m: int|
                            0 <= m < j && start.fillable(points[m].0, points[m].1) ==> settled(
                                now,
                                as_points(stack@),
                                (#[trigger] points[m]).0,
                                points[m].1,
                            ),
                    decreases around.len() - j,
                {
                    let (nx, ny) = around[j];
                    let ghost held = as_points(stack@);
                    proof {
                        assert(points[j as int] == (nx as int, ny as int));
                        lemma_index_in_area(start.width, start.height, nx as int, ny as int);
                    }
                    let ni: usize = idx(self.width, nx, ny);
                    assert(self.cells@[ni as int]@ == now.at(nx as int, ny as int));
                    if !self.cells[ni].revealed() && !self.cells[ni].is_mine() {
                        stack.push((nx, ny));
                        proof {
                            let grown = as_points(stack@);
                            assert(grown =~= held.push((nx as int, ny as int)));
                            if start.fillable(nx as int, ny as int) {
                                lemma_fill_extend(
                                    start,
                                    sx,
                                    sy,
                                    cx as int,
                                    cy as int,
                                    nx as int,
                                    ny as int,
                                );
                            }
                            assert forall|k: int| 0 <= k < grown.len() implies {
                                let p = #[trigger] grown[k];
                                &&& start.on_board(p.0, p.1)
                                &&& start.fillable(p.0, p.1) ==> start.fill_reaches(
                                    sx,
                                    sy,
                                    p.0,
                                    p.1,
                                )
                            } by {
                                if k < held.len() {
                                    assert(grown[k] == held[k]);
                                }
                            }
                            assert forall|m: int|
                                0 <= m < j + 1 && start.fillable(
                                    points[m].0,
                                    points[m].1,
                                ) implies settled(now, grown, (#[trigger] points[m]).0, points[m].1) by {
                                if m < j {
                                    assert(settled(now, held, points[m].0, points[m].1));
                                    if held.contains(points[m]) {
                                        let k = choose|k: int|
                                            0 <= k < held.len() && held[k] == points[m];
                                        assert(grown[k] == points[m]);
                                    }
                                } else {
                                    assert(grown[held.len() as int] == points[m]);
                                }
                            }
                        }
                    } else {
                        proof {
                            assert(now.at(nx as int, ny as int).is_mine == start.at(
                                nx as int,
                                ny as int,
                            ).is_mine);
                        }
                    }
                    j += 1;
                }
                proof {
                    let grown = as_points(stack@);
                    assert forall|tx: int, ty: int| #[trigger]
                        passes(start, now, cx as int, cy as int, tx, ty) implies settled(
                        now,
                        grown,
                        tx,
                        ty,
                    ) by {
                        lemma_neighbors_touch(start.width, start.height, cx as int, cy as int, tx, ty);
                        let m = choose|m: int| 0 <= m < points.len() && points[m] == (tx, ty);
                        assert(points[m] == (tx, ty));
                    }
                    lemma_fill_uncover(start, before, waiting, grown, sx, sy);
                }
            } else {
                proof {
                    lemma_fill_uncover(start, before, waiting, as_points(stack@), sx, sy);
                }
            }
        }
        proof {
            assert(as_points(stack@) =~= Seq::<(int, int)>::empty());
            lemma_fill_done(start, self@, sx, sy);
        }
    }

    /// Places the mines for a first reveal at `(safe_x, safe_y)`, unless they
    /// are placed already: shuffles the indices of all other cells, puts a
    /// mine on the first `mines` of them, then counts the neighbours.
    #[verifier::loop_isolation(false)]
    fn initialize(&mut self, safe_x: usize, safe_y: usize)
        requires
            old(self).wf(),
            old(self)@.on_board(safe_x as int, safe_y as int),
        ensures
            final(self).wf(),
            final(self)@ == old(self)@.prepared(safe_x as int, safe_y as int),
    {
        if self.initialized {
            return ;
        }
        proof {
            self.lemma_cells_fit();
            assert(self@.index_of(safe_x as int, safe_y as int) == safe_y * self.width + safe_x);
        }
        let total: usize = self.width * self.height;
        let safe_idx: usize = idx(self.width, safe_x, safe_y);
        let ghost start = self@;
        let ghost pool = candidates(total as nat, safe_idx as int);
        let mut positions: Vec<usize> = Vec::new();
        let mut p: usize = 0;
        while p < total
            invariant
                p <= total,
                as_ints(positions@) == pool.take(
                    if p <= safe_idx {
                        p as int
                    } else {
                        p - 1
                    },
                ),
            decreases total - p,
        {
            if p != safe_idx {
                let ghost before = positions@;
                positions.push(p);
                assert(as_ints(positions@) =~= as_ints(before).push(p as int));
                assert(as_ints(before).push(p as int) =~= pool.take(
                    if p < safe_idx {
                        p + 1
                    } else {
                        p as int
                    },
                ));
            }
            p += 1;
        }
        assert(as_ints(positions@) =~= pool);
        let mut prng = XorShift64::new(self.seed);
        let ghost unshuffled = positions@;
        fisher_yates_shuffle(&mut positions, &mut prng);
        let ghost order = as_ints(positions@);
        proof {
            lemma_shuffled_as_ints(unshuffled, start_state(self.seed));
            lemma_shuffled_candidates(total as nat, start_state(self.seed), safe_idx as int);
            assert(order == shuffled(pool, start_state(self.seed)));
            assert(start.arm_all(order.take(0)).cells =~= start.cells);
        }
        let mut k: usize = 0;
        while k < self.mines
            invariant
                k <= self.mines,
                self.cells@.len() == total,
                self@ == start.arm_all(order.take(k as int)),
            decreases self.mines - k,
        {
            assert(0 <= order[k as int] < total);
            let pos: usize = positions[k];
            let armed: Cell = self.cells[pos].armed();
            self.cells[pos] = armed;
            proof {
                lemma_arm_push(start, order.take(k as int), order[k as int]);
                assert(order.take(k + 1) =~= order.take(k as int).push(order[k as int]));
                assert(self@.cells =~= start.arm_all(order.take(k + 1)).cells);
            }
            k += 1;
        }
        self.compute_adjacency();
        self.initialized = true;
        proof {
            lemma_lay_out_valid(start, safe_x as int, safe_y as int);
        }
    }

    /// Sets the neighbour count of every safe cell to the number of mines
    /// around it.
    #[verifier::loop_isolation(false)]
    fn compute_adjacency(&mut self)
        requires
            old(self)@.cells.len() == old(self)@.area(),
        ensures
            final(self)@ == old(self)@.count_all(),
    {
        let ghost start = self@;
        assert(self.cells@.len() == self@.cells.len());
        assert(self.cells@.len() == self.cells.len());
        let mut y: usize = 0;
        assert(self@.cells =~= counted_upto(start, 0));
        while y < self.height
            invariant
                y <= self.height,
                self.cells@.len() == start.cells.len(),
                self@ == (BoardView { cells: counted_upto(start, y * self.width), ..start }),
            decreases self.height - y,
        {
            let mut x: usize = 0;
            while x < self.width
                invariant
                    x <= self.width,
                    self.cells@.len() == start.cells.len(),
                    self@ == (BoardView { cells: counted_upto(start, y * self.width + x), ..start }),
                decreases self.width - x,
            {
                proof {
                    lemma_index_in_area(start.width, start.height, x as int, y as int);
                    lemma_index_roundtrip(start.width, x as int, y as int);
                }
                let here: usize = idx(self.width, x, y);
                let ghost entry = self@;
                assert(self.cells@[here as int]@ == self@.cells[here as int]);
                assert(self@.cells[here as int] == start.cells[here as int]);
                if !self.cells[here].is_mine() {
                    let around = neighbors(self.width, self.height, x, y);
                    let ghost points = as_points(around@);
                    proof {
                        lemma_neighbors_on_grid(start.width, start.height, x as int, y as int);
                    }
                    let mut c: u8 = 0;
                    let mut j: usize = 0;
                    while j < around.len()
                        invariant
                            j <= around.len(),
                            c == mines_among(start, points.take(j as int)),
                        decreases around.len() - j,
                    {
                        let (nx, ny) = around[j];
                        proof {
                            assert(points[j as int] == (nx as int, ny as int));
                            lemma_index_in_area(start.width, start.height, nx as int, ny as int);
                            lemma_mines_among_push(start, points, j as int);
                        }
                        let there: usize = idx(self.width, nx, ny);
                        assert(self.cells@[there as int]@ == self@.cells[there as int]);
                        assert(self@.cells[there as int].is_mine == start.cells[there as int].is_mine);
                        assert(start.at(nx as int, ny as int) == start.cells[there as int]);
                        if self.cells[there].is_mine() {
                            c += 1;
                        }
                        j += 1;
                    }
                    proof {
                        assert(points.take(j as int) =~= points);
                        lemma_mines_among_neighbors(start, x as int, y as int);
                    }
                    let counted: Cell = self.cells[here].counted(c);
                    self.cells[here] = counted;
                    assert(self@.cells =~= entry.cells.update(here as int, counted@));
                    assert(counted@ == start.count_all().cells[here as int]);
                } else {
                    assert(start.count_all().cells[here as int] == start.cells[here as int]);
                }
                assert(self@.cells =~= counted_upto(start, y * self.width + x + 1));
                x += 1;
            }
            assert((y + 1) * self.width == y * self.width + self.width) by (nonlinear_arith);
            y += 1;
        }
        assert(start.height * start.width == start.width * start.height) by (nonlinear_arith);
        assert(self@.cells =~= start.count_all().cells);
    }

    /// Number of columns.
    pub fn width(&self) -> (r: usize)
        ensures
            r == self@.width,
    {
        self.width
    }

    /// Number of rows.
    pub fn height(&self) -> (r: usize)
        ensures
            r == self@.height,
    {
        self.height
    }

    /// Number of mines asked for.
    pub fn mines(&self) -> (r: usize)
        ensures
            r == self@.mines,
    {
        self.mines
    }

    /// Number of safe cells still covered.
    pub fn remaining_safe(&self) -> (r: usize)
        ensures
            r == self@.remaining_safe,
    {
        self.remaining_safe
    }

    /// False once a mine has been revealed.
    pub fn alive(&self) -> (r: bool)
        ensures
            r == self@.alive,
    {
        self.alive
    }

    /// True once every safe cell is revealed.
    pub fn won(&self) -> (r: bool)
        ensures
            r == self@.won,
    {
        self.won
    }

    /// The cell at `(x, y)`, if that is a position of the board.
    pub fn cell(&self, x: usize, y: usize) -> (r: Option<&Cell>)
        requires
            self.wf(),
        ensures
            match r {
                Some(c) => self@.on_board(x as int, y as int) && c@ == self@.at(x as int, y as int),
                None => !self@.on_board(x as int, y as int),
            },
    {
        if x < self.width && y < self.height {
            proof {
                self.lemma_cells_fit();
                assert(self@.index_of(x as int, y as int) == y * self.width + x);
            }
            Some(&self.cells[idx(self.width, x, y)])
        } else {
            None
        }
    }
}

} // verus!
