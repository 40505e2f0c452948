//! One sitting at the board: what each key, click and typed command does.

use crate::engine::{refusal, Board, BoardError, RevealResult};
use crate::model::BoardView;
use crate::screen::{cell_under, pos_to_cell, Area};
use vstd::prelude::*;

verus! {

/// A key as the terminal reports it.
#[derive(Clone, Copy, Debug, PartialEq, Eq, Structural)]
pub enum Press {
    /// A character key.
    Char(char),
    Esc,
    Left,
    Right,
    Up,
    Down,
    Enter,
    /// Any other key.
    Other,
}

/// A mouse button.
#[derive(Clone, Copy, Debug, PartialEq, Eq, Structural)]
pub enum Button {
    Left,
    Right,
    Middle,
}

/// What a key asks for.
#[derive(Clone, Copy, Debug, PartialEq, Eq, Structural)]
pub enum Command {
    Quit,
    MoveLeft,
    MoveRight,
    MoveUp,
    MoveDown,
    Flag,
    Reveal,
    Restart,
    Nothing,
}

/// What a key asks for: `q` or escape quits; `h`, `l`, `k`, `j` and the
/// arrows move; `f` flags; enter, space and `r` reveal; `n`, and `R` with
/// shift held, start anew.
pub open spec fn command_of(press: Press, shift: bool) -> Command {
    match press {
        Press::Esc => Command::Quit,
        Press::Left => Command::MoveLeft,
        Press::Right => Command::MoveRight,
        Press::Up => Command::MoveUp,
        Press::Down => Command::MoveDown,
        Press::Enter => Command::Reveal,
        Press::Other => Command::Nothing,
        Press::Char(c) => if c == 'q' {
            Command::Quit
        } else if c == 'h' {
            Command::MoveLeft
        } else if c == 'l' {
            Command::MoveRight
        } else if c == 'k' {
            Command::MoveUp
        } else if c == 'j' {
            Command::MoveDown
        } else if c == 'f' {
            Command::Flag
        } else if c == ' ' || c == 'r' {
            Command::Reveal
        } else if c == 'n' {
            Command::Restart
        } else if c == 'R' && shift {
            Command::Restart
        } else {
            Command::Nothing
        },
    }
}

/// What a key asks for.
pub fn key_command(press: Press, shift: bool) -> (c: Command)
    ensures
        c == command_of(press, shift),
{
    match press {
        Press::Esc => Command::Quit,
        Press::Left => Command::MoveLeft,
        Press::Right => Command::MoveRight,
        Press::Up => Command::MoveUp,
        Press::Down => Command::MoveDown,
        Press::Enter => Command::Reveal,
        Press::Other => Command::Nothing,
        Press::Char(c) => {
            if c == 'q' {
                Command::Quit
            } else if c == 'h' {
                Command::MoveLeft
            } else if c == 'l' {
                Command::MoveRight
            } else if c == 'k' {
                Command::MoveUp
            } else if c == 'j' {
                Command::MoveDown
            } else if c == 'f' {
                Command::Flag
            } else if c == ' ' || c == 'r' {
                Command::Reveal
            } else if c == 'n' {
                Command::Restart
            } else if c == 'R' && shift {
                Command::Restart
            } else {
                Command::Nothing
            }
        },
    }
}

/// Where the cursor stands after a command, on a board of `w` by `h` cells:
/// one step in the direction asked for, unless the edge is in the way.
pub open spec fn moved(x: int, y: int, command: Command, w: int, h: int) -> (int, int) {
    match command {
        Command::MoveLeft => if x > 0 {
            (x - 1, y)
        } else {
            (x, y)
        },
        Command::MoveRight => if x + 1 < w {
            (x + 1, y)
        } else {
            (x, y)
        },
        Command::MoveUp => if y > 0 {
            (x, y - 1)
        } else {
            (x, y)
        },
        Command::MoveDown => if y + 1 < h {
            (x, y + 1)
        } else {
            (x, y)
        },
        _ => (x, y),
    }
}

/// What a command does to the board with the cursor at `(x, y)`.
pub open spec fn acted(b: BoardView, x: int, y: int, command: Command) -> BoardView {
    match command {
        Command::Flag => b.flag_at(x, y),
        Command::Reveal => b.reveal_at(x, y),
        _ => b,
    }
}

/// What a click of `button` on the cell `at` does to the board.
pub open spec fn clicked(b: BoardView, button: Button, at: Option<(u16, u16)>) -> BoardView {
    match at {
        None => b,
        Some(p) => match button {
            Button::Left => b.reveal_at(p.0 as int, p.1 as int),
            Button::Right => b.flag_at(p.0 as int, p.1 as int),
            Button::Middle => b,
        },
    }
}

/// The smaller of `a` and `limit - 1`.
pub open spec fn kept_below(a: int, limit: int) -> int {
    if a < limit - 1 {
        a
    } else {
        limit - 1
    }
}

/// A sitting, as a mathematical value.
pub struct SessionView {
    /// The board.
    pub board: BoardView,
    /// Column of the cursor.
    pub cursor_x: int,
    /// Row of the cursor.
    pub cursor_y: int,
    /// The seed asked for, with which a new game starts.
    pub seed: u64,
}

impl SessionView {
    /// A valid board with the cursor on it.
    pub open spec fn valid(self) -> bool {
        self.board.valid() && self.board.on_board(self.cursor_x, self.cursor_y)
    }

    /// The sitting after a command other than a new start.
    pub open spec fn after(self, command: Command) -> SessionView {
        let at = moved(
            self.cursor_x,
            self.cursor_y,
            command,
            self.board.width as int,
            self.board.height as int,
        );
        SessionView {
            board: acted(self.board, self.cursor_x, self.cursor_y, command),
            cursor_x: at.0,
            cursor_y: at.1,
            ..self
        }
    }

    /// The sitting after step `step` of the scripted demonstration.
    pub open spec fn after_demo(self, step: nat) -> SessionView {
        let w = self.board.width as int;
        let h = self.board.height as int;
        if step == 0 {
            SessionView {
                board: self.board.reveal_at(0, 0),
                cursor_x: kept_below(1, w),
                cursor_y: kept_below(1, h),
                ..self
            }
        } else if step == 1 {
            SessionView { board: self.board.reveal_at(self.cursor_x, self.cursor_y), ..self }
        } else if step == 2 {
            SessionView {
                board: self.board.flag_at(kept_below(w / 2, w), kept_below(h / 2, h)),
                ..self
            }
        } else {
            self
        }
    }
}

/// One sitting: a board, the cursor on it, and the seed for the next game.
pub struct Session {
    board: Board,
    cursor_x: usize,
    cursor_y: usize,
    seed: u64,
}

impl View for Session {
    type V = SessionView;

    closed spec fn view(&self) -> SessionView {
        SessionView {
            board: self.board@,
            cursor_x: self.cursor_x as int,
            cursor_y: self.cursor_y as int,
            seed: self.seed,
        }
    }
}

impl Session {
    /// Whether the sitting satisfies the invariant that every operation
    /// keeps.
    pub open spec fn wf(&self) -> bool {
        self@.valid()
    }

    /// A sitting at a new board, the cursor in the first cell.
    pub fn new(width: usize, height: usize, mines: usize, seed: u64) -> (r: Result<
        Session,
        BoardError,
    >)
        requires
            width * height <= usize::MAX,
        ensures
            match r {
                Ok(s) => {
                    &&& refusal(width as nat, height as nat, mines as nat) is None
                    &&& s.wf()
                    &&& s@.board == BoardView::fresh(
                        width as nat,
                        height as nat,
                        mines as nat,
                        s@.board.seed,
                    )
                    &&& seed != 0 ==> s@.board.seed == seed
                    &&& s@.cursor_x == 0
                    &&& s@.cursor_y == 0
                    &&& s@.seed == seed
                },
                Err(e) => refusal(width as nat, height as nat, mines as nat) == Some(e),
            },
    {
        match Board::new(width, height, mines, seed) {
            Ok(board) => Ok(Session { board, cursor_x: 0, cursor_y: 0, seed }),
            Err(e) => Err(e),
        }
    }

    /// The board.
    pub fn board(&self) -> (b: &Board)
        ensures
            b@ == self@.board,
    {
        &self.board
    }

    /// The cursor: its column and its row.
    pub fn cursor(&self) -> (c: (usize, usize))
        ensures
            c.0 == self@.cursor_x,
            c.1 == self@.cursor_y,
    {
        (self.cursor_x, self.cursor_y)
    }

    /// Carries out a command and tells whether the sitting ends. A new start
    /// puts a new board of the same measures and seed in place and leaves the
    /// cursor; every other command moves the cursor or acts on its cell.
    pub fn apply(&mut self, command: Command) -> (quit: bool)
        requires
            old(self).wf(),
        ensures
            final(self).wf(),
            quit == (command == Command::Quit),
            command != Command::Restart ==> final(self)@ == old(self)@.after(command),
            command == Command::Restart ==> {
                let was = old(self)@;
                let now = final(self)@;
                &&& now == (SessionView { board: now.board, ..was })
                &&& now.board == BoardView::fresh(
                    was.board.width,
                    was.board.height,
                    was.board.mines,
                    now.board.seed,
                )
                &&& was.seed != 0 ==> now.board.seed == was.seed
            },
    {
        match command {
            Command::Quit => {
                return true;
            },
            Command::MoveLeft => {
                if self.cursor_x > 0 {
                    self.cursor_x -= 1;
                }
            },
            Command::MoveRight => {
                let width: usize = self.board.width();
                if self.cursor_x + 1 < width {
                    self.cursor_x += 1;
                }
            },
            Command::MoveUp => {
                if self.cursor_y > 0 {
                    self.cursor_y -= 1;
                }
            },
            Command::MoveDown => {
                let height: usize = self.board.height();
                if self.cursor_y + 1 < height {
                    self.cursor_y += 1;
                }
            },
            Command::Flag => {
                let _ = self.board.toggle_flag(self.cursor_x, self.cursor_y);
                proof {
                    crate::laws::law_flag_is_local(
                        old(self)@.board,
                        self.cursor_x as int,
                        self.cursor_y as int,
                    );
                }
            },
            Command::Reveal => {
                let _ = self.board.reveal_cell(self.cursor_x, self.cursor_y);
                proof {
                    crate::laws::law_reveal_is_monotone(
                        old(self)@.board,
                        self.cursor_x as int,
                        self.cursor_y as int,
                    );
                }
            },
            Command::Restart => {
                let width: usize = self.board.width();
                let height: usize = self.board.height();
                let mines: usize = self.board.mines();
                proof {
                    self.board.lemma_area_fits();
                }
                if let Ok(board) = Board::new(width, height, mines, self.seed) {
                    self.board = board;
                }
            },
            Command::Nothing => {},
        }
        false
    }

    /// Carries out a click of `button` at the screen position `(mx, my)`,
    /// where the board's first cell shows at the corner of `inner`: the left
    /// button reveals the cell under it, the right one flags it.
    pub fn click(&mut self, button: Button, mx: u16, my: u16, inner: Area)
        requires
            old(self).wf(),
        ensures
            final(self).wf(),
            final(self)@ == (SessionView {
                board: clicked(
                    old(self)@.board,
                    button,
                    cell_under(
                        mx,
                        my,
                        inner,
                        old(self)@.board.width as u16,
                        old(self)@.board.height as u16,
                    ),
                ),
                ..old(self)@
            }),
    {
        let cols: u16 = #[verifier::truncate]
        (self.board.width() as u16);
        let rows: u16 = #[verifier::truncate]
        (self.board.height() as u16);
        if let Some((cx, cy)) = pos_to_cell(mx, my, inner, cols, rows) {
            match button {
                Button::Left => {
                    let _ = self.board.reveal_cell(cx as usize, cy as usize);
                    proof {
                        crate::laws::law_reveal_is_monotone(old(self)@.board, cx as int, cy as int);
                    }
                },
                Button::Right => {
                    let _ = self.board.toggle_flag(cx as usize, cy as usize);
                    proof {
                        crate::laws::law_flag_is_local(old(self)@.board, cx as int, cy as int);
                    }
                },
                Button::Middle => {},
            }
        }
    }

    /// Carries out step `step` of the scripted demonstration and tells
    /// whether the script is over: the first step reveals the first cell and
    /// puts the cursor one cell in from the corner, the second reveals the
    /// cell under the cursor, the third flags the middle cell, the fourth
    /// pauses.
    pub fn demo(&mut self, step: usize) -> (over: bool)
        requires
            old(self).wf(),
        ensures
            final(self).wf(),
            over == (step > 3),
            final(self)@ == old(self)@.after_demo(step as nat),
    {
        let width: usize = self.board.width();
        let height: usize = self.board.height();
        if step == 0 {
            let _ = self.board.reveal_cell(0, 0);
            proof {
                crate::laws::law_reveal_is_monotone(old(self)@.board, 0, 0);
            }
            self.cursor_x = if 1 < width - 1 {
                1
            } else {
                width - 1
            };
            self.cursor_y = if 1 < height - 1 {
                1
            } else {
                height - 1
            };
            false
        } else if step == 1 {
            let _ = self.board.reveal_cell(self.cursor_x, self.cursor_y);
            proof {
                crate::laws::law_reveal_is_monotone(
                    old(self)@.board,
                    self.cursor_x as int,
                    self.cursor_y as int,
                );
            }
            false
        } else if step == 2 {
            let fx: usize = if width / 2 < width - 1 {
                width / 2
            } else {
                width - 1
            };
            let fy: usize = if height / 2 < height - 1 {
                height / 2
            } else {
                height - 1
            };
            let _ = self.board.toggle_flag(fx, fy);
            proof {
                crate::laws::law_flag_is_local(old(self)@.board, fx as int, fy as int);
            }
            false
        } else {
            step > 3
        }
    }
}

/// What a typed command is about.
#[derive(Clone, Copy, Debug, PartialEq, Eq, Structural)]
pub enum Verb {
    Reveal,
    Flag,
}

/// What the player is told after a typed command.
#[derive(Clone, Copy, Debug, PartialEq, Eq, Structural)]
pub enum Reply {
    /// The command was carried out with this result.
    Revealed(RevealResult),
    /// The flag was toggled.
    Flagged,
    /// A coordinate was zero; typed coordinates start at one.
    UseOneBased,
    /// The position is off the board or its cell is revealed.
    CannotFlag,
}

/// The board after a typed command on column `x`, row `y`, both counted
/// from one.
pub open spec fn after_typed(b: BoardView, verb: Verb, x: int, y: int) -> BoardView {
    if x == 0 || y == 0 {
        b
    } else {
        match verb {
            Verb::Reveal => b.reveal_at(x - 1, y - 1),
            Verb::Flag => b.flag_at(x - 1, y - 1),
        }
    }
}

/// What the player is told after a typed command on column `x`, row `y`.
pub open spec fn reply_to(b: BoardView, verb: Verb, x: int, y: int) -> Reply {
    if x == 0 || y == 0 {
        Reply::UseOneBased
    } else {
        match verb {
            Verb::Reveal => Reply::Revealed(b.reveal_outcome(x - 1, y - 1)),
            Verb::Flag => if b.can_flag(x - 1, y - 1) {
                Reply::Flagged
            } else {
                Reply::CannotFlag
            },
        }
    }
}

/// Carries out a typed command on column `x`, row `y`, both counted from
/// one.
pub fn typed(board: &mut Board, verb: Verb, x: usize, y: usize) -> (r: Reply)
    requires
        old(board).wf(),
    ensures
        final(board).wf(),
        final(board)@ == after_typed(old(board)@, verb, x as int, y as int),
        r == reply_to(old(board)@, verb, x as int, y as int),
{
    if x == 0 || y == 0 {
        return Reply::UseOneBased;
    }
    match verb {
        Verb::Reveal => Reply::Revealed(board.reveal_cell(x - 1, y - 1)),
        Verb::Flag => {
            if board.toggle_flag(x - 1, y - 1) {
                Reply::Flagged
            } else {
                Reply::CannotFlag
            }
        },
    }
}

} // verus!
