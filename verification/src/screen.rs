//! Where the board stands on a terminal screen, and how each cell shows
//! there.

use crate::cell::{Cell, CellView};
use crate::render::digit;
use vstd::prelude::*;

verus! {

/// A rectangle of screen cells.
#[derive(Clone, Copy, Debug, PartialEq, Eq, Structural)]
pub struct Area {
    /// Column of the left edge.
    pub x: u16,
    /// Row of the top edge.
    pub y: u16,
    /// Number of columns.
    pub width: u16,
    /// Number of rows.
    pub height: u16,
}

/// Screen columns that one cell of the board takes: its character and a
/// space.
pub const CELL_WIDTH: u16 = 2;

/// `a + b`, or the largest 16-bit number where that is less.
pub open spec fn capped_sum(a: int, b: int) -> int {
    if a + b > u16::MAX {
        u16::MAX as int
    } else {
        a + b
    }
}

/// `a - b`, or zero where that is more.
pub open spec fn floored_difference(a: int, b: int) -> int {
    if a < b {
        0
    } else {
        a - b
    }
}

/// The smaller of two numbers.
pub open spec fn smaller(a: int, b: int) -> int {
    if a <= b {
        a
    } else {
        b
    }
}

/// The area of a grid of `cols` by `rows` cells, centred in `parent` and cut
/// to its size.
pub open spec fn centered(parent: Area, cols: u16, rows: u16) -> Area {
    let grid_w = cols * CELL_WIDTH;
    let grid_h = rows as int;
    Area {
        x: capped_sum(parent.x as int, floored_difference(parent.width as int, grid_w) / 2) as u16,
        y: capped_sum(parent.y as int, floored_difference(parent.height as int, grid_h) / 2) as u16,
        width: smaller(grid_w, parent.width as int) as u16,
        height: smaller(grid_h, parent.height as int) as u16,
    }
}

/// The area of a grid of `cols` by `rows` cells, centred in `parent` and cut
/// to its size.
pub fn centered_grid_area(parent: Area, cols: u16, rows: u16) -> (a: Area)
    requires
        cols * CELL_WIDTH <= u16::MAX,
    ensures
        a == centered(parent, cols, rows),
{
    let grid_w: u16 = cols * CELL_WIDTH;
    let grid_h: u16 = rows;
    let x: u16 = parent.x.saturating_add((parent.width.saturating_sub(grid_w)) / 2);
    let y: u16 = parent.y.saturating_add((parent.height.saturating_sub(grid_h)) / 2);
    let width: u16 = if grid_w <= parent.width {
        grid_w
    } else {
        parent.width
    };
    let height: u16 = if grid_h <= parent.height {
        grid_h
    } else {
        parent.height
    };
    Area { x, y, width, height }
}

/// The area inside a border of one cell on every side.
pub open spec fn inside(area: Area) -> Area {
    Area {
        x: capped_sum(area.x as int, 1) as u16,
        y: capped_sum(area.y as int, 1) as u16,
        width: floored_difference(area.width as int, 2) as u16,
        height: floored_difference(area.height as int, 2) as u16,
    }
}

/// The area inside a border of one cell on every side.
pub fn inner_area(area: Area) -> (a: Area)
    ensures
        a == inside(area),
{
    Area {
        x: area.x.saturating_add(1),
        y: area.y.saturating_add(1),
        width: area.width.saturating_sub(2),
        height: area.height.saturating_sub(2),
    }
}

/// The cell of a board of `cols` by `rows` cells that shows at screen
/// position `(mx, my)`, where the board's first cell shows at the corner of
/// `inner`.
pub open spec fn cell_under(mx: u16, my: u16, inner: Area, cols: u16, rows: u16) -> Option<
    (u16, u16),
> {
    if mx < inner.x || my < inner.y {
        None
    } else if (mx - inner.x) / (CELL_WIDTH as int) < cols && my - inner.y < rows {
        Some((((mx - inner.x) / (CELL_WIDTH as int)) as u16, (my - inner.y) as u16))
    } else {
        None
    }
}

/// The cell of the board under the screen position `(mx, my)`, if there is
/// one.
pub fn pos_to_cell(mx: u16, my: u16, inner: Area, cols: u16, rows: u16) -> (r: Option<(u16, u16)>)
    ensures
        r == cell_under(mx, my, inner, cols, rows),
{
    if mx < inner.x || my < inner.y {
        return None;
    }
    let rel_x: u16 = mx - inner.x;
    let rel_y: u16 = my - inner.y;
    let cx: u16 = rel_x / CELL_WIDTH;
    let cy: u16 = rel_y;
    if cx < cols && cy < rows {
        Some((cx, cy))
    } else {
        None
    }
}

/// A colour of the palette.
#[derive(Clone, Copy, Debug, PartialEq, Eq, Structural)]
pub enum Tint {
    Gray,
    Blue,
    Green,
    Red,
    Magenta,
    Yellow,
    Cyan,
    White,
    DarkGray,
}

/// The colour in which the count `n` shows.
pub open spec fn count_tint(n: nat) -> Tint {
    if n == 0 {
        Tint::Gray
    } else if n == 1 {
        Tint::Blue
    } else if n == 2 {
        Tint::Green
    } else if n == 3 {
        Tint::Red
    } else if n == 4 {
        Tint::Magenta
    } else if n == 5 {
        Tint::Yellow
    } else if n == 6 {
        Tint::Cyan
    } else {
        Tint::White
    }
}

/// The colour in which the count `n` shows.
pub fn number_tint(n: u8) -> (t: Tint)
    ensures
        t == count_tint(n as nat),
{
    match n {
        0 => Tint::Gray,
        1 => Tint::Blue,
        2 => Tint::Green,
        3 => Tint::Red,
        4 => Tint::Magenta,
        5 => Tint::Yellow,
        6 => Tint::Cyan,
        _ => Tint::White,
    }
}

/// How one cell shows on the screen.
#[derive(Clone, Copy, Debug, PartialEq, Eq, Structural)]
pub struct Tile {
    /// The character.
    pub glyph: char,
    /// Its colour.
    pub tint: Tint,
    /// Whether it shows in reverse video, as the selected cell does.
    pub reversed: bool,
}

/// The character of a covered cell, and of a selected blank one.
pub open spec fn dot() -> char {
    '\u{b7}'
}

/// The character of a cell before selection: `*` for every mine once the
/// game is lost and for a revealed one, the count or a blank for a revealed
/// safe cell, `F` for a flag, a dot otherwise.
pub open spec fn plain_glyph(c: CellView, alive: bool) -> char {
    if !alive && c.is_mine {
        '*'
    } else if c.revealed {
        if c.is_mine {
            '*'
        } else if c.adjacent == 0 {
            ' '
        } else if c.adjacent < 10 {
            digit(c.adjacent as int)
        } else {
            '?'
        }
    } else if c.flagged {
        'F'
    } else {
        dot()
    }
}

/// The colour of a cell: red for a mine once the game is lost, yellow for a
/// flag, the colour of its count for a revealed cell, dark gray otherwise.
pub open spec fn cell_tint(c: CellView, alive: bool) -> Tint {
    if !alive && c.is_mine {
        Tint::Red
    } else if c.flagged {
        Tint::Yellow
    } else if c.revealed {
        count_tint(c.adjacent)
    } else {
        Tint::DarkGray
    }
}

/// How a cell shows: its character and colour, in reverse video if it is the
/// selected cell, whose blank shows as a dot.
pub open spec fn tile_of(c: CellView, alive: bool, selected: bool) -> Tile {
    let plain = plain_glyph(c, alive);
    Tile {
        glyph: if selected && plain == ' ' {
            dot()
        } else {
            plain
        },
        tint: cell_tint(c, alive),
        reversed: selected,
    }
}

/// The character of the decimal digit `d`.
fn digit_char(d: u8) -> (c: char)
    requires
        d < 10,
    ensures
        c == digit(d as int),
{
    match d {
        0 => '0',
        1 => '1',
        2 => '2',
        3 => '3',
        4 => '4',
        5 => '5',
        6 => '6',
        7 => '7',
        8 => '8',
        _ => '9',
    }
}

/// How `cell` shows on the screen while the game is `alive`, selected or
/// not.
pub fn tile(cell: &Cell, alive: bool, selected: bool) -> (t: Tile)
    ensures
        t == tile_of(cell@, alive, selected),
{
    let plain: char = if !alive && cell.is_mine() {
        '*'
    } else if cell.revealed() {
        if cell.is_mine() {
            '*'
        } else if cell.adjacent() == 0 {
            ' '
        } else if cell.adjacent() < 10 {
            digit_char(cell.adjacent())
        } else {
            '?'
        }
    } else if cell.flagged() {
        'F'
    } else {
        '\u{b7}'
    };
    let tint: Tint = if !alive && cell.is_mine() {
        Tint::Red
    } else if cell.flagged() {
        Tint::Yellow
    } else if cell.revealed() {
        number_tint(cell.adjacent())
    } else {
        Tint::DarkGray
    };
    let glyph: char = if selected && plain == ' ' {
        '\u{b7}'
    } else {
        plain
    };
    Tile { glyph, tint, reversed: selected }
}

/// How the game stands.
#[derive(Clone, Copy, Debug, PartialEq, Eq, Structural)]
pub enum Standing {
    /// A mine was revealed.
    Lost,
    /// Every safe cell is revealed.
    Won,
    /// The game goes on.
    Playing,
}

/// How a game with these marks stands.
pub open spec fn standing_of(alive: bool, won: bool) -> Standing {
    if !alive {
        Standing::Lost
    } else if won {
        Standing::Won
    } else {
        Standing::Playing
    }
}

/// How a game with these marks stands.
pub fn standing(alive: bool, won: bool) -> (s: Standing)
    ensures
        s == standing_of(alive, won),
{
    if !alive {
        Standing::Lost
    } else if won {
        Standing::Won
    } else {
        Standing::Playing
    }
}

} // verus!
