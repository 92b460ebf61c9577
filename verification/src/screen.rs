//! The emulated terminal: an 80 by 24 grid of characters and a cursor,
//! as the machine's writes to the terminal address update them.
use vstd::prelude::*;

use crate::constants::{TAB_SIZE, TERMINAL_HEIGHT, TERMINAL_WIDTH};
use crate::decode::{trunc_div, trunc_rem};

verus! {

/// What the terminal shows for a written byte.
#[derive(PartialEq, Eq, Structural, Clone, Copy, Debug)]
pub enum Echo {
    /// Nothing: the byte only moved the cursor.
    Nothing,
    /// A printable byte.
    Glyph(u8),
    /// A byte that cannot be printed, shown by its hexadecimal code.
    Hex(u8),
}

/// What to do with the display before a clock cycle.
#[derive(PartialEq, Eq, Structural, Clone, Copy, Debug)]
pub enum FrameAction {
    /// The window is smaller than the terminal: cover it and show the
    /// four-line notice with its top left corner at row `top`, column `left`;
    /// skip the cycle.
    TooSmall { top: i32, left: i32 },
    /// The window was too small on the previous cycle and is large enough
    /// now: redraw the terminal, then run the cycle.
    Restore,
    /// Run the cycle.
    Run,
}

/// The terminal as a grid of cells, column by column, and a cursor.
pub struct ScreenState {
    pub cells: Seq<char>,
    pub cur_x: i32,
    pub cur_y: i32,
}

/// Number of cells of the terminal.
pub open spec fn num_cells() -> int {
    TERMINAL_WIDTH * TERMINAL_HEIGHT
}

/// Index of the cell at column `x`, row `y`.
pub open spec fn cell_index(x: int, y: int) -> int {
    x * TERMINAL_HEIGHT + y
}

/// The cursor lies on the terminal.
pub open spec fn cursor_in_range(x: int, y: int) -> bool {
    0 <= x < TERMINAL_WIDTH && 0 <= y < TERMINAL_HEIGHT
}

/// The row after `y`, wrapping from the last row to the first.
pub open spec fn next_row(y: int) -> int {
    trunc_rem(y + 1, TERMINAL_HEIGHT as int)
}

/// The column a tab moves the cursor to from column `x`, before wrapping.
pub open spec fn tab_column(x: int) -> int {
    x + (TAB_SIZE - trunc_rem(x, TAB_SIZE as int))
}

impl ScreenState {
    pub open spec fn wf(self) -> bool {
        self.cells.len() == num_cells()
    }

    pub open spec fn with_cursor(self, x: int, y: int) -> ScreenState {
        ScreenState { cur_x: x as i32, cur_y: y as i32, ..self }
    }

    /// The cursor moved one column right, or to the start of the next row
    /// from the last column.
    pub open spec fn advance(self, x: int) -> ScreenState {
        if x >= TERMINAL_WIDTH {
            self.with_cursor(0, next_row(self.cur_y as int))
        } else {
            self.with_cursor(x, self.cur_y as int)
        }
    }

    pub open spec fn set_cell(self, ch: char) -> ScreenState {
        ScreenState {
            cells: self.cells.update(cell_index(self.cur_x as int, self.cur_y as int), ch),
            ..self
        }
    }
}

/// Writing byte `c` to the terminal: a tab moves to the next tab stop, a
/// carriage return to the first column, a line feed to the next row; a
/// printable byte is stored at the cursor, which moves on; any other byte
/// blanks the cell at the cursor, which stays.
pub open spec fn put_spec(s: ScreenState, c: u8, printable: bool) -> (ScreenState, Echo) {
    if c == 0x09 {
        (s.advance(tab_column(s.cur_x as int)), Echo::Nothing)
    } else if c == 0x0D {
        (s.with_cursor(0, s.cur_y as int), Echo::Nothing)
    } else if c == 0x0A {
        (s.with_cursor(s.cur_x as int, next_row(s.cur_y as int)), Echo::Nothing)
    } else if printable {
        (s.set_cell(c as char).advance(s.cur_x + 1), Echo::Glyph(c))
    } else {
        (s.set_cell(' '), Echo::Hex(c))
    }
}

/// The write cannot be done: the cursor arithmetic would overflow, or a cell
/// is to be written while the cursor is off the terminal.
pub open spec fn put_traps(s: ScreenState, c: u8, printable: bool) -> bool {
    let x = s.cur_x as int;
    let y = s.cur_y as int;
    if c == 0x09 {
        tab_column(x) > i32::MAX || (tab_column(x) >= TERMINAL_WIDTH && y == i32::MAX)
    } else if c == 0x0D {
        false
    } else if c == 0x0A {
        y == i32::MAX
    } else {
        !cursor_in_range(x, y)
    }
}

/// The emulated terminal.
pub struct SatScreen {
    terminal: Vec<char>,
    cur_x: i32,
    cur_y: i32,
}

impl View for SatScreen {
    type V = ScreenState;

    closed spec fn view(&self) -> ScreenState {
        ScreenState { cells: self.terminal@, cur_x: self.cur_x, cur_y: self.cur_y }
    }
}

impl SatScreen {
    /// A blank terminal with the cursor at column `cur_x`, row `cur_y`.
    pub fn new(cur_x: i32, cur_y: i32) -> (r: SatScreen)
        ensures
            r@.wf(),
            r@.cells == Seq::new(num_cells() as nat, |i: int| ' '),
            r@.cur_x == cur_x,
            r@.cur_y == cur_y,
    {
        let mut terminal: Vec<char> = Vec::new();
        let n = (TERMINAL_WIDTH * TERMINAL_HEIGHT) as usize;
        let mut i: usize = 0;
        while i < n
            invariant
                i <= n,
                n == num_cells(),
                terminal@ == Seq::new(i as nat, |j: int| ' '),
            decreases n - i,
        {
            terminal.push(' ');
            i = i + 1;
            assert(terminal@ =~= Seq::new(i as nat, |j: int| ' '));
        }
        SatScreen { terminal, cur_x, cur_y }
    }

    /// Moves the cursor one row down, wrapping from the last row to the first.
    fn line_feed(&mut self)
        requires
            old(self).cur_y < i32::MAX,
        ensures
            final(self)@ == old(self)@.with_cursor(old(self)@.cur_x as int, next_row(old(self)@.cur_y as int)),
    {
        self.cur_y = (self.cur_y + 1) % TERMINAL_HEIGHT;
    }

    /// Writes byte `c` to the terminal; `printable` tells whether the
    /// character classification of the host counts it as printable.
    pub fn put_char(&mut self, c: u8, printable: bool) -> (r: Echo)
        requires
            old(self)@.wf(),
            !put_traps(old(self)@, c, printable),
        ensures
            final(self)@.wf(),
            (final(self)@, r) == put_spec(old(self)@, c, printable),
    {
        if c == 0x09 {
            self.cur_x = self.cur_x + (TAB_SIZE as i32 - (self.cur_x % TAB_SIZE as i32));
            if self.cur_x >= TERMINAL_WIDTH {
                self.cur_x = 0;
                self.line_feed();
            }
            Echo::Nothing
        } else if c == 0x0D {
            self.cur_x = 0;
            Echo::Nothing
        } else if c == 0x0A {
            self.line_feed();
            Echo::Nothing
        } else if printable {
            let idx = (self.cur_x as usize) * (TERMINAL_HEIGHT as usize) + self.cur_y as usize;
            self.terminal.set(idx, c as char);
            self.cur_x = self.cur_x + 1;
            if self.cur_x >= TERMINAL_WIDTH {
                self.cur_x = 0;
                self.line_feed();
            }
            Echo::Glyph(c)
        } else {
            let idx = (self.cur_x as usize) * (TERMINAL_HEIGHT as usize) + self.cur_y as usize;
            self.terminal.set(idx, ' ');
            Echo::Hex(c)
        }
    }

    /// Whether writing `c` would fail (see `put_traps`).
    pub fn put_would_trap(&self, c: u8, printable: bool) -> (r: bool)
        ensures
            r == put_traps(self@, c, printable),
    {
        let x = self.cur_x;
        let y = self.cur_y;
        if c == 0x09 {
            let step = TAB_SIZE as i32 - (x % TAB_SIZE as i32);
            if x > i32::MAX - step {
                return true;
            }
            x + step >= TERMINAL_WIDTH && y == i32::MAX
        } else if c == 0x0D {
            false
        } else if c == 0x0A {
            y == i32::MAX
        } else {
            !(0 <= x && x < TERMINAL_WIDTH && 0 <= y && y < TERMINAL_HEIGHT)
        }
    }

    /// The character at column `x`, row `y`.
    pub fn cell(&self, x: i32, y: i32) -> (r: char)
        requires
            self@.wf(),
            cursor_in_range(x as int, y as int),
        ensures
            r == self@.cells[cell_index(x as int, y as int)],
    {
        self.terminal[(x as usize) * (TERMINAL_HEIGHT as usize) + y as usize]
    }

    pub fn cur_x(&self) -> (r: i32)
        ensures
            r == self@.cur_x,
    {
        self.cur_x
    }

    pub fn cur_y(&self) -> (r: i32)
        ensures
            r == self@.cur_y,
    {
        self.cur_y
    }
}

/// What the display needs before a cycle, for a window of `width` columns
/// and `height` rows, when `too_small_prev` tells whether it was too small
/// before. The window is too small when it is narrower or shorter than the
/// terminal; the notice is centred on it, twenty columns wide.
pub open spec fn frame_spec(width: i32, height: i32, too_small_prev: bool) -> FrameAction {
    if width < TERMINAL_WIDTH || height < TERMINAL_HEIGHT {
        FrameAction::TooSmall {
            top: (trunc_div(height as int, 2) - 1) as i32,
            left: (trunc_div(width as int, 2) - 10) as i32,
        }
    } else if too_small_prev {
        FrameAction::Restore
    } else {
        FrameAction::Run
    }
}

/// Decides what the display needs before a cycle (see `frame_spec`).
pub fn frame_action(width: i32, height: i32, too_small_prev: bool) -> (r: FrameAction)
    ensures
        r == frame_spec(width, height, too_small_prev),
{
    if width < TERMINAL_WIDTH || height < TERMINAL_HEIGHT {
        let cx: i32 = width / 2;
        let cy: i32 = height / 2;
        FrameAction::TooSmall { top: cy - 1, left: cx - 10 }
    } else if too_small_prev {
        FrameAction::Restore
    } else {
        FrameAction::Run
    }
}

} // verus!
