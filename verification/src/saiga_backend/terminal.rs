use vstd::prelude::*;
use unicode_width::UnicodeWidthChar;

use super::event::{Event, EventListener, EventV};
use super::grid::cell::Cell;
use super::grid::{Column, Grid, Line, Position};
use crate::saiga_vte::ansi::handler::Direction;

verus! {

/// The display width that `unicode-width` gives a character that is not a
/// control character.
pub uninterp spec fn char_width(c: char) -> Option<usize>;

/// Calls `UnicodeWidthChar::width` of `unicode-width`: control characters
/// (below U+0020 and U+007F to U+009F) have no width, the rest of ASCII is
/// one column, everything else has a width of at most three from the
/// crate's tables (named [`char_width`]).
#[verifier::external_body]
fn width(c: char) -> (r: Option<usize>)
    ensures
        r == char_width(c),
        (c as u32) < 0x20 ==> r is None,
        0x20 <= (c as u32) < 0x7F ==> r == Some(1usize),
        0x7F <= (c as u32) < 0xA0 ==> r is None,
        0xA0 <= (c as u32) ==> r is Some && r.unwrap() <= 3,
{
    c.width()
}

/// The terminal: a grid and who hears about its events.
pub struct Terminal<E: EventListener> {
    pub grid: Grid,
    pub event_listener: E,
}

/// Whether a character of width `w` fits at `column` in `columns` columns.
pub open spec fn fits(column: int, w: int, columns: int) -> bool {
    column + w < columns
}

impl<E: EventListener> Terminal<E> {
    pub fn new(grid: Grid, event_listener: E) -> (r: Terminal<E>)
        ensures
            r.grid == grid,
    {
        Terminal { grid, event_listener }
    }

    fn set_char_at_cursor(&mut self, c: char)
        requires
            old(self).grid.wf(),
            old(self).grid.contains(old(self).grid.cursor_view().position),
        ensures
            final(self).grid.wf(),
            final(self).grid.dims() == old(self).grid.dims(),
            final(self).grid.cursor_view() == old(self).grid.cursor_view(),
            final(self).grid.cells() == ({
                let p = old(self).grid.cursor_view().position;
                let cells = old(self).grid.cells();
                cells.update(
                    p.line as int,
                    cells[p.line as int].update(
                        p.column as int,
                        Cell { char: Some(c), ..cells[p.line as int][p.column as int] },
                    ),
                )
            }),
    {
        let mut cell = *self.grid.cell_at_cursor();
        cell.char = Some(c);
        self.grid.set_cell_at_cursor(cell);
    }

    /// Tells the listener the new title; the grid stays as it is.
    pub fn set_title(&mut self, title: &str)
        ensures
            final(self).grid == old(self).grid,
            final(self).event_listener.events() == old(self).event_listener.events().push(
                EventV::SetTitle(title@),
            ),
    {
        self.event_listener.on_event(Event::SetTitle(title.to_owned()));
    }

    pub fn set_cursor_position(&mut self, position: Position)
        ensures
            final(self).grid.cursor_view().position == position,
            final(self).grid.cursor_view().template == old(self).grid.cursor_view().template,
            final(self).grid.cells() == old(self).grid.cells(),
            final(self).grid.dims() == old(self).grid.dims(),
    {
        let mut cursor = self.grid.cursor();
        cursor.position.line = position.line;
        cursor.position.column = position.column;
        self.grid.set_cursor(cursor);
    }

    pub fn set_cursor_line(&mut self, line: Line)
        ensures
            final(self).grid.cursor_view().position == (Position {
                line,
                ..old(self).grid.cursor_view().position
            }),
            final(self).grid.cells() == old(self).grid.cells(),
            final(self).grid.dims() == old(self).grid.dims(),
    {
        let mut cursor = self.grid.cursor();
        cursor.position.line = line;
        self.grid.set_cursor(cursor);
    }

    pub fn set_cursor_column(&mut self, column: Column)
        ensures
            final(self).grid.cursor_view().position == (Position {
                column,
                ..old(self).grid.cursor_view().position
            }),
            final(self).grid.cells() == old(self).grid.cells(),
            final(self).grid.dims() == old(self).grid.dims(),
    {
        let mut cursor = self.grid.cursor();
        cursor.position.column = column;
        self.grid.set_cursor(cursor);
    }

    /// Moves the cursor `count` cells (saturating): up adds to the line,
    /// down subtracts, right adds to the column, left subtracts; then the
    /// column is reset to 0 if asked.
    pub fn move_cursor(&mut self, direction: Direction, count: usize, reset_column: bool)
        ensures
            final(self).grid.cells() == old(self).grid.cells(),
            final(self).grid.dims() == old(self).grid.dims(),
            ({
                let p = old(self).grid.cursor_view().position;
                let q = final(self).grid.cursor_view().position;
                let moved = match direction {
                    Direction::Up => Position {
                        line: if p.line + count > usize::MAX {
                            usize::MAX
                        } else {
                            (p.line + count) as usize
                        },
                        ..p
                    },
                    Direction::Right => Position {
                        column: if p.column + count > usize::MAX {
                            usize::MAX
                        } else {
                            (p.column + count) as usize
                        },
                        ..p
                    },
                    Direction::Down => Position {
                        line: if p.line < count {
                            0
                        } else {
                            (p.line - count) as usize
                        },
                        ..p
                    },
                    Direction::Left => Position {
                        column: if p.column < count {
                            0
                        } else {
                            (p.column - count) as usize
                        },
                        ..p
                    },
                };
                q == if reset_column {
                    Position { column: 0, ..moved }
                } else {
                    moved
                }
            }),
    {
        let mut cursor = self.grid.cursor();
        match direction {
            Direction::Up => {
                cursor.position.line = cursor.position.line.saturating_add(count);
            },
            Direction::Right => {
                cursor.position.column = cursor.position.column.saturating_add(count);
            },
            Direction::Down => {
                cursor.position.line = cursor.position.line.saturating_sub(count);
            },
            Direction::Left => {
                cursor.position.column = cursor.position.column.saturating_sub(count);
            },
        }
        if reset_column {
            cursor.position.column = 0;
        }
        self.grid.set_cursor(cursor);
    }

    /// Writes `c` under the cursor when it fits on the line; control
    /// characters are dropped. Zero-width characters are not handled, and
    /// a character that fits must be on a line of the grid.
    pub fn put_char(&mut self, c: char)
        requires
            old(self).grid.wf(),
            char_width(c) != Some(0usize),
            char_width(c) matches Some(w) && fits(
                old(self).grid.cursor_view().position.column as int,
                w as int,
                old(self).grid.dims().columns as int,
            ) ==> old(self).grid.cursor_view().position.line < old(self).grid.dims().lines,
        ensures
            final(self).grid.wf(),
            final(self).grid.dims() == old(self).grid.dims(),
            final(self).grid.cursor_view() == old(self).grid.cursor_view(),
            ({
                let p = old(self).grid.cursor_view().position;
                let cells = old(self).grid.cells();
                final(self).grid.cells() == if char_width(c) matches Some(w) && fits(
                    p.column as int,
                    w as int,
                    old(self).grid.dims().columns as int,
                ) {
                    cells.update(
                        p.line as int,
                        cells[p.line as int].update(
                            p.column as int,
                            Cell { char: Some(c), ..cells[p.line as int][p.column as int] },
                        ),
                    )
                } else {
                    cells
                }
            }),
    {
        let w = match width(c) {
            Some(w) => w,
            None => {
                return;
            },
        };
        let column = self.grid.cursor().position.column;
        let fit = match column.checked_add(w) {
            Some(end) => end < self.grid.width(),
            None => false,
        };
        if fit {
            self.set_char_at_cursor(c);
        }
    }

    /// Writes `c` as [`put_char`](Self::put_char) does when it can; returns
    /// `false`, changing nothing, for a zero-width character or one that
    /// fits on a line outside the grid.
    pub fn try_put_char(&mut self, c: char) -> (r: bool)
        requires
            old(self).grid.wf(),
        ensures
            final(self).grid.wf(),
            final(self).grid.dims() == old(self).grid.dims(),
            final(self).grid.cursor_view() == old(self).grid.cursor_view(),
            r == (char_width(c) != Some(0usize) && (char_width(c) matches Some(w) && fits(
                old(self).grid.cursor_view().position.column as int,
                w as int,
                old(self).grid.dims().columns as int,
            ) ==> old(self).grid.cursor_view().position.line < old(self).grid.dims().lines)),
            !r ==> final(self).grid.cells() == old(self).grid.cells(),
    {
        let w = width(c);
        match w {
            Some(w) => {
                if w == 0 {
                    return false;
                }
                let p = self.grid.cursor().position;
                let fit = match p.column.checked_add(w) {
                    Some(end) => end < self.grid.width(),
                    None => false,
                };
                if fit && p.line >= self.grid.height() {
                    return false;
                }
            },
            None => {},
        }
        self.put_char(c);
        true
    }

    /// Puts the saved cursor back, if there is one.
    pub fn restore_cursor_position(&mut self)
        ensures
            final(self).grid.cells() == old(self).grid.cells(),
            final(self).grid.dims() == old(self).grid.dims(),
            final(self).grid.saved_cursor_view() is None,
            final(self).grid.cursor_view() == match old(self).grid.saved_cursor_view() {
                Some(saved) => saved,
                None => old(self).grid.cursor_view(),
            },
    {
        match self.grid.take_saved_cursor() {
            Some(saved) => self.grid.set_cursor(saved),
            None => {},
        }
    }

    /// Moves the cursor one column left, unless it is in the first column.
    pub fn backspace(&mut self)
        ensures
            final(self).grid.cells() == old(self).grid.cells(),
            final(self).grid.dims() == old(self).grid.dims(),
            final(self).grid.cursor_view().position == ({
                let p = old(self).grid.cursor_view().position;
                if p.column == 0 {
                    p
                } else {
                    Position { column: (p.column - 1) as usize, ..p }
                }
            }),
    {
        let mut cursor = self.grid.cursor();
        if cursor.position.column == 0 {
            return;
        }
        cursor.position.column = cursor.position.column - 1;
        self.grid.set_cursor(cursor);
    }
}

} // verus!
