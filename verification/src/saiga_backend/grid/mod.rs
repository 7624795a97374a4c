use vstd::prelude::*;

use crate::saiga_vte::ansi::handler::{Charset, CharsetIndex};
use cell::{spec_default_cell, Cell};
use resize::spec_resized;

pub mod cell;
pub mod resize;

verus! {

pub type Line = usize;

pub type Column = usize;

/// One line of cells.
pub struct Row(pub Vec<Cell>);

impl Row {
    /// A line of `columns` default cells.
    pub fn new(columns: usize) -> (r: Row)
        ensures
            r.0@ == Seq::new(columns as nat, |j: int| spec_default_cell()),
    {
        let mut inner: Vec<Cell> = Vec::new();
        let mut j: usize = 0;
        while j < columns
            invariant
                j <= columns,
                inner@ =~= Seq::new(j as nat, |k: int| spec_default_cell()),
            decreases columns - j,
        {
            inner.push(Cell::default());
            j = j + 1;
        }
        Row(inner)
    }

    pub fn len(&self) -> (r: usize)
        ensures
            r == self.0@.len(),
    {
        self.0.len()
    }

    pub fn as_slice(&self) -> (r: &[Cell])
        ensures
            r@ == self.0@,
    {
        self.0.as_slice()
    }
}

/// The size of the grid.
#[derive(Debug, Clone, Copy, PartialEq, Eq, Structural)]
pub struct Dimensions {
    pub lines: usize,
    pub columns: usize,
}

impl Default for Dimensions {
    fn default() -> (r: Dimensions)
        ensures
            r == (Dimensions { lines: 20, columns: 40 }),
    {
        Dimensions { lines: 20, columns: 40 }
    }
}

/// A line and a column of the grid.
#[derive(Debug, PartialEq, Eq, Clone, Copy, Structural)]
pub struct Position {
    pub line: Line,
    pub column: Column,
}

impl Default for Position {
    fn default() -> (r: Position)
        ensures
            r == (Position { line: 0, column: 0 }),
    {
        Position { line: 0, column: 0 }
    }
}

/// A cell with its position.
#[derive(Debug)]
pub struct PositionedCell {
    pub position: Position,
    pub value: Cell,
}

/// The character sets designated as G0 to G3.
#[derive(Debug, Copy, Clone, PartialEq, Eq)]
pub struct Charsets(pub [Charset; 4]);

impl Default for Charsets {
    fn default() -> (r: Charsets)
        ensures
            forall|i: int| 0 <= i < 4 ==> r.0@[i] == Charset::Ascii,
    {
        Charsets([Charset::Ascii, Charset::Ascii, Charset::Ascii, Charset::Ascii])
    }
}

impl Charsets {
    /// The character set designated as `index`.
    pub fn get(&self, index: CharsetIndex) -> (r: Charset)
        ensures
            r == self.0@[index.spec_position() as int],
    {
        self.0[index.position()]
    }

    /// Designates `charset` as `index`.
    pub fn set(&mut self, index: CharsetIndex, charset: Charset)
        ensures
            final(self).0@ == old(self).0@.update(index.spec_position() as int, charset),
    {
        let i = index.position();
        self.0[i] = charset;
    }
}

/// Where the cursor is, the cell it writes, and the character sets.
#[derive(Clone, Copy)]
pub struct Cursor {
    pub position: Position,
    pub template: Cell,
    pub charsets: Charsets,
}

impl Default for Cursor {
    fn default() -> (r: Cursor)
        ensures
            r.position == (Position { line: 0, column: 0 }),
            r.template == spec_default_cell(),
            forall|i: int| 0 <= i < 4 ==> r.charsets.0@[i] == Charset::Ascii,
    {
        Cursor {
            position: Position::default(),
            template: Cell::default(),
            charsets: Charsets::default(),
        }
    }
}

/// The grid of cells: `lines` rows of `columns` cells each.
pub struct Grid {
    rows: Vec<Row>,
    pub cursor: Cursor,
    pub saved_cursor: Option<Cursor>,
    dimensions: Dimensions,
}

pub open spec fn rows_view(rows: Seq<Row>) -> Seq<Seq<Cell>> {
    rows.map_values(|r: Row| r.0@)
}

/// Every cell default, in a grid of `dimensions`.
pub open spec fn spec_blank(dimensions: Dimensions) -> Seq<Seq<Cell>> {
    Seq::new(
        dimensions.lines as nat,
        |i: int| Seq::new(dimensions.columns as nat, |j: int| spec_default_cell()),
    )
}

impl Grid {
    /// The cells, line by line.
    pub closed spec fn cells(self) -> Seq<Seq<Cell>> {
        rows_view(self.rows@)
    }

    pub closed spec fn dims(self) -> Dimensions {
        self.dimensions
    }

    /// The cursor.
    pub closed spec fn cursor_view(self) -> Cursor {
        self.cursor
    }

    /// The saved cursor.
    pub closed spec fn saved_cursor_view(self) -> Option<Cursor> {
        self.saved_cursor
    }

    /// Well-formed: as many lines as the dimensions say, each as wide.
    pub open spec fn wf(self) -> bool {
        &&& self.cells().len() == self.dims().lines
        &&& forall|i: int| 0 <= i < self.cells().len() ==> (#[trigger] self.cells()[i]).len()
            == self.dims().columns
    }

    /// Whether `position` is a cell of the grid.
    pub open spec fn contains(self, position: Position) -> bool {
        position.line < self.dims().lines && position.column < self.dims().columns
    }

    /// The cursor.
    pub fn cursor(&self) -> (r: Cursor)
        ensures
            r == self.cursor_view(),
    {
        self.cursor
    }

    /// Moves or restyles the cursor.
    pub fn set_cursor(&mut self, cursor: Cursor)
        ensures
            final(self).cursor_view() == cursor,
            final(self).cells() == old(self).cells(),
            final(self).dims() == old(self).dims(),
            final(self).saved_cursor_view() == old(self).saved_cursor_view(),
    {
        self.cursor = cursor;
    }

    /// Takes the saved cursor out.
    pub fn take_saved_cursor(&mut self) -> (r: Option<Cursor>)
        ensures
            r == old(self).saved_cursor_view(),
            final(self).saved_cursor_view() is None,
            final(self).cursor_view() == old(self).cursor_view(),
            final(self).cells() == old(self).cells(),
            final(self).dims() == old(self).dims(),
    {
        let saved = self.saved_cursor;
        self.saved_cursor = None;
        saved
    }

    /// A grid of default cells with the cursor at the origin.
    pub fn with_dimensions(dimensions: Dimensions) -> (r: Grid)
        ensures
            r.wf(),
            r.dims() == dimensions,
            r.cells() == spec_blank(dimensions),
            r.cursor_view().position == (Position { line: 0, column: 0 }),
            r.cursor_view().template == spec_default_cell(),
            r.saved_cursor_view() is None,
    {
        let mut rows: Vec<Row> = Vec::new();
        let mut i: usize = 0;
        while i < dimensions.lines
            invariant
                i <= dimensions.lines,
                rows_view(rows@) =~= spec_blank(dimensions).take(i as int),
            decreases dimensions.lines - i,
        {
            let row = Row::new(dimensions.columns);
            let ghost prev = rows_view(rows@);
            let ghost rv = row.0@;
            rows.push(row);
            assert(rows_view(rows@) =~= prev.push(rv));
            i = i + 1;
        }
        assert(spec_blank(dimensions).take(i as int) =~= spec_blank(dimensions));
        Grid { rows, cursor: Cursor::default(), saved_cursor: None, dimensions }
    }

    pub fn width(&self) -> (r: usize)
        ensures
            r == self.dims().columns,
    {
        self.dimensions.columns
    }

    pub fn height(&self) -> (r: usize)
        ensures
            r == self.dims().lines,
    {
        self.dimensions.lines
    }

    /// The cell at `position`.
    pub fn cell(&self, position: Position) -> (r: &Cell)
        requires
            self.wf(),
            self.contains(position),
        ensures
            *r == self.cells()[position.line as int][position.column as int],
    {
        assert(self.rows@[position.line as int].0@ == self.cells()[position.line as int]);
        &self.rows[position.line].0[position.column]
    }

    /// Writes `cell` at `position`.
    pub fn set_cell(&mut self, position: Position, cell: Cell)
        requires
            old(self).wf(),
            old(self).contains(position),
        ensures
            final(self).wf(),
            final(self).dims() == old(self).dims(),
            final(self).cursor_view() == old(self).cursor_view(),
            final(self).saved_cursor_view() == old(self).saved_cursor_view(),
            final(self).cells() == old(self).cells().update(
                position.line as int,
                old(self).cells()[position.line as int].update(position.column as int, cell),
            ),
    {
        let line = position.line;
        let ghost before = self.cells();
        assert(self.rows@[line as int].0@ == before[line as int]);
        let mut cells: Vec<Cell> = Vec::new();
        let width = self.rows[line].0.len();
        let mut j: usize = 0;
        while j < width
            invariant
                j <= width,
                line < self.rows@.len(),
                width == self.rows@[line as int].0@.len(),
                position.column < width,
                cells@ =~= self.rows@[line as int].0@.update(position.column as int, cell).take(
                    j as int,
                ),
            decreases width - j,
        {
            if j == position.column {
                cells.push(cell);
            } else {
                cells.push(self.rows[line].0[j]);
            }
            j = j + 1;
        }
        assert(cells@ =~= before[line as int].update(position.column as int, cell));
        let ghost cv = cells@;
        self.rows.set(line, Row(cells));
        assert(self.cells() =~= before.update(line as int, cv));
    }

    /// The line at `line`.
    pub fn row(&self, line: Line) -> (r: &Row)
        requires
            self.wf(),
            line < self.dims().lines,
        ensures
            r.0@ == self.cells()[line as int],
    {
        &self.rows[line]
    }

    /// The cell under the cursor.
    pub fn cell_at_cursor(&self) -> (r: &Cell)
        requires
            self.wf(),
            self.contains(self.cursor_view().position),
        ensures
            *r == self.cells()[self.cursor_view().position.line as int][self.cursor_view().position.column as int],
    {
        self.cell(self.cursor.position)
    }

    /// Writes `cell` under the cursor.
    pub fn set_cell_at_cursor(&mut self, cell: Cell)
        requires
            old(self).wf(),
            old(self).contains(old(self).cursor_view().position),
        ensures
            final(self).wf(),
            final(self).dims() == old(self).dims(),
            final(self).cursor_view() == old(self).cursor_view(),
            final(self).saved_cursor_view() == old(self).saved_cursor_view(),
            final(self).cells() == old(self).cells().update(
                old(self).cursor_view().position.line as int,
                old(self).cells()[old(self).cursor_view().position.line as int].update(
                    old(self).cursor_view().position.column as int,
                    cell,
                ),
            ),
    {
        let position = self.cursor.position;
        self.set_cell(position, cell);
    }

    /// An iterator over the cells, line by line.
    pub fn iter(&self) -> (r: GridIterator<'_>)
        ensures
            r.grid == self,
            r.current is None,
            r.end == (Position {
                line: if self.dims().lines > 0 {
                    (self.dims().lines - 1) as usize
                } else {
                    0
                },
                column: if self.dims().columns > 0 {
                    (self.dims().columns - 1) as usize
                } else {
                    0
                },
            }),
    {
        let end = Position {
            line: self.height().saturating_sub(1),
            column: self.width().saturating_sub(1),
        };
        GridIterator { grid: self, current: None, end }
    }
}

/// Walks the cells of a grid line by line.
pub struct GridIterator<'a> {
    pub grid: &'a Grid,
    pub current: Option<Position>,
    pub end: Position,
}

/// The position after `p` in a grid `width` cells wide, line by line.
pub open spec fn spec_next_position(p: Position, width: usize) -> Position {
    if p.column == width - 1 {
        Position { line: (p.line + 1) as usize, column: 0 }
    } else {
        Position { line: p.line, column: (p.column + 1) as usize }
    }
}

impl<'a> GridIterator<'a> {
    /// Whether the walk is over: at the last cell, or the grid is a single
    /// line or column.
    pub open spec fn finished(self) -> bool {
        self.current == Some(self.end) || self.end.column == 0 || self.end.line == 0
    }

    /// The position that the next call returns.
    pub open spec fn next_position(self) -> Position {
        match self.current {
            Some(p) => spec_next_position(p, self.grid.dims().columns),
            None => Position { line: 0, column: 0 },
        }
    }

    /// The next cell and its position.
    pub fn next(&mut self) -> (r: Option<PositionedCell>)
        requires
            old(self).grid.wf(),
            old(self).current matches Some(p) ==> old(self).grid.contains(p),
            !old(self).finished() ==> old(self).grid.contains(old(self).next_position()),
        ensures
            final(self).grid == old(self).grid,
            final(self).end == old(self).end,
            old(self).finished() ==> r is None && final(self).current == old(self).current,
            !old(self).finished() ==> (r matches Some(c) && c.position == old(self).next_position()
                && c.value == old(self).grid.cells()[c.position.line as int][c.position.column as int]
                && final(self).current == Some(c.position)),
    {
        let done = match self.current {
            Some(p) => p == self.end,
            None => false,
        };
        if done || self.end.column == 0 || self.end.line == 0 {
            return None;
        }
        let position = match self.current {
            Some(p) => {
                if p.column == self.grid.width() - 1 {
                    Position { line: p.line + 1, column: 0 }
                } else {
                    Position { line: p.line, column: p.column + 1 }
                }
            },
            None => Position::default(),
        };
        let value = *self.grid.cell(position);
        self.current = Some(position);
        Some(PositionedCell { value, position })
    }
}

impl Grid {
    /// Resizes the grid to `dimensions`; cells that fit keep their place and
    /// new cells are default ones.
    pub fn resize(&mut self, dimensions: Dimensions)
        requires
            old(self).wf(),
        ensures
            final(self).wf(),
            final(self).dims() == dimensions,
            final(self).cells() == spec_resized(old(self).cells(), old(self).dims(), dimensions),
            final(self).cursor_view() == old(self).cursor_view(),
            final(self).saved_cursor_view() == old(self).saved_cursor_view(),
    {
        let template = self.cursor.template;
        self.cursor.template = Cell::default();
        let ghost c0 = self.cells();
        let ghost d0 = self.dims();
        if self.dimensions.lines < dimensions.lines {
            self.grow_lines_to(dimensions.lines);
        } else if self.dimensions.lines > dimensions.lines {
            self.shrink_lines_to(dimensions.lines);
        }
        let ghost c1 = self.cells();
        if self.dimensions.columns < dimensions.columns {
            self.grow_columns_to(dimensions.columns);
        } else if self.dimensions.columns > dimensions.columns {
            self.shrink_columns_to(dimensions.columns);
        }
        self.cursor.template = template;
        assert(self.cells() =~= spec_resized(c0, d0, dimensions)) by {
            assert forall|i: int| 0 <= i < dimensions.lines implies #[trigger] self.cells()[i]
                =~= spec_resized(c0, d0, dimensions)[i] by {
                assert forall|j: int| 0 <= j < dimensions.columns implies self.cells()[i][j]
                    == spec_resized(c0, d0, dimensions)[i][j] by {}
            }
        }
    }

    /// Adds lines of default cells at the bottom up to `target` lines.
    fn grow_lines_to(&mut self, target: usize)
        requires
            old(self).wf(),
            old(self).dims().lines < target,
        ensures
            final(self).wf(),
            final(self).dims() == (Dimensions { lines: target, ..old(self).dims() }),
            final(self).cursor_view() == old(self).cursor_view(),
            final(self).saved_cursor_view() == old(self).saved_cursor_view(),
            final(self).cells() == Seq::new(
                target as nat,
                |i: int|
                    if i < old(self).dims().lines {
                        old(self).cells()[i]
                    } else {
                        Seq::new(old(self).dims().columns as nat, |j: int| spec_default_cell())
                    },
            ),
    {
        let ghost want = Seq::new(
            target as nat,
            |i: int|
                if i < self.dims().lines {
                    self.cells()[i]
                } else {
                    Seq::new(self.dims().columns as nat, |j: int| spec_default_cell())
                },
        );
        let columns = self.dimensions.columns;
        let mut i: usize = self.rows.len();
        assert(rows_view(self.rows@) =~= want.take(i as int));
        while i < target
            invariant
                self.dims() == old(self).dims(),
                columns == self.dims().columns,
                self.cursor == old(self).cursor,
                self.saved_cursor == old(self).saved_cursor,
                old(self).dims().lines <= i <= target,
                self.rows@.len() == i,
                want.len() == target,
                forall|k: int|
                    old(self).dims().lines <= k < target ==> #[trigger] want[k] == Seq::new(
                        columns as nat,
                        |j: int| spec_default_cell(),
                    ),
                rows_view(self.rows@) =~= want.take(i as int),
            decreases target - i,
        {
            let row = Row::new(columns);
            let ghost prev = rows_view(self.rows@);
            let ghost rv = row.0@;
            self.rows.push(row);
            assert(rows_view(self.rows@) =~= prev.push(rv));
            i = i + 1;
        }
        self.dimensions.lines = target;
        assert(want.take(target as int) =~= want);
    }

    /// Drops the lines from `target` on.
    fn shrink_lines_to(&mut self, target: usize)
        requires
            old(self).wf(),
            target < old(self).dims().lines,
        ensures
            final(self).wf(),
            final(self).dims() == (Dimensions { lines: target, ..old(self).dims() }),
            final(self).cursor_view() == old(self).cursor_view(),
            final(self).saved_cursor_view() == old(self).saved_cursor_view(),
            final(self).cells() == old(self).cells().take(target as int),
    {
        let ghost before = self.cells();
        self.rows.truncate(target);
        self.dimensions.lines = target;
        assert(self.cells() =~= before.take(target as int));
    }

    /// Widens every line to `target` cells with default cells.
    fn grow_columns_to(&mut self, target: usize)
        requires
            old(self).wf(),
            old(self).dims().columns < target,
            old(self).cursor_view().template == spec_default_cell(),
        ensures
            final(self).wf(),
            final(self).dims() == (Dimensions { columns: target, ..old(self).dims() }),
            final(self).cursor_view() == old(self).cursor_view(),
            final(self).saved_cursor_view() == old(self).saved_cursor_view(),
            final(self).cells() == Seq::new(
                old(self).dims().lines as nat,
                |i: int|
                    Seq::new(
                        target as nat,
                        |j: int|
                            if j < old(self).dims().columns {
                                old(self).cells()[i][j]
                            } else {
                                spec_default_cell()
                            },
                    ),
            ),
    {
        let ghost before = self.cells();
        let ghost want = Seq::new(
            self.dims().lines as nat,
            |i: int|
                Seq::new(
                    target as nat,
                    |j: int|
                        if j < self.dims().columns {
                            before[i][j]
                        } else {
                            spec_default_cell()
                        },
                ),
        );
        let mut cell = Cell::default();
        cell.apply_template(&self.cursor.template);
        let columns = self.dimensions.columns;
        let lines = self.rows.len();
        let mut i: usize = 0;
        while i < lines
            invariant
                self.dims() == old(self).dims(),
                self.cursor == old(self).cursor,
                self.saved_cursor == old(self).saved_cursor,
                columns == self.dims().columns,
                lines == self.dims().lines,
                self.rows@.len() == lines,
                cell == spec_default_cell(),
                columns < target,
                i <= lines,
                before.len() == lines,
                want == Seq::new(
                    lines as nat,
                    |k: int|
                        Seq::new(
                            target as nat,
                            |j: int|
                                if j < columns {
                                    before[k][j]
                                } else {
                                    spec_default_cell()
                                },
                        ),
                ),
                forall|k: int| 0 <= k < lines ==> (#[trigger] before[k]).len() == columns,
                forall|k: int| 0 <= k < i ==> #[trigger] rows_view(self.rows@)[k] == want[k],
                forall|k: int|
                    i <= k < lines ==> #[trigger] rows_view(self.rows@)[k] == before[k],
            decreases lines - i,
        {
            assert(rows_view(self.rows@)[i as int] == before[i as int]);
            assert(self.rows@[i as int].0@ == before[i as int]);
            let mut cells: Vec<Cell> = Vec::new();
            let mut j: usize = 0;
            while j < target
                invariant
                    j <= target,
                    columns < target,
                    i < lines,
                    self.rows@.len() == lines,
                    self.rows@[i as int].0@ == before[i as int],
                    before[i as int].len() == columns,
                    cell == spec_default_cell(),
                    cells@ =~= want[i as int].take(j as int),
                    want[i as int].len() == target,
                    forall|m: int|
                        0 <= m < target ==> #[trigger] want[i as int][m] == (if m < columns {
                            before[i as int][m]
                        } else {
                            spec_default_cell()
                        }),
                decreases target - j,
            {
                if j < columns {
                    cells.push(self.rows[i].0[j]);
                } else {
                    cells.push(cell);
                }
                j = j + 1;
            }
            assert(want[i as int].take(target as int) =~= want[i as int]);
            let ghost cv = cells@;
            let ghost prev = rows_view(self.rows@);
            self.rows.set(i, Row(cells));
            assert(rows_view(self.rows@) =~= prev.update(i as int, cv));
            i = i + 1;
        }
        self.dimensions.columns = target;
        assert(self.cells() =~= want);
    }

    /// Cuts every line to `target` cells.
    fn shrink_columns_to(&mut self, target: usize)
        requires
            old(self).wf(),
            target < old(self).dims().columns,
        ensures
            final(self).wf(),
            final(self).dims() == (Dimensions { columns: target, ..old(self).dims() }),
            final(self).cursor_view() == old(self).cursor_view(),
            final(self).saved_cursor_view() == old(self).saved_cursor_view(),
            final(self).cells() == Seq::new(
                old(self).dims().lines as nat,
                |i: int| old(self).cells()[i].take(target as int),
            ),
    {
        let ghost before = self.cells();
        let ghost want = Seq::new(
            self.dims().lines as nat,
            |i: int| before[i].take(target as int),
        );
        let lines = self.rows.len();
        let mut i: usize = 0;
        while i < lines
            invariant
                self.dims() == old(self).dims(),
                self.cursor == old(self).cursor,
                self.saved_cursor == old(self).saved_cursor,
                lines == self.dims().lines,
                self.rows@.len() == lines,
                target < self.dims().columns,
                i <= lines,
                before.len() == lines,
                want == Seq::new(lines as nat, |k: int| before[k].take(target as int)),
                forall|k: int| 0 <= k < lines ==> (#[trigger] before[k]).len() == self.dims().columns,
                forall|k: int| 0 <= k < i ==> #[trigger] rows_view(self.rows@)[k] == want[k],
                forall|k: int|
                    i <= k < lines ==> #[trigger] rows_view(self.rows@)[k] == before[k],
            decreases lines - i,
        {
            assert(rows_view(self.rows@)[i as int] == before[i as int]);
            assert(self.rows@[i as int].0@ == before[i as int]);
            let mut cells: Vec<Cell> = Vec::new();
            let mut j: usize = 0;
            while j < target
                invariant
                    j <= target,
                    i < lines,
                    self.rows@.len() == lines,
                    self.rows@[i as int].0@ == before[i as int],
                    target < before[i as int].len(),
                    cells@ =~= before[i as int].take(j as int),
                decreases target - j,
            {
                cells.push(self.rows[i].0[j]);
                j = j + 1;
            }
            assert(cells@ =~= want[i as int]);
            let ghost cv = cells@;
            let ghost prev = rows_view(self.rows@);
            self.rows.set(i, Row(cells));
            assert(rows_view(self.rows@) =~= prev.update(i as int, cv));
            i = i + 1;
        }
        self.dimensions.columns = target;
        assert(self.cells() =~= want);
    }
}

} // verus!
