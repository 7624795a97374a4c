use saiga::saiga_backend::event::{Event, EventListener};
use saiga::saiga_backend::grid::cell::Cell;
use saiga::saiga_backend::grid::{Dimensions, Grid, Position};
use saiga::saiga_backend::terminal::Terminal;
use saiga::saiga_vte::ansi::handler::{Color, Direction, NamedColor};

#[test]
fn initialize() {
    let dimensions = Dimensions { lines: 42, columns: 37 };
    let grid = Grid::with_dimensions(dimensions);
    assert_eq!(grid.height(), dimensions.lines);
    for line in 0..grid.height() {
        let row = grid.row(line);
        assert_eq!(row.len(), dimensions.columns);
        for cell in row.as_slice() {
            assert_eq!(cell, &Cell::default());
        }
    }
}

#[test]
fn dimensions_default() {
    let d = Dimensions::default();
    assert_eq!((d.lines, d.columns), (20, 40));
}

#[test]
fn resize_keeps_what_fits() {
    let mut grid = Grid::with_dimensions(Dimensions { lines: 2, columns: 3 });
    let mut x = Cell::default();
    x.char = Some('x');
    grid.set_cell(Position { line: 1, column: 2 }, x);
    grid.resize(Dimensions { lines: 4, columns: 5 });
    assert_eq!((grid.height(), grid.width()), (4, 5));
    assert_eq!(grid.cell(Position { line: 1, column: 2 }).char, Some('x'));
    assert_eq!(*grid.cell(Position { line: 3, column: 4 }), Cell::default());
    grid.resize(Dimensions { lines: 2, columns: 2 });
    assert_eq!((grid.height(), grid.width()), (2, 2));
    assert_eq!(grid.row(1).len(), 2);
    grid.resize(Dimensions { lines: 2, columns: 3 });
    assert_eq!(grid.cell(Position { line: 1, column: 2 }).char, None);
}

#[test]
fn iterator_walks_line_by_line() {
    let mut grid = Grid::with_dimensions(Dimensions { lines: 2, columns: 3 });
    let mut y = Cell::default();
    y.char = Some('y');
    grid.set_cell(Position { line: 1, column: 0 }, y);
    let mut it = grid.iter();
    let mut seen = Vec::new();
    while let Some(c) = it.next() {
        seen.push((c.position.line, c.position.column, c.value.char));
    }
    assert_eq!(
        seen,
        vec![(0, 0, None), (0, 1, None), (0, 2, None), (1, 0, Some('y')), (1, 1, None), (1, 2, None)]
    );
    let single = Grid::with_dimensions(Dimensions { lines: 1, columns: 5 });
    assert!(single.iter().next().is_none());
}

#[test]
fn cell_templates() {
    let mut cell = Cell::default();
    let mut template = Cell::default();
    template.bold = true;
    template.foreground = Color::Named(NamedColor::Red);
    template.char = Some('q');
    cell.apply_template(&template);
    assert!(cell.bold);
    assert_eq!(cell.foreground, Color::Named(NamedColor::Red));
    assert_eq!(cell.char, None);
    cell.reset_template();
    assert_eq!(cell, Cell::default());
}

struct Recorder {
    events: Vec<String>,
}

impl EventListener for Recorder {
    fn on_event(&mut self, event: Event) {
        if let Event::SetTitle(t) = event {
            self.events.push(t);
        }
    }
}

#[test]
fn terminal_cursor_and_chars() {
    let grid = Grid::with_dimensions(Dimensions { lines: 3, columns: 4 });
    let mut term = Terminal::new(grid, Recorder { events: Vec::new() });
    term.set_cursor_position(Position { line: 1, column: 1 });
    term.put_char('a');
    assert_eq!(term.grid.cell(Position { line: 1, column: 1 }).char, Some('a'));
    term.move_cursor(Direction::Right, 5, false);
    assert_eq!(term.grid.cursor().position, Position { line: 1, column: 6 });
    assert!(term.try_put_char('b'));
    term.move_cursor(Direction::Down, 9, true);
    assert_eq!(term.grid.cursor().position, Position { line: 0, column: 0 });
    term.backspace();
    assert_eq!(term.grid.cursor().position, Position { line: 0, column: 0 });
    term.set_cursor_column(3);
    term.backspace();
    assert_eq!(term.grid.cursor().position.column, 2);
    term.put_char('\u{7}');
    term.set_title("hi");
    assert_eq!(term.event_listener.events.clone(), vec!["hi".to_string()]);
    term.set_cursor_position(Position { line: 7, column: 0 });
    assert!(!term.try_put_char('c'));
    term.restore_cursor_position();
    assert_eq!(term.grid.cursor().position, Position { line: 7, column: 0 });
}

#[test]
fn grow_then_shrink_restores_the_grid() {
    let dimensions = Dimensions { lines: 2, columns: 3 };
    let mut grid = Grid::with_dimensions(dimensions);
    for (line, column, c) in [(0, 0, 'a'), (1, 2, 'b'), (0, 2, 'c')] {
        let mut cell = Cell::default();
        cell.char = Some(c);
        grid.set_cell(Position { line, column }, cell);
    }
    let before: Vec<Vec<Cell>> = (0..2).map(|l| grid.row(l).as_slice().to_vec()).collect();
    grid.resize(Dimensions { lines: 5, columns: 7 });
    grid.resize(dimensions);
    let after: Vec<Vec<Cell>> = (0..2).map(|l| grid.row(l).as_slice().to_vec()).collect();
    assert_eq!(after, before);
}
