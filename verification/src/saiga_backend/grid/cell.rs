use vstd::prelude::*;

use crate::saiga_vte::ansi::handler::{Color, NamedColor};

verus! {

#[derive(Clone, Copy, Debug, Eq, PartialEq, Structural)]
pub enum UnderlineType {
    Regular,
    Double,
    Dotted,
    Dashed,
    Curl,
}

/// One cell of the grid: its character and how it is drawn.
#[derive(Clone, Copy, Debug, Eq, PartialEq, Structural)]
pub struct Cell {
    pub char: Option<char>,
    pub background: Color,
    pub foreground: Color,
    pub italic: bool,
    pub bold: bool,
    pub dim: bool,
    pub reverse: bool,
    pub underline_type: Option<UnderlineType>,
    pub underline_color: Color,
}

/// An empty cell in the default colors, without styling.
pub open spec fn spec_default_cell() -> Cell {
    Cell {
        char: None,
        background: Color::Named(NamedColor::Background),
        foreground: Color::Named(NamedColor::Foreground),
        italic: false,
        bold: false,
        dim: false,
        reverse: false,
        underline_type: None,
        underline_color: Color::Named(NamedColor::Foreground),
    }
}

/// `cell` with the colors, italic and bold of `template`.
pub open spec fn spec_apply_template(cell: Cell, template: Cell) -> Cell {
    Cell {
        background: template.background,
        foreground: template.foreground,
        italic: template.italic,
        bold: template.bold,
        ..cell
    }
}

impl Default for Cell {
    fn default() -> (r: Cell)
        ensures
            r == spec_default_cell(),
    {
        Cell {
            char: None,
            background: Color::Named(NamedColor::Background),
            foreground: Color::Named(NamedColor::Foreground),
            italic: false,
            dim: false,
            bold: false,
            underline_type: None,
            underline_color: Color::Named(NamedColor::Foreground),
            reverse: false,
        }
    }
}

impl Cell {
    /// Takes the colors, italic and bold of `template`.
    pub fn apply_template(&mut self, template: &Cell)
        ensures
            *final(self) == spec_apply_template(*old(self), *template),
    {
        self.background = template.background;
        self.foreground = template.foreground;
        self.italic = template.italic;
        self.bold = template.bold;
    }

    /// Takes the colors, italic and bold of the default cell.
    pub fn reset_template(&mut self)
        ensures
            *final(self) == spec_apply_template(*old(self), spec_default_cell()),
    {
        self.apply_template(&Cell::default());
    }
}

} // verus!
