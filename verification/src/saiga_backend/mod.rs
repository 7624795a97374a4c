//! The terminal's state: the grid of cells and the cursor.

pub mod event;
pub mod grid;
pub mod terminal;
