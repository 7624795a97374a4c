//! Front-end settings that do not depend on a windowing or drawing library.

pub mod font;
pub mod settings;
pub mod keyboard;
pub mod theme;
