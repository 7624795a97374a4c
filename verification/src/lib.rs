//! Terminal emulation core: escape-sequence parsing, parameter collection,
//! UTF-8 assembly, keyboard input encoding and the character grid.

pub mod saiga_vte;
pub mod swiftty_vte;
pub mod swiftty_keymaster;
pub mod swiftty_backend;
pub mod saiga_input;
pub mod saiga_backend;
pub mod saiga_frontend;
pub mod iced_saiga;
