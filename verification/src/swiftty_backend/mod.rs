//! A terminal backend that feeds bytes to the byte-at-a-time parser.

pub mod action;
pub mod backend;
pub mod utf;
pub mod ansi;
pub mod processor;
