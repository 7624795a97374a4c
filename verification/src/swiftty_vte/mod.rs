//! A byte-at-a-time escape-sequence parser with fixed-size parameter storage.

pub mod param;
pub mod intermediate;
pub mod executor;
pub mod osc;
pub mod parser;
pub mod ansi;
