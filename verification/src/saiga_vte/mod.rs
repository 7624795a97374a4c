//! Parser for virtual terminal byte streams (Paul Williams' DEC ANSI state machine).

pub mod table;
pub mod param;
pub mod utf8;
pub mod ansi;
