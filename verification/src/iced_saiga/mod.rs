//! Mouse reporting and subscription types of the widget front end.

pub mod backend;
pub mod subscription;
