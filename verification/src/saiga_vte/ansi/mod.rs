pub mod handler;
pub mod c0;
pub mod processor;
pub mod executor;
