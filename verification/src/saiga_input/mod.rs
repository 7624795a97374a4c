pub mod key;
pub mod physical;
pub mod function_keys;
pub mod encoder;
