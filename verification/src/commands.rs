//! The commands the cache carries out on its map.

pub mod get;
pub mod int_operations;
pub mod list_operations;
pub mod set;
pub mod set_operations;
