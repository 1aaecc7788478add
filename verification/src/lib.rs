//! An in-memory key/value cache whose keys may carry an expiry moment and whose
//! values are integers, strings, booleans, sets or lists.

pub mod commands_proto;
pub mod consts;
pub mod dash_collections;
pub mod value_structs;
pub mod commands;
pub mod main_map_impl;
pub mod example_client;
pub mod laws;
