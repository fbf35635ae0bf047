pub mod commands;
mod fxmap;
pub mod guarantees;
pub mod hash;
pub mod input_suite;
pub mod internal;
pub mod operators;
pub mod sanity_suite;
pub mod transport;
pub mod types;
pub mod waiting;
