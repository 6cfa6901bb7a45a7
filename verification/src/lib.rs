//! A verified interpreter for a tape-based, bracket-looped esoteric
//! language: a fixed-size tape of signed 8-bit cells, a movable data
//! pointer, eight single-character instructions, and `[...]` loops driven
//! by the current cell's value.
//!
//! The execution engine is specified against a small-step semantics
//! (`semantics::step` / `semantics::run`): every outcome of `execute` is
//! proved to be the outcome that the semantics assigns to the starting
//! configuration.

pub mod errors;
pub mod interpreter;
pub mod io_buffer;
pub mod laws;
pub mod semantics;
