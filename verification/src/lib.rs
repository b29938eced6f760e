//! A deterministic single-tape Turing machine simulator with a bounded tape,
//! a last-write-wins transition table, and an undo history that makes every
//! committed forward step exactly reversible.
//!
//! The simulator lives in [`tmachine`]; its mathematical model (tape, cursor,
//! control state, table and undo history as ghost values) lives in [`model`];
//! the laws the simulator obeys (forward/backward inversion, halt and stuck
//! idempotence, table overwrite) are proved in [`laws`].

pub mod laws;
pub mod model;
pub mod tmachine;
