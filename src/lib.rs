//! A reversible stack machine: instructions run one at a time against a stack of
//! `i32` values, and every executed instruction can be undone, in reverse order,
//! restoring the exact earlier state.
pub mod errors;
pub mod interpreter;
pub mod text;
pub mod command;
pub mod session;
