//! Interpreter core for a small assembly-style language over a random-access
//! machine: an unbounded integer register store, an ordered instruction
//! sequence with symbolic labels, and a fetch-decode-execute engine.
//!
//! - [`errors`] holds the interpretation-time error kinds.
//! - [`stmt`] holds the instruction values and labels.
//! - [`registers`] holds the mutable register store.
//! - [`program`] holds the instruction sequence and its label mapping.
//! - [`ram`] holds the execution engine.

pub mod errors;
pub mod program;
pub mod ram;
pub mod registers;
pub mod stmt;
