//! A small interpreter for a J-like array language.
//!
//! A line of text is scanned into words (numbers, primitive verbs and
//! parentheses), and the words are then reduced from right to left into a
//! single noun. Numbers are complex, and are held as the bit patterns of
//! their parts: what a number's bits say of its sign and class is decided
//! here, while arithmetic, reading and writing of numbers are left to
//! `num_complex`, `ryu` and the machine.

pub mod array;
pub mod atom;
pub mod double;
pub mod error;
pub mod eval;
pub mod lex;
pub mod markdown;
pub mod noun;
pub mod primitive;
pub mod scan;
pub mod text;
pub mod transcript;
pub mod verb;
pub mod word;

use vstd::prelude::*;

verus! {

/// Error rather than allocating an array larger than this, so
/// that the machine's memory is not exhausted.
pub const ARRAY_SIZE_LIMIT: usize = 100_000_000;

} // verus!
