//! Counting control-flow terminators in a small intermediate representation,
//! and a digit-order check on integers.

pub mod digits;
pub mod laws;
pub mod program;
pub mod terminators;
