//! Reading the numbers of assembly operands.
pub mod errors;
pub mod parse;
