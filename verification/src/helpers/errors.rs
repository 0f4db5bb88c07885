use vstd::prelude::*;

verus! {

/// Errors that can occur while reading an operand.
#[derive(Debug, Clone)]
pub enum ParseError {
    /// The text is not a number in any of the accepted notations.
    InvalidFormat(String),
    /// The number does not fit where it is going.
    ValueOutOfRange(String),
}

} // verus!
