//! The ways in which a caller's input can be refused.

use vstd::prelude::*;

verus! {

/// Why a commitment or an opening could not be made.
#[derive(Debug, Clone, Copy, PartialEq, Eq, Structural)]
pub enum PedersenError {
    /// The value vector does not have one value for each generator of the scheme.
    LengthMismatch,
    /// An index names no entry of the value vector.
    IndexOutOfBounds,
}

impl PedersenError {
    /// A short description of the refusal.
    pub fn message(&self) -> (text: &'static str)
        ensures
            text@ == match *self {
                PedersenError::LengthMismatch => "Vector Length Mismatch"@,
                PedersenError::IndexOutOfBounds => "Index out of bounds!"@,
            },
    {
        match self {
            PedersenError::LengthMismatch => "Vector Length Mismatch",
            PedersenError::IndexOutOfBounds => "Index out of bounds!",
        }
    }
}

} // verus!
