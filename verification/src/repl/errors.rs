//! Why a line was not understood.

use vstd::prelude::*;

verus! {

/// The ways in which a command line can be wrong. None of them is fatal:
/// the session reports the error and asks for the next line.
#[derive(Debug, Clone, Copy, PartialEq, Eq, Structural)]
pub enum ParseError {
    /// A command that needs a position was given none.
    MissingSeekArgument,
    /// The position is in none of the accepted forms.
    InvalidSeekArgument,
    /// The position has the form of a number that cannot be read or held.
    InvalidDigitInSeekArgument,
    /// The count of a read is not a number that can be read or held.
    InvalidDigitInCountArgument,
    /// One of the bytes to write is not two hexadecimal digits.
    InvalidByteArgument,
    /// The line does not begin with a known command.
    UnrecognizedCommand,
}

impl ParseError {
    /// The sentence shown to the operator for this error.
    pub open spec fn text(self) -> Seq<char> {
        match self {
            ParseError::MissingSeekArgument => "Missing seek argument."@,
            ParseError::InvalidSeekArgument => "Invalid seek argument."@,
            ParseError::InvalidDigitInSeekArgument => "Invalid digit in seek argument."@,
            ParseError::InvalidDigitInCountArgument => "Invalid digit in count argument."@,
            ParseError::InvalidByteArgument => "Invalid byte argument."@,
            ParseError::UnrecognizedCommand => "Unrecognized command."@,
        }
    }

    /// The sentence shown to the operator for this error.
    pub fn message(&self) -> (s: &'static str)
        ensures
            s@ == self.text(),
    {
        match self {
            ParseError::MissingSeekArgument => "Missing seek argument.",
            ParseError::InvalidSeekArgument => "Invalid seek argument.",
            ParseError::InvalidDigitInSeekArgument => "Invalid digit in seek argument.",
            ParseError::InvalidDigitInCountArgument => "Invalid digit in count argument.",
            ParseError::InvalidByteArgument => "Invalid byte argument.",
            ParseError::UnrecognizedCommand => "Unrecognized command.",
        }
    }
}

} // verus!
