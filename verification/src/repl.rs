//! The read-eval-print loop, without the reading and the printing.
//!
//! `parser` reads a line, `engine` decides what to do with it and with
//! what the store answers, `hexdump` and `report` make the texts that are
//! shown.

pub mod engine;
pub mod errors;
pub mod hexdump;
pub mod parser;
pub mod report;
pub mod seek;
pub mod session;
pub mod words;

use vstd::prelude::*;

verus! {

/// How the store could be opened.
#[derive(Debug, Clone, Copy, PartialEq, Eq, Structural)]
pub enum FileMode {
    /// For reading and writing.
    RW,
    /// For reading only.
    RO,
    /// For writing only.
    WO,
}

impl FileMode {
    /// The two letters that stand for the mode.
    pub open spec fn letters(self) -> Seq<char> {
        match self {
            FileMode::RW => "RW"@,
            FileMode::RO => "RO"@,
            FileMode::WO => "WO"@,
        }
    }

    /// The two letters that stand for the mode.
    pub fn label(&self) -> (s: &'static str)
        ensures
            s@ == self.letters(),
    {
        match self {
            FileMode::RW => "RW",
            FileMode::RO => "RO",
            FileMode::WO => "WO",
        }
    }
}

} // verus!
