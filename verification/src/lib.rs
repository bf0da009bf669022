//! Small verified components: a line matcher that finds the lines of a text
//! containing a literal pattern, a pair of numeric cells updated under a
//! runtime-checked exclusive-access window, rectangle geometry, and a
//! filter-and-square pipeline.

pub mod cells;
pub mod matcher;
pub mod pipeline;
pub mod rect;

use vstd::prelude::*;

verus! {

/// The errors the library's operations can report.
///
/// `IOError` is reserved for a caller whose input source (such as a file)
/// could not be read; the in-memory operations themselves never produce it.
/// `BorrowConflict` reports that an exclusive-access window on a cell pair
/// was requested while another one was already open.
#[derive(Clone, Copy, Debug, PartialEq, Eq, Structural)]
pub enum OpError {
    IOError,
    BorrowConflict,
}

impl OpError {
    /// A short description of the error, one fixed text per variant.
    pub fn message(self) -> (m: &'static str)
        ensures
            self is IOError ==> m@ == "IOError: the input could not be read"@,
            self is BorrowConflict ==> m@ == "BorrowConflict: an exclusive update is already in progress"@,
    {
        match self {
            OpError::IOError => "IOError: the input could not be read",
            OpError::BorrowConflict => "BorrowConflict: an exclusive update is already in progress",
        }
    }
}

} // verus!
