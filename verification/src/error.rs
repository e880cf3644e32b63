//! What can go wrong while a run is read.

use vstd::prelude::*;

verus! {

/// Why a run stopped reading its input.
#[derive(Debug, PartialEq, Eq)]
pub enum AppError {
    /// The input could not be read.
    IOError,
    /// The line that should hold a robot's commands was missing.
    InvalidDirection(String),
}

} // verus!
