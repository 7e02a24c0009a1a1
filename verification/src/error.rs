//! Error types for fixture assembly.

use vstd::prelude::*;

verus! {

/// A platform I/O failure, carried as the raw OS error code when one exists.
#[derive(Debug, Clone, PartialEq, Eq)]
pub struct IoError {
    /// The raw OS error code of the underlying failure, if the platform gave one.
    pub raw_code: Option<i32>,
}

/// A failure while assembling a fixture.
///
/// Pattern compilation failures name the offending pattern; every other
/// failure chains the underlying I/O error, whether it arose while setting
/// up or running the traversal or while creating directories and copying
/// file contents.
#[derive(Debug, Clone, PartialEq, Eq)]
pub enum FixtureError {
    /// A glob pattern did not compile; `index` is its position in the
    /// pattern list handed to the copy.
    Pattern { index: usize },
    /// An I/O failure, chained as the cause of the fixture failure.
    Io { cause: IoError },
}

} // verus!
