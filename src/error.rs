use vstd::prelude::*;

verus! {

/// Why building or querying the tables failed.
#[derive(Clone, Copy, Debug, PartialEq, Eq, Structural)]
pub enum TableError {
    /// A transition names a source or target state that does not exist yet.
    InvalidState,
    /// A transition's range has `min > max`.
    InvalidRange,
    /// A transition's exception is not strictly inside its range.
    InvalidException,
    /// A state identifier is not below the number of states created.
    IndexError,
}

} // verus!
