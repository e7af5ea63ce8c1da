//! The ways in which an operation on the list can fail.
use vstd::prelude::*;

verus! {

/// A submission that is rejected before anything is changed.
#[derive(Debug, Clone, Copy, PartialEq, Eq, Structural)]
pub enum ValidationError {
    /// The requested position lies outside `1..=N+1`.
    PositionOutOfRange,
    /// The video link was rejected by the URL validator.
    InvalidVideoUrl,
}

/// A failure of the storage itself.
#[derive(Debug, Clone, Copy, PartialEq, Eq, Structural)]
pub enum StorageError {
    /// No surrogate id is left for a new row.
    IdsExhausted,
    /// A position would leave the range of its column.
    PositionOverflow,
}

/// Every failure that an operation on the list reports.
#[derive(Debug, Clone, Copy, PartialEq, Eq, Structural)]
pub enum CoreError {
    Validation(ValidationError),
    /// A uniqueness constraint rejected a write.
    Conflict,
    Storage(StorageError),
}

} // verus!
