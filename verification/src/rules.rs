//! The decisions that the orchestration takes on what a repository returned.

use vstd::prelude::*;
use crate::error::UseCaseError;

verus! {

/// What the result of an update means for an operation that needs the row:
/// the row, or `NotFound` where the update matched none.
pub fn found<T>(row: Option<T>) -> (r: Result<T, UseCaseError>)
    ensures
        r == match row {
            Some(value) => Ok::<T, UseCaseError>(value),
            None => Err(UseCaseError::NotFound),
        },
{
    match row {
        Some(value) => Ok(value),
        None => Err(UseCaseError::NotFound),
    }
}

/// Whether a delete that removed `count` rows calls for the removal of the
/// associations of the row: only where a row went.
pub fn cascades(count: u64) -> (needed: bool)
    ensures
        needed == (count > 0),
{
    count > 0
}

} // verus!
