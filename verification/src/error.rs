//! Failures of the storage engine and of the orchestration built on it.

use vstd::prelude::*;

verus! {

/// Why a storage engine could not complete an operation.
#[derive(Debug, PartialEq, Eq)]
pub enum StorageError {
    /// The engine is unreachable or rejected the statement.
    Failure(String),
    /// The statement would break a key or uniqueness constraint.
    Constraint(String),
    /// The engine rejected an insert because the table has no key left to
    /// give to a new row.
    Exhausted,
}

/// Why an orchestrated operation was abandoned. In every case the unit of
/// work it ran in was dropped without a commit.
#[derive(Debug, PartialEq, Eq)]
pub enum UseCaseError {
    /// The row that the operation addresses does not exist.
    NotFound,
    /// A repository call, `begin` or `commit` failed; the engine's error is
    /// handed on unchanged.
    Storage(StorageError),
}

impl StorageError {
    /// The engine's own description of the failure, where it gave one.
    pub fn message(&self) -> (text: Option<&String>)
        ensures
            text == match *self {
                StorageError::Failure(m) => Some(&m),
                StorageError::Constraint(m) => Some(&m),
                StorageError::Exhausted => None::<&String>,
            },
    {
        match self {
            StorageError::Failure(m) => Some(m),
            StorageError::Constraint(m) => Some(m),
            StorageError::Exhausted => None,
        }
    }
}

/// Hands a repository result on to the caller of an orchestrated operation:
/// the value as it is, the engine's error wrapped as `UseCaseError::Storage`.
pub fn lift<T>(result: Result<T, StorageError>) -> (lifted: Result<T, UseCaseError>)
    ensures
        lifted == match result {
            Ok(value) => Ok::<T, UseCaseError>(value),
            Err(e) => Err(UseCaseError::Storage(e)),
        },
{
    match result {
        Ok(value) => Ok(value),
        Err(e) => Err(UseCaseError::Storage(e)),
    }
}

} // verus!
