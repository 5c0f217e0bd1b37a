//! Error taxonomy: malformed input, interval conflicts, unknown ids, and
//! opaque storage failures are kept apart so callers can react to each.

use vstd::prelude::*;

verus! {

/// The error taxonomy of the library.
///
/// `Validation` marks malformed input (an inverted interval, an empty label,
/// a too-short search query, a resolution with missing fields). `Conflict`
/// marks an interval overlap. `NotFound` marks an unknown id. `Storage`
/// wraps a failure of the underlying database.
#[derive(Debug)]
pub enum AppError {
    Validation(String),
    Conflict(String),
    NotFound(String),
    Storage(String),
}

impl AppError {
    /// The human-readable message carried by the error.
    pub fn message(&self) -> (r: &String)
        ensures
            r@ == self.message_view(),
    {
        match self {
            AppError::Validation(m) => m,
            AppError::Conflict(m) => m,
            AppError::NotFound(m) => m,
            AppError::Storage(m) => m,
        }
    }

    /// The characters of the carried message.
    pub open spec fn message_view(&self) -> Seq<char> {
        match self {
            AppError::Validation(m) => m@,
            AppError::Conflict(m) => m@,
            AppError::NotFound(m) => m@,
            AppError::Storage(m) => m@,
        }
    }
}

pub type AppResult<T> = Result<T, AppError>;

} // verus!
