//! Errors and plain messages returned by the library.
use vstd::prelude::*;

verus! {

/// Errors of the library's operations.
#[derive(PartialEq, Eq, Structural, Clone, Copy, Debug)]
pub enum AppError {
    /// The caller may not use this operation.
    Forbidden,
    /// An internal step failed.
    Internal,
}

/// A one-line answer to a request.
pub struct ApiMessage {
    pub message: String,
}

} // verus!
