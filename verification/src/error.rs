//! Errors produced by the library's verified decisions.
use vstd::prelude::*;

verus! {

/// An error reported to the user, with its human-readable message.
#[derive(Debug, Clone, PartialEq, Eq)]
pub enum CrateError {
    /// A removable-device operation failed.
    Device(String),
    /// The requested operation does not apply to the current state.
    InvalidOperation(String),
    /// A file could not be imported.
    Import(String),
    /// A file that was expected on disk is missing.
    FileNotFound(String),
    /// Audio analysis could not run or was cancelled.
    Analysis(String),
}

impl CrateError {
    /// The human-readable message carried by the error.
    pub fn message(&self) -> (m: String)
        ensures
            m@ == (match self {
                CrateError::Device(s) => s@,
                CrateError::InvalidOperation(s) => s@,
                CrateError::Import(s) => s@,
                CrateError::FileNotFound(s) => s@,
                CrateError::Analysis(s) => s@,
            }),
    {
        match self {
            CrateError::Device(s) => s.clone(),
            CrateError::InvalidOperation(s) => s.clone(),
            CrateError::Import(s) => s.clone(),
            CrateError::FileNotFound(s) => s.clone(),
            CrateError::Analysis(s) => s.clone(),
        }
    }
}

} // verus!
