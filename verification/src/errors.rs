//! The error taxonomy of the engine and its propagation policy:
//! per-entry failures degrade the result (a skipped entry, a missing
//! preview, a per-file error event) while only operation-level
//! preconditions abort a whole request.  A stale request is a signal,
//! not a fault.

use vstd::prelude::*;
use vstd::string::StringExecFns;

verus! {

/// Everything a request can report.
#[derive(Clone, Copy, Debug, PartialEq, Eq, Structural)]
pub enum EngineError {
    /// A named source path does not exist.
    NotFound,
    /// The path a listing or paste was aimed at is not a directory.
    NotADirectory,
    /// The platform refused access.
    PermissionDenied,
    /// A generic read or write failure.
    IoError,
    /// A thumbnail codec failed; always recoverable to "no preview".
    DecodeError,
    /// Not a true error: a newer request superseded this one.
    StaleRequest,
    /// A mismatched or missing conflict response; aborts one file only.
    ConflictProtocolError,
}

impl EngineError {
    /// Whether this failure aborts the entire request.  Only
    /// operation-level preconditions do; everything else degrades to a
    /// skipped entry, a missing field or a per-file error event.
    pub fn aborts_operation(&self) -> (r: bool)
        ensures
            r == (*self == EngineError::NotFound || *self == EngineError::NotADirectory),
    {
        match self {
            EngineError::NotFound => true,
            EngineError::NotADirectory => true,
            _ => false,
        }
    }

    /// A display text for logs and error events.
    pub fn message(&self) -> (r: String)
        ensures
            match *self {
                EngineError::NotFound => r@ == "path does not exist"@,
                EngineError::NotADirectory => r@ == "path is not a directory"@,
                EngineError::PermissionDenied => r@ == "permission denied"@,
                EngineError::IoError => r@ == "read or write failed"@,
                EngineError::DecodeError => r@ == "preview could not be decoded"@,
                EngineError::StaleRequest => r@ == "superseded by a newer request"@,
                EngineError::ConflictProtocolError => r@ == "conflict response did not match"@,
            },
    {
        match self {
            EngineError::NotFound => String::from_str("path does not exist"),
            EngineError::NotADirectory => String::from_str("path is not a directory"),
            EngineError::PermissionDenied => String::from_str("permission denied"),
            EngineError::IoError => String::from_str("read or write failed"),
            EngineError::DecodeError => String::from_str("preview could not be decoded"),
            EngineError::StaleRequest => String::from_str("superseded by a newer request"),
            EngineError::ConflictProtocolError => String::from_str(
                "conflict response did not match",
            ),
        }
    }
}

} // verus!
