//! The per-file error taxonomy. Every failure is fatal for the file it
//! concerns and is reported with its context; nothing is retried or masked.

use vstd::prelude::*;

verus! {

/// What went wrong while processing one file.
///
/// Each variant carries a human-readable context string (file path, stage).
#[derive(Clone, Debug, PartialEq, Eq)]
pub enum ScanError {
    /// The audio could not be decoded (unreadable, corrupt or unsupported).
    DecodeError(String),
    /// The loudness measurement failed (degenerate input).
    MeasurementError(String),
    /// A non-finite loudness or peak value reached the gain calculator.
    NumericError(String),
    /// A malformed textual loudness value was handed to a parser.
    FormatError(String),
    /// The external metadata rewriter failed or exited abnormally.
    RewriteError(String),
    /// The atomic-replace step failed.
    IoError(String),
}

impl ScanError {
    /// The context string carried by the error.
    pub fn message(&self) -> (m: &String)
        ensures
            m@ == self.spec_message(),
    {
        match self {
            ScanError::DecodeError(m) => m,
            ScanError::MeasurementError(m) => m,
            ScanError::NumericError(m) => m,
            ScanError::FormatError(m) => m,
            ScanError::RewriteError(m) => m,
            ScanError::IoError(m) => m,
        }
    }

    /// The context string, at the specification level.
    pub open spec fn spec_message(&self) -> Seq<char> {
        match self {
            ScanError::DecodeError(m) => m@,
            ScanError::MeasurementError(m) => m@,
            ScanError::NumericError(m) => m@,
            ScanError::FormatError(m) => m@,
            ScanError::RewriteError(m) => m@,
            ScanError::IoError(m) => m@,
        }
    }
}

} // verus!
