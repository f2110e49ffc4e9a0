//! Severity grades of the memory subsystem's failures.

use vstd::prelude::*;

verus! {

/// How grave a memory-subsystem failure is.
#[derive(Debug, Clone, Copy, PartialEq, Eq, Structural)]
pub enum ErrorSeverity {
    /// Worth noting only.
    Info,
    /// Needs attention.
    Warning,
    /// An operation failed.
    Error,
    /// The subsystem cannot make progress.
    Critical,
}

/// The label of each severity grade.
pub open spec fn spec_severity_label(s: ErrorSeverity) -> Seq<char> {
    match s {
        ErrorSeverity::Info => "INFO"@,
        ErrorSeverity::Warning => "WARNING"@,
        ErrorSeverity::Error => "ERROR"@,
        ErrorSeverity::Critical => "CRITICAL"@,
    }
}

impl ErrorSeverity {
    /// The grade's label, upper case.
    pub fn to_string(&self) -> (r: String)
        ensures
            r@ == spec_severity_label(*self),
    {
        match self {
            ErrorSeverity::Info => String::from_str("INFO"),
            ErrorSeverity::Warning => String::from_str("WARNING"),
            ErrorSeverity::Error => String::from_str("ERROR"),
            ErrorSeverity::Critical => String::from_str("CRITICAL"),
        }
    }
}

} // verus!
