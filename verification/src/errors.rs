//! The run-level error taxonomy.  Every failure is fatal to the whole
//! benchmark run: nothing is retried and nothing is caught-and-continued.
//!
//! Each variant carries enough context to diagnose the failure without
//! reproducing it: the endpoint or URL concerned, the locator a wait was
//! watching, the field an extraction failed on, or the mismatched check
//! with the whole offending product.

use vstd::prelude::*;
use crate::extract::ExtractError;
use crate::poll::TimeoutError;
use crate::validate::ValidationError;

verus! {

/// Why the benchmark run aborted.
#[derive(Clone, Debug)]
pub enum RunError {
    /// The protocol session could not be established or maintained.
    Connection { endpoint: String },
    /// The target page could not be opened.
    Navigation { url: String },
    /// A condition-poller wait ran out of time.
    Timeout(TimeoutError),
    /// The rendered document could not supply the product record.
    Extraction(ExtractError),
    /// The extracted product did not match the fixture's expected values.
    Validation(ValidationError),
}

impl RunError {
    /// The category of this failure, for the abort message.
    pub fn label(&self) -> (s: String)
        ensures
            s@ == match self {
                RunError::Connection { .. } => "connection error"@,
                RunError::Navigation { .. } => "navigation error"@,
                RunError::Timeout(..) => "timeout"@,
                RunError::Extraction(..) => "extraction error"@,
                RunError::Validation(..) => "validation error"@,
            },
    {
        match self {
            RunError::Connection { .. } => "connection error".to_owned(),
            RunError::Navigation { .. } => "navigation error".to_owned(),
            RunError::Timeout(..) => "timeout".to_owned(),
            RunError::Extraction(..) => "extraction error".to_owned(),
            RunError::Validation(..) => "validation error".to_owned(),
        }
    }
}

} // verus!
