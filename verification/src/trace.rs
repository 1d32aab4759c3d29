//! Severity levels of trace records.

use vstd::prelude::*;

verus! {

/// Severity of a trace record.
#[derive(Debug, Clone, Copy, PartialEq, Eq, Structural)]
pub enum TraceLevel {
    /// Finest detail.
    Trace,
    /// Debugging detail.
    Debug,
    /// Normal operation.
    Info,
    /// Something unexpected.
    Warn,
    /// A failure.
    Error,
}

} // verus!
