//! The error taxonomy of the stash engine.

use vstd::prelude::*;

verus! {

/// Why a request could not be resolved to exactly one operation or entry.
#[derive(Debug, Clone)]
pub enum Ambiguity {
    /// Some of the given paths exist on disk and some do not; the existing
    /// and missing partitions are reported verbatim.
    MixedExistence { existing: Vec<String>, missing: Vec<String> },
    /// Several non-existent paths were given where a single identifier is
    /// required.
    MultipleMissing { missing: Vec<String> },
    /// An identifier resolved to more than one entry.
    MultipleMatches { identifier: String },
}

/// Every failure the engine reports.
#[derive(Debug, Clone)]
pub enum StashError {
    /// An identifier did not resolve to any entry.
    NotFound { identifier: String },
    /// The requested operation cannot be resolved unambiguously.
    AmbiguousOperation { ambiguity: Ambiguity },
    /// A destination path already exists and overwriting was not requested.
    Collision { path: String },
    /// An input was rejected before any mutation took place.
    InvalidInput { context: String },
    /// An underlying filesystem or store operation failed; reported by the
    /// shell that executes action plans.
    IOFailure { context: String },
    /// A persisted document failed to parse; reported by the shell that
    /// loads documents.
    InvalidFormat { context: String },
}

} // verus!
