//! The error surface of the removal pipeline.
//!
//! Internally each stage keeps its own failure type, so that "not found" and
//! "lookup failed" stay distinguishable for diagnostics; the orchestrator
//! collapses them into the small, closed set of caller-visible codes.

use vstd::prelude::*;
use crate::validation::ValidationFailure;

verus! {

/// The lookup mechanism itself failed (for example, a transport error).
/// Distinct from "not found", which is an ordinary resolution outcome.
#[derive(Clone, Copy, Debug, PartialEq, Eq, Structural)]
pub struct ResolveError;

/// The contextual evidence for validation could not be assembled.
#[derive(Clone, Copy, Debug, PartialEq, Eq, Structural)]
pub struct PackageError;

/// The local chain could not durably append the entry.
#[derive(Clone, Copy, Debug, PartialEq, Eq, Structural)]
pub struct CommitError;

/// The distributed store rejected the removal-metadata write.
#[derive(Clone, Copy, Debug, PartialEq, Eq, Structural)]
pub struct PropagationError;

/// The closed set of caller-visible outcomes of a removal request.
#[derive(Debug)]
pub enum RemovalError {
    /// The argument could not be parsed as an address.
    ArgumentDeserializationFailed,
    /// The entry was not found, or resolution or package building failed.
    Unspecified,
    /// The validator rejected the tombstone, with its reason.
    ValidationFailed(ValidationFailure),
    /// The chain commit failed; nothing was propagated.
    CommitFailed,
    /// The removal metadata could not be propagated; the chain commit stands.
    PropagationFailed,
}

/// The mathematical value of a caller-visible outcome.
#[verifier::ext_equal]
pub enum RemovalErrorV {
    ArgumentDeserializationFailed,
    Unspecified,
    ValidationFailed(Seq<char>),
    CommitFailed,
    PropagationFailed,
}

impl View for RemovalError {
    type V = RemovalErrorV;

    open spec fn view(&self) -> RemovalErrorV {
        match self {
            RemovalError::ArgumentDeserializationFailed => RemovalErrorV::ArgumentDeserializationFailed,
            RemovalError::Unspecified => RemovalErrorV::Unspecified,
            RemovalError::ValidationFailed(f) => RemovalErrorV::ValidationFailed(f.reason@),
            RemovalError::CommitFailed => RemovalErrorV::CommitFailed,
            RemovalError::PropagationFailed => RemovalErrorV::PropagationFailed,
        }
    }
}

} // verus!
