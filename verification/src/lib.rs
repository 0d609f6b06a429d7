//! Fetch-and-cache pipeline for eprint papers: locator resolution, bibtex
//! metadata extraction, citation-style filename derivation, and the
//! cache-and-link decisions that make an invocation idempotent.
use vstd::prelude::*;

pub mod bytes;
pub mod consts;
pub mod locator;
pub mod metadata;
pub mod naming;
pub mod pipeline;

verus! {

/// The failures the pipeline can report.  `InvalidLocator` and
/// `UnsupportedHost` come from locator validation, `MetadataNotFound` and
/// `MalformedMetadata` from page extraction; the remaining variants mark
/// network and filesystem failures observed by the unverified shell.
#[derive(Debug, PartialEq, Eq, Structural, Clone, Copy)]
pub enum PipelineError {
    InvalidLocator,
    UnsupportedHost,
    FetchFailed,
    MetadataNotFound,
    MalformedMetadata,
    CacheUnavailable,
    LinkFailed,
}

impl PipelineError {
    /// A short description of the failure, for user-facing reporting.
    pub fn message(&self) -> (r: &'static str)
        ensures
            r@ == match *self {
                PipelineError::InvalidLocator => "invalid locator"@,
                PipelineError::UnsupportedHost => "unsupported host"@,
                PipelineError::FetchFailed => "fetch failed"@,
                PipelineError::MetadataNotFound => "metadata not found"@,
                PipelineError::MalformedMetadata => "malformed metadata"@,
                PipelineError::CacheUnavailable => "cache unavailable"@,
                PipelineError::LinkFailed => "link failed"@,
            },
    {
        match self {
            PipelineError::InvalidLocator => "invalid locator",
            PipelineError::UnsupportedHost => "unsupported host",
            PipelineError::FetchFailed => "fetch failed",
            PipelineError::MetadataNotFound => "metadata not found",
            PipelineError::MalformedMetadata => "malformed metadata",
            PipelineError::CacheUnavailable => "cache unavailable",
            PipelineError::LinkFailed => "link failed",
        }
    }
}

} // verus!
