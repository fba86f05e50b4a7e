//! The error taxonomy of the pipeline.
//!
//! Every stage fails fast: the first error aborts the whole run and is
//! surfaced to the caller unchanged. Subsetting being unavailable is not an
//! error: the pipeline recovers by embedding the full font bytes.

use vstd::prelude::*;

verus! {

/// A fatal pipeline failure.
#[derive(Clone, Copy, Debug, PartialEq, Eq, Structural)]
pub enum PipelineError {
    /// No font matches the requested family query.
    FontNotFound,
    /// The font bytes are not a valid or supported font.
    FontParseFailure,
    /// A character of the display text resolves to no glyph; no fallback
    /// glyph is defined, so the whole run aborts.
    UnmappableCharacter(char),
    /// Reading the font source or writing the output failed.
    IoFailure,
}

} // verus!
