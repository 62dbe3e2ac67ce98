//! Why a file could not be given a destination.

use vstd::prelude::*;

verus! {

/// The ways in which resolving one file fails. Each of them ends the run.
#[derive(Debug, Clone, Copy, PartialEq, Eq, Structural)]
pub enum ProcessError {
    /// The digest cannot be set up for the requested output length.
    Hash,
    /// The metadata parses and holds a capture date that is no date.
    MalformedDate,
    /// A template cannot be rendered with the capture date.
    Template,
    /// The source file has no extension to carry over.
    MissingExtension,
}

} // verus!
