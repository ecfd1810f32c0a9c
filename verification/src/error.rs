//! The failures a parse can surface.  Every other malformation (a wrong
//! tag, a missing class marker, blank text) is silently skipped by the
//! classifier, never an error.

use vstd::prelude::*;

verus! {

/// The spec-level picture of a parse failure.
pub ghost enum ErrorModel {
    /// The content-region marker is absent from the document.
    StructureNotFound,
    /// A table row lacks the named column while a field or parameter is
    /// decoded from it.
    MissingColumn { column: Seq<char> },
    /// A declaration heading is followed by more than one shape-bearing
    /// block before the next heading.
    AmbiguousShape { name: Seq<char> },
}

/// A parse failure, fatal for the pass that met it: the caller receives
/// either a complete result or one of these, never a partial result.
#[derive(Debug)]
pub enum ParseError {
    /// The content-region marker is absent from the document.
    StructureNotFound,
    /// A table row lacks the named column while a field or parameter is
    /// decoded from it.
    MissingColumn { column: String },
    /// The declaration under the given heading is followed by more than one
    /// shape-bearing block before the next heading.
    AmbiguousShape { name: String },
}

impl View for ParseError {
    type V = ErrorModel;

    open spec fn view(&self) -> ErrorModel {
        match self {
            ParseError::StructureNotFound => ErrorModel::StructureNotFound,
            ParseError::MissingColumn { column } => ErrorModel::MissingColumn {
                column: column@,
            },
            ParseError::AmbiguousShape { name } => ErrorModel::AmbiguousShape { name: name@ },
        }
    }
}

} // verus!
