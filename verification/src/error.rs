//! The errors a decode can end in.
//!
//! A layer either decodes fully or not at all: every error aborts the decode
//! at once and is handed back unchanged, with no local recovery or partial
//! result.

use vstd::prelude::*;

verus! {

/// Why a decode failed.
#[derive(Debug)]
pub enum Error {
    /// The document path is empty or names a root: it has no parent
    /// directory, so it cannot be the path of a document file.
    PathIsNotFile,
    /// A recognized attribute's raw value could not be converted to its
    /// target type; carries the attribute's name and offending value.
    AttributeCoercionFailure { name: String, value: String },
    /// A child element lacked an attribute its handler requires; surfaced by
    /// that handler and propagated verbatim.
    MissingAttribute { name: String },
    /// The event source ended before the enclosing element's end tag was
    /// reached: the document is malformed or truncated.
    StructuralError,
}

/// The mathematical content of an [`Error`].
pub ghost enum ErrorV {
    PathIsNotFile,
    AttributeCoercionFailure { name: Seq<char>, value: Seq<char> },
    MissingAttribute { name: Seq<char> },
    StructuralError,
}

impl View for Error {
    type V = ErrorV;

    open spec fn view(&self) -> ErrorV {
        match self {
            Error::PathIsNotFile => ErrorV::PathIsNotFile,
            Error::AttributeCoercionFailure { name, value } => ErrorV::AttributeCoercionFailure {
                name: name@,
                value: value@,
            },
            Error::MissingAttribute { name } => ErrorV::MissingAttribute { name: name@ },
            Error::StructuralError => ErrorV::StructuralError,
        }
    }
}

} // verus!
