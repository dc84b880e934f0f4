//! Error taxonomy of the conversion core.
//!
//! Only the absence of an entire required collection is surfaced as an error;
//! malformed single lines or fields degrade to defaults instead.

use vstd::prelude::*;

verus! {

/// Errors the conversion core can report.
#[derive(Debug, Clone)]
pub enum Error {
    /// A required collection or field is absent; fatal to the enclosing
    /// decode call.
    MissingData(String),
    /// Malformed content that cannot be recovered locally.
    ParseError(String),
    /// A recognized but unimplemented primitive.
    Unsupported(String),
    /// A mesh reformatting failure.
    ModelConversionError(String),
}

impl Error {
    /// The human-readable detail string carried by the error.
    pub fn detail(&self) -> (r: String)
        ensures
            r@ == self.spec_detail(),
    {
        match self {
            Error::MissingData(s) => s.clone(),
            Error::ParseError(s) => s.clone(),
            Error::Unsupported(s) => s.clone(),
            Error::ModelConversionError(s) => s.clone(),
        }
    }

    /// The detail string, at the specification level.
    pub open spec fn spec_detail(&self) -> Seq<char> {
        match self {
            Error::MissingData(s) => s@,
            Error::ParseError(s) => s@,
            Error::Unsupported(s) => s@,
            Error::ModelConversionError(s) => s@,
        }
    }
}

} // verus!
