//! The error taxonomy of the library: every failure of parsing, building,
//! validation or serialisation is reported through [`QtiError`].

use vstd::prelude::*;

verus! {

/// A terminal failure of one conversion request.
#[derive(Debug)]
pub enum QtiError {
    /// A document-level parse failure (for example, no questions found).
    ParseError(String),
    /// A classification failure at a specific zero-based line index.
    InvalidFormat { line: usize, message: String },
    /// Malformed XML text, or a failure while serialising an element tree.
    XmlError(String),
    /// A schema or completeness violation in a generated document.
    ValidationError(String),
    /// A required field was absent.
    MissingField(String),
    /// An invalid builder or exporter configuration.
    ConfigError(String),
}

impl QtiError {
    /// The text carried by the error, without its category prefix.
    pub fn detail(&self) -> (r: &String)
        ensures
            r@ == spec_error_detail(self),
    {
        match self {
            QtiError::ParseError(m) => m,
            QtiError::InvalidFormat { message, .. } => message,
            QtiError::XmlError(m) => m,
            QtiError::ValidationError(m) => m,
            QtiError::MissingField(m) => m,
            QtiError::ConfigError(m) => m,
        }
    }
}

pub open spec fn spec_error_detail(e: &QtiError) -> Seq<char> {
    match e {
        QtiError::ParseError(m) => m@,
        QtiError::InvalidFormat { message, .. } => message@,
        QtiError::XmlError(m) => m@,
        QtiError::ValidationError(m) => m@,
        QtiError::MissingField(m) => m@,
        QtiError::ConfigError(m) => m@,
    }
}

} // verus!
