//! The error value returned when a QIF document cannot be parsed.

use vstd::prelude::*;

verus! {

/// A parsing failure, carrying a human-readable description of what went
/// wrong. Parsing stops at the first error; the error value is returned to
/// the caller rather than panicking.
#[derive(Debug, Clone, PartialEq)]
pub struct QifParsingError {
    pub details: String,
}

impl QifParsingError {
    /// Wraps a message in an error value.
    pub fn new(msg: &str) -> (e: QifParsingError)
        ensures
            e.details@ == msg@,
    {
        QifParsingError { details: msg.to_owned() }
    }

    /// The stored description, as an owned string.
    pub fn message(&self) -> (r: String)
        ensures
            r@ == self.details@,
    {
        self.details.clone()
    }
}

} // verus!
