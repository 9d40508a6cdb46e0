//! The error values the codec reports.
//!
//! Every failure of decoding or encoding is one of four kinds:
//! a JSON node of the wrong kind at some position, an array shorter than the
//! format requires, a fixed-position value that is not the expected literal,
//! or a collection that the format forbids to be empty.  An error value alone
//! carries the diagnostic context; there is no logging.

use vstd::prelude::*;

verus! {

/// Why a decode or encode call failed.
#[derive(Debug, Clone, PartialEq)]
pub enum JCardError {
    /// A JSON node has the wrong kind (for example an object where a string
    /// was required).  `expected` describes the shape that was required.
    Shape { expected: String },
    /// An array has fewer elements than required, or a fixed slot of it does
    /// not hold the required kind of element; `index` is the 0-based slot
    /// reached before the failure.
    Length { index: usize, expected: String },
    /// A fixed-position value does not match an expected literal; `expected`
    /// names that literal.
    Value { expected: String },
    /// A collection that must hold at least one element is empty; `what`
    /// describes the requirement it breaks.
    Empty { what: String },
}

/// The mathematical shape of a [`JCardError`], used by all contracts.
pub enum ErrorModel {
    Shape { expected: Seq<char> },
    Length { index: int, expected: Seq<char> },
    Value { expected: Seq<char> },
    Empty { what: Seq<char> },
}

impl View for JCardError {
    type V = ErrorModel;

    open spec fn view(&self) -> ErrorModel {
        match self {
            JCardError::Shape { expected } => ErrorModel::Shape { expected: expected@ },
            JCardError::Length { index, expected } => ErrorModel::Length {
                index: *index as int,
                expected: expected@,
            },
            JCardError::Value { expected } => ErrorModel::Value { expected: expected@ },
            JCardError::Empty { what } => ErrorModel::Empty { what: what@ },
        }
    }
}

impl DeepView for JCardError {
    type V = ErrorModel;

    open spec fn deep_view(&self) -> ErrorModel {
        self.view()
    }
}

} // verus!
