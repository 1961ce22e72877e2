use vstd::prelude::*;

verus! {

/// A failure while reading a capabilities document.
#[derive(Debug, Clone, PartialEq, Eq)]
pub enum ParseError {
    /// The document is not well-formed XML.
    Syntax,
    /// A structural element the document must contain is absent.
    MissingElement { name: String },
    /// A numeric field held text that is not a number of the expected kind.
    InvalidNumber { field: String, value: String },
}

/// The spec-level value of a `ParseError`, with its texts as character sequences.
pub enum ParseErrorV {
    Syntax,
    MissingElement { name: Seq<char> },
    InvalidNumber { field: Seq<char>, value: Seq<char> },
}

impl View for ParseError {
    type V = ParseErrorV;

    open spec fn view(&self) -> ParseErrorV {
        match self {
            ParseError::Syntax => ParseErrorV::Syntax,
            ParseError::MissingElement { name } => ParseErrorV::MissingElement { name: name@ },
            ParseError::InvalidNumber { field, value } => ParseErrorV::InvalidNumber {
                field: field@,
                value: value@,
            },
        }
    }
}

/// A navigation step that cannot be taken; the cursor is left unchanged.
#[derive(Debug, Clone, Copy, PartialEq, Eq, Structural)]
pub enum NavigationError {
    /// `zoom_out` was asked for at the coarsest level, matrix "0".
    AtBottomLevel,
    /// The step would leave the target matrix's grid, or no such matrix exists.
    OutOfBounds,
}

} // verus!
