use vstd::prelude::*;
use crate::token::Span;

verus! {

/// What went wrong while parsing.
#[derive(Clone, Copy, Debug, PartialEq, Eq, Structural)]
pub enum Error {
    /// A token other than the one the grammar requires.
    Syntax,
    /// A name was required and something else was found.
    ExpectedIdentifier,
    /// No expression can start with the current token.
    ExpectedExpression,
    /// The left side of an assignment is neither a variable nor a property.
    InvalidAssignmentTarget,
    /// A class names itself as its superclass.
    SelfInheritance,
}

/// An error together with the span at which it was detected.
#[derive(Clone, Copy, Debug, PartialEq, Eq, Structural)]
pub struct ErrorInfo {
    pub error: Error,
    pub span: Span,
}

impl ErrorInfo {
    pub fn new_with_span(error: Error, span: Span) -> (r: ErrorInfo)
        ensures
            r.error == error,
            r.span == span,
    {
        ErrorInfo { error, span }
    }
}

} // verus!
