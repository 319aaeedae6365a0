//! Error records.
//!
//! `SyntaxError` is what the syntax analyzer collects: a structural
//! problem with the CSS text, positioned and non-fatal. `ParseError` is a
//! plain message/value pair for callers that want to surface a failure.

use vstd::prelude::*;

verus! {

/// A message about a value that could not be handled.
#[derive(Debug, Clone, PartialEq)]
pub struct ParseError {
    pub error: String,
    pub value: String,
}

impl ParseError {
    pub fn new(error: String, value: String) -> (r: Self)
        ensures
            r.error@ == error@,
            r.value@ == value@,
    {
        Self { error, value }
    }
}

/// A structural syntax error: what went wrong, the offending text, and the
/// character position at which it was noticed. Collected in a list;
/// never fatal to the rest of the sheet.
#[derive(Debug, Clone, PartialEq)]
pub struct SyntaxError {
    pub message: String,
    pub slice: String,
    pub position: usize,
}

/// The mathematical shadow of `SyntaxError`.
pub ghost struct SyntaxErrorV {
    pub message: Seq<char>,
    pub slice: Seq<char>,
    pub position: int,
}

impl View for SyntaxError {
    type V = SyntaxErrorV;

    open spec fn view(&self) -> SyntaxErrorV {
        SyntaxErrorV { message: self.message@, slice: self.slice@, position: self.position as int }
    }
}

impl DeepView for SyntaxError {
    type V = SyntaxErrorV;

    open spec fn deep_view(&self) -> SyntaxErrorV {
        self.view()
    }
}

} // verus!
