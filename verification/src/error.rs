//! The diagnostic model: a location-tagged, kind-tagged message. Every
//! lexical or type-checking failure is reported as a value of this module,
//! never by aborting the process.
use vstd::prelude::*;

use crate::span::Span;
use crate::text::{dec_rep, push_dec_usize};
use vstd::string::StringExecFns;

verus! {

/// The closed taxonomy of diagnostic kinds.
#[derive(Debug, Copy, Clone, PartialEq, Eq, Structural)]
pub enum ErrorType {
    /// An invariant violation inside this core, such as a malformed array
    /// construction or an out-of-bounds span slice.
    InternalError,
    /// A coercion or type-construction failure.
    TypeError,
    /// A malformed or unrecognized lexical unit.
    LexError,
    /// Owned by the external parser; defined here for uniform rendering.
    ParseError,
}

impl ErrorType {
    /// The canonical bracketed text of the kind.
    pub open spec fn spec_display(self) -> Seq<char> {
        match self {
            ErrorType::InternalError => "[InternalError]"@,
            ErrorType::TypeError => "[TypeError]"@,
            ErrorType::LexError => "[LexError]"@,
            ErrorType::ParseError => "[ParseError]"@,
        }
    }

    /// Renders the kind as its canonical bracketed text.
    pub fn display(&self) -> (r: String)
        ensures
            r@ == self.spec_display(),
    {
        match self {
            ErrorType::InternalError => "[InternalError]".to_owned(),
            ErrorType::TypeError => "[TypeError]".to_owned(),
            ErrorType::LexError => "[LexError]".to_owned(),
            ErrorType::ParseError => "[ParseError]".to_owned(),
        }
    }
}

/// A diagnostic: where it happened, what kind it is, and its message.
#[derive(Debug, Clone, PartialEq)]
pub struct Error {
    pub location: Span,
    pub error_type: ErrorType,
    pub message: String,
}

impl Error {
    /// Pure value construction; no side effects.
    pub fn new(start: usize, end: usize, error_type: ErrorType, message: String) -> (e: Self)
        ensures
            e.location.start == start,
            e.location.end == end,
            e.error_type == error_type,
            e.message == message,
    {
        Self { location: Span { start, end }, error_type, message }
    }

    #[inline]
    pub fn get_location(&self) -> (r: Span)
        ensures
            r == self.location,
    {
        self.location
    }

    #[inline]
    pub fn get_error_type(&self) -> (r: ErrorType)
        ensures
            r == self.error_type,
    {
        self.error_type
    }

    #[inline]
    pub fn get_message(&self) -> (r: String)
        ensures
            r@ == self.message@,
    {
        self.message.clone()
    }

    /// The fixed rendering `"<kind> at <start>:<end> : <message>"`.
    pub open spec fn spec_display(self) -> Seq<char> {
        self.error_type.spec_display() + " at "@ + dec_rep(self.location.start as nat) + ":"@
            + dec_rep(self.location.end as nat) + " : "@ + self.message@
    }

    /// Renders the diagnostic in its fixed format.
    pub fn display(&self) -> (r: String)
        ensures
            r@ == self.spec_display(),
    {
        let mut out = self.error_type.display();
        out.append(" at ");
        push_dec_usize(&mut out, self.location.start);
        out.append(":");
        push_dec_usize(&mut out, self.location.end);
        out.append(" : ");
        out.append(self.message.as_str());
        out
    }
}

} // verus!
