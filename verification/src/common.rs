//! Positions in the source text and the errors of type checking.

use vstd::prelude::*;

verus! {

/// A range of positions in the source text.
#[derive(Debug, Clone, Copy)]
pub struct Span {
    pub start: usize,
    pub end: usize,
}

impl Span {
    /// The range from `start` to `end`.
    pub fn new(start: usize, end: usize) -> (r: Self)
        ensures
            r.start == start,
            r.end == end,
    {
        Self { start, end }
    }

    /// The range that stands for no place in a text.
    pub fn dummy() -> (r: Self)
        ensures
            r.start == 0,
            r.end == 0,
    {
        Self { start: 0, end: 0 }
    }
}

/// What kind of type error was found.
#[derive(Debug, Clone)]
pub enum TypeErrorKind {
    Mismatch { expected: String, found: String },
    UnknownIdentifier { name: String },
    NotCallable { ty: String },
}

/// A type error: a message, the place and the kind.
#[derive(Debug, Clone)]
pub struct TypeError {
    pub msg: String,
    pub span: Span,
    pub kind: TypeErrorKind,
}

impl TypeError {
    /// The error with the message `msg` at `span` of the kind `kind`.
    pub fn new(msg: String, span: Span, kind: TypeErrorKind) -> (r: Self)
        ensures
            r.msg == msg,
            r.span == span,
            r.kind == kind,
    {
        Self { msg, span, kind }
    }
}

} // verus!
