//! Source positions: a line/column location and a begin/end span.
//!
//! Every expression may carry an optional [`Span`] so that evaluation errors
//! can point back into the source text without threading positions through
//! every primitive.

use vstd::prelude::*;

verus! {

/// A position in the source text, counted in lines and columns.
#[derive(Clone, Copy, Debug, PartialEq, Eq, Structural)]
pub struct Loc {
    pub line: usize,
    pub column: usize,
}

impl Loc {
    pub fn new(line: usize, column: usize) -> (r: Loc)
        ensures
            r == (Loc { line, column }),
    {
        Loc { line, column }
    }
}

/// A half-open region of source text, from the start of `begin` to `end`.
#[derive(Clone, Copy, Debug, PartialEq, Eq, Structural)]
pub struct Span {
    pub begin: Loc,
    pub end: Loc,
}

impl Span {
    pub fn new(begin: Loc, end: Loc) -> (r: Span)
        ensures
            r == (Span { begin, end }),
    {
        Span { begin, end }
    }
}

} // verus!
