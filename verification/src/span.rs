//! Source locations attached to tokens, AST nodes and diagnostics.

use vstd::prelude::*;

verus! {

/// A region of source text: start/end offsets (in characters) plus the
/// 1-based line and column of the first character.
#[derive(Debug, Clone, Copy, PartialEq, Eq, Structural)]
pub struct Span {
    pub start: usize,
    pub end: usize,
    pub line: usize,
    pub column: usize,
}

impl Span {
    pub fn new(start: usize, end: usize, line: usize, column: usize) -> (s: Span)
        ensures
            s == (Span { start, end, line, column }),
    {
        Span { start, end, line, column }
    }

    /// A zero-width span, used for the end-of-input token.
    pub fn point(pos: usize, line: usize, column: usize) -> (s: Span)
        ensures
            s == (Span { start: pos, end: pos, line, column }),
    {
        Span { start: pos, end: pos, line, column }
    }

    /// The merged span of this region and another: minimal start, maximal end,
    /// line and column taken from whichever region starts first.
    pub fn merge(&self, other: &Span) -> (s: Span)
        ensures
            s == self.spec_merge(*other),
    {
        if self.start <= other.start {
            Span {
                start: self.start,
                end: if self.end >= other.end { self.end } else { other.end },
                line: self.line,
                column: self.column,
            }
        } else {
            Span {
                start: other.start,
                end: if self.end >= other.end { self.end } else { other.end },
                line: other.line,
                column: other.column,
            }
        }
    }

    pub open spec fn spec_merge(self, other: Span) -> Span {
        Span {
            start: if self.start <= other.start { self.start } else { other.start },
            end: if self.end >= other.end { self.end } else { other.end },
            line: if self.start <= other.start { self.line } else { other.line },
            column: if self.start <= other.start { self.column } else { other.column },
        }
    }
}

} // verus!
