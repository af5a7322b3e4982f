use vstd::prelude::*;

verus! {

/// A half-open range of byte offsets into the source text, together with
/// the line and column (both 1-based) at which the range starts.
#[derive(Clone, Copy, PartialEq, Eq, Structural, Debug)]
pub struct Span {
    pub start: usize,
    pub end: usize,
    pub line: usize,
    pub col: usize,
}

} // verus!
