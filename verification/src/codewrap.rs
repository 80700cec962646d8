//! A wrapper that keeps an item together with the span of source code it
//! came from.

use vstd::prelude::*;

verus! {

/// Marker for items that can be wrapped together with their source span.
pub trait CodeWrappable {}

/// An item with the byte offsets of the code it was made from: the item,
/// where it starts and where it ends.
pub enum CodeWrap<CW: CodeWrappable> {
    CodeWrap(CW, usize, usize),
}

impl<CW: CodeWrappable> CodeWrap<CW> {
    /// The wrapped item.
    pub open spec fn spec_item(&self) -> &CW {
        match self {
            CodeWrap::CodeWrap(inside, _, _) => inside,
        }
    }

    /// Where the wrapped code starts.
    pub open spec fn spec_start(&self) -> usize {
        match self {
            CodeWrap::CodeWrap(_, start, _) => *start,
        }
    }

    /// Where the wrapped code ends.
    pub open spec fn spec_end(&self) -> usize {
        match self {
            CodeWrap::CodeWrap(_, _, end) => *end,
        }
    }

    pub fn item(&self) -> (r: &CW)
        ensures
            r == self.spec_item(),
    {
        match self {
            CodeWrap::CodeWrap(inside, _, _) => inside,
        }
    }

    pub fn start(&self) -> (r: usize)
        ensures
            r == self.spec_start(),
    {
        match self {
            CodeWrap::CodeWrap(_, start, _) => *start,
        }
    }

    pub fn end(&self) -> (r: usize)
        ensures
            r == self.spec_end(),
    {
        match self {
            CodeWrap::CodeWrap(_, _, end) => *end,
        }
    }
}

} // verus!
