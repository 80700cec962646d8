//! An item together with where it stands in the code: its span and its line.

use vstd::prelude::*;

verus! {

/// An item and the place in the code it came from.
pub enum CodeRef<T> {
    CodeRef { item: T, code_start: usize, code_end: usize, line_number: usize },
}

impl<T: View> View for CodeRef<T> {
    type V = CodeRef<T::V>;

    open spec fn view(&self) -> CodeRef<T::V> {
        CodeRef::CodeRef {
            item: self->item@,
            code_start: self->code_start,
            code_end: self->code_end,
            line_number: self->line_number,
        }
    }
}

impl<T> CodeRef<T> {
    /// The wrapped item.
    pub fn item<'a>(&'a self) -> (r: &'a T)
        ensures
            *r == self->item,
    {
        let CodeRef::CodeRef { item, .. } = self;
        item
    }

    /// Where the item's code starts.
    pub fn code_start<'a>(&'a self) -> (r: usize)
        ensures
            r == self->code_start,
    {
        let CodeRef::CodeRef { code_start, .. } = self;
        *code_start
    }

    /// Where the item's code ends.
    pub fn code_end<'a>(&'a self) -> (r: usize)
        ensures
            r == self->code_end,
    {
        let CodeRef::CodeRef { code_end, .. } = self;
        *code_end
    }

    /// The line the item's code stands on.
    pub fn line_number<'a>(&'a self) -> (r: usize)
        ensures
            r == self->line_number,
    {
        let CodeRef::CodeRef { line_number, .. } = self;
        *line_number
    }

    /// A short name for `item`.
    pub fn i<'a>(&'a self) -> (r: &'a T)
        ensures
            *r == self->item,
    {
        self.item()
    }

    /// The item, without its place in the code.
    pub fn unwrap(self) -> (r: T)
        ensures
            r == self->item,
    {
        let CodeRef::CodeRef { item, .. } = self;
        item
    }
}

} // verus!
