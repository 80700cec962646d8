//! varlist: `var {, var}`, left of an `=`.

use vstd::prelude::*;
use crate::syntax::{SyntaxResult, Wrapped};
use crate::syntax::rules::{ListEnd, list_first, list_walk, list_reduced, reduce_list};

verus! {

/// Reduces the first list of variables (before any `=`) to one element.
/// `Done` when a list was made, even of one variable; `Nothing` when there
/// is no variable, or a comma is not followed by one.
pub fn process(elements: &mut Vec<Wrapped>) -> (r: SyntaxResult)
    ensures
        match list_first(true, old(elements)@, 0) {
            None => r is Nothing && final(elements)@ == old(elements)@,
            Some(st) => match list_walk(true, old(elements)@, st, st + 1) {
                ListEnd::End(e) => r is Done && list_reduced(true, old(elements)@, st, e, final(elements)@),
                ListEnd::Bad(_) => r is Nothing && final(elements)@ == old(elements)@,
            },
        },
{
    reduce_list(elements, true)
}

} // verus!
