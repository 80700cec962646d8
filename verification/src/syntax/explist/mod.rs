//! explist: `exp {, exp}`.

use vstd::prelude::*;
use crate::syntax::{SyntaxResult, Wrapped};
use crate::syntax::rules::{ListEnd, list_first, list_walk, list_reduced, reduce_list};

verus! {

/// Reduces the first list of expressions to one element. `Done` when a list
/// was made, even of one expression; `Nothing` when there is no
/// expression; an error at the place where a comma is not followed by an
/// expression.
pub fn process(elements: &mut Vec<Wrapped>) -> (r: SyntaxResult)
    ensures
        match list_first(false, old(elements)@, 0) {
            None => r is Nothing && final(elements)@ == old(elements)@,
            Some(st) => match list_walk(false, old(elements)@, st, st + 1) {
                ListEnd::End(e) => r is Done && list_reduced(false, old(elements)@, st, e, final(elements)@),
                ListEnd::Bad(b) => final(elements)@ == old(elements)@ && (r matches SyntaxResult::Error(a, z, d)
                    && a == old(elements)@[b].spec_start() && z == old(elements)@[b].spec_end()
                    && d@ == "expecting an expression after the comma"@),
            },
        },
{
    reduce_list(elements, false)
}

} // verus!
