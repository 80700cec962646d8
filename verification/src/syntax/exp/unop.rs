//! `unop exp` becomes an expression (the first occurrence).

use vstd::prelude::*;
use crate::syntax::Wrapped;
use crate::syntax::rules::{Pattern, rule, reduce};

verus! {

/// `unop exp` becomes an expression (the first occurrence). Whether anything was reduced.
pub fn process(elements: &mut Vec<Wrapped>) -> (r: bool)
    ensures
        match rule(Pattern::Unop, old(elements)@) {
            Some(s2) => r && final(elements)@ == s2,
            None => !r && final(elements)@ == old(elements)@,
        },
{
    reduce(elements, Pattern::Unop)
}

} // verus!
