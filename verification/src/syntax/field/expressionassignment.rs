//! `[ exp ] = exp` becomes a field (the first occurrence).

use vstd::prelude::*;
use crate::syntax::Wrapped;
use crate::syntax::rules::{Pattern, rule, reduce};

verus! {

/// `[ exp ] = exp` becomes a field (the first occurrence). Whether anything was made.
pub fn process(elements: &mut Vec<Wrapped>) -> (r: bool)
    ensures
        match rule(Pattern::FieldExpAssign, old(elements)@) {
            Some(s2) => r && final(elements)@ == s2,
            None => !r && final(elements)@ == old(elements)@,
        },
{
    reduce(elements, Pattern::FieldExpAssign)
}

} // verus!
