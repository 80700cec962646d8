//! `Name = exp` becomes a field (the first occurrence); the name may be wrapped, as a variable or an expression, since those rules run first.

use vstd::prelude::*;
use crate::syntax::Wrapped;
use crate::syntax::rules::{Pattern, rule, reduce};

verus! {

/// `Name = exp` becomes a field (the first occurrence); the name may be wrapped, as a variable or an expression, since those rules run first. Whether anything was made.
pub fn process(elements: &mut Vec<Wrapped>) -> (r: bool)
    ensures
        match rule(Pattern::FieldNameAssign, old(elements)@) {
            Some(s2) => r && final(elements)@ == s2,
            None => !r && final(elements)@ == old(elements)@,
        },
{
    reduce(elements, Pattern::FieldNameAssign)
}

} // verus!
