//! An expression becomes a field (the first one).

use vstd::prelude::*;
use crate::syntax::Wrapped;
use crate::syntax::rules::{Pattern, rule, reduce};

verus! {

/// An expression becomes a field (the first one). Whether anything was made.
pub fn process(elements: &mut Vec<Wrapped>) -> (r: bool)
    ensures
        match rule(Pattern::FieldExp, old(elements)@) {
            Some(s2) => r && final(elements)@ == s2,
            None => !r && final(elements)@ == old(elements)@,
        },
{
    reduce(elements, Pattern::FieldExp)
}

} // verus!
