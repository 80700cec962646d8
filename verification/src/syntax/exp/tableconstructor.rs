//! A table becomes an expression (the first one); its span is the end of the table, twice.

use vstd::prelude::*;
use crate::syntax::Wrapped;
use crate::syntax::rules::{Pattern, rule, reduce};

verus! {

/// A table becomes an expression (the first one); its span is the end of the table, twice. Whether anything was reduced.
pub fn process(elements: &mut Vec<Wrapped>) -> (r: bool)
    ensures
        match rule(Pattern::TableExp, old(elements)@) {
            Some(s2) => r && final(elements)@ == s2,
            None => !r && final(elements)@ == old(elements)@,
        },
{
    reduce(elements, Pattern::TableExp)
}

} // verus!
