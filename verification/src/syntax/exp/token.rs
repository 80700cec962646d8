//! Literal tokens become expressions.

use vstd::prelude::*;
use crate::token::Token;
use crate::syntax::Wrapped;
use crate::syntax::rules::{token_rule, reduce_token};

verus! {

/// The first token of the same kind as `check_token` becomes an
/// expression. Whether anything was reduced.
pub fn process(elements: &mut Vec<Wrapped>, check_token: Token) -> (r: bool)
    ensures
        match token_rule(check_token@, old(elements)@) {
            Some(s2) => r && final(elements)@ == s2,
            None => !r && final(elements)@ == old(elements)@,
        },
{
    reduce_token(elements, check_token)
}

} // verus!
