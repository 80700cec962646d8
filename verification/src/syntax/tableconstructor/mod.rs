//! tableconstructor: `{ [fieldlist] }`, found by where its brace opens.

use vstd::prelude::*;
use crate::token::{Token, TokenView};
use crate::syntax::{SyntaxResult, Wrapped};
use crate::syntax::element::is_token_of;
use crate::syntax::rules::at;

verus! {

/// The first `{` at or after `i`.
pub open spec fn first_brace(s: Seq<Wrapped>, i: int) -> Option<int>
    decreases s.len() - i,
{
    if i < 0 || i >= s.len() {
        None
    } else if is_token_of(at(s, i), TokenView::LeftMoustache) {
        Some(i)
    } else {
        first_brace(s, i + 1)
    }
}

/// Where a table starts: the place of the first `{`, as `TableConst`;
/// `Nothing` where there is none. The run is left as it is.
pub fn process(elements: &mut Vec<Wrapped>) -> (r: SyntaxResult)
    ensures
        final(elements)@ == old(elements)@,
        match first_brace(old(elements)@, 0) {
            Some(i) => r == SyntaxResult::TableConst(i as usize),
            None => r is Nothing,
        },
{
    let ghost s0 = elements@;
    let n = elements.len();
    let mut i: usize = 0;
    while i < n
        invariant
            n == elements@.len(),
            s0 == elements@,
            s0 == old(elements)@,
            i <= n,
            first_brace(s0, 0) == first_brace(s0, i as int),
        decreases n - i,
    {
        if elements[i].item().does_match_token(Token::LeftMoustache) {
            return SyntaxResult::TableConst(i);
        }
        i = i + 1;
    }
    SyntaxResult::Nothing
}

} // verus!
