//! `local namelist [= explist]`, as a whole phrase.

use vstd::prelude::*;
use crate::codewrap::CodeWrap;
use crate::token::{Token, TokenView};
use crate::syntax::Wrapped;
use crate::syntax::element::{SyntaxElement, is_token_of};
use crate::syntax::rules::at;

verus! {

/// A phrase that is a local assignment, `local namelist = explist` or
/// `local namelist`; the statement it becomes.
pub open spec fn local_step(s: Seq<Wrapped>) -> Option<Seq<Wrapped>> {
    if s.len() == 4 && is_token_of(at(s, 0), TokenView::Local) && at(s, 1) is NameList && is_token_of(
        at(s, 2),
        TokenView::Equal,
    ) && at(s, 3) is ExpList {
        Some(
            seq![
                CodeWrap::CodeWrap(
                    SyntaxElement::StatementLocalAssign(Box::new(at(s, 1)), Some(Box::new(at(s, 3)))),
                    s[0].spec_start(),
                    s[3].spec_end(),
                ),
            ],
        )
    } else if s.len() == 2 && is_token_of(at(s, 0), TokenView::Local) && at(s, 1) is NameList {
        Some(
            seq![
                CodeWrap::CodeWrap(
                    SyntaxElement::StatementLocalAssign(Box::new(at(s, 1)), None),
                    s[0].spec_start(),
                    s[1].spec_end(),
                ),
            ],
        )
    } else {
        None
    }
}

/// Makes the phrase a local assignment where it is one (see
/// `local_step`); whether it did.
pub fn process(elements: &mut Vec<Wrapped>) -> (r: bool)
    ensures
        match local_step(old(elements)@) {
            Some(t) => r && final(elements)@ == t,
            None => !r && final(elements)@ == old(elements)@,
        },
{
    if elements.len() == 4 {
        if elements[0].item().does_match_token(Token::Local) && elements[2].item().does_match_token(Token::Equal)
            && elements[1].item().is_name_list() && elements[3].item().is_exp_list() {
            let CodeWrap::CodeWrap(_, start, _) = elements.remove(0);
            let CodeWrap::CodeWrap(namelist, _, _) = elements.remove(0);
            elements.remove(0);
            let CodeWrap::CodeWrap(explist, _, end) = elements.remove(0);
            let new_element = SyntaxElement::StatementLocalAssign(Box::new(namelist), Some(Box::new(explist)));
            elements.push(CodeWrap::CodeWrap(new_element, start, end));
            assert(elements@ =~= local_step(old(elements)@)->0);
            return true;
        }
    }
    if elements.len() == 2 {
        if elements[0].item().does_match_token(Token::Local) && elements[1].item().is_name_list() {
            let CodeWrap::CodeWrap(_, start, _) = elements.remove(0);
            let CodeWrap::CodeWrap(namelist, _, end) = elements.remove(0);
            let new_element = SyntaxElement::StatementLocalAssign(Box::new(namelist), None);
            elements.push(CodeWrap::CodeWrap(new_element, start, end));
            assert(elements@ =~= local_step(old(elements)@)->0);
            return true;
        }
    }
    false
}

} // verus!
