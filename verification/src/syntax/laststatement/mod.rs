//! laststat: `return [explist]`, `break`, each standing alone in its phrase.

use vstd::prelude::*;
use crate::codewrap::CodeWrap;
use crate::token::{Token, TokenView};
use crate::syntax::Wrapped;
use crate::syntax::element::{SyntaxElement, is_token_of};
use crate::syntax::rules::at;

verus! {

/// A phrase that is a last statement: `break` alone, `return` alone, or
/// `return` and one more element (what it returns); the statement it
/// becomes.
pub open spec fn last_step(s: Seq<Wrapped>) -> Option<Seq<Wrapped>> {
    if s.len() == 1 && is_token_of(at(s, 0), TokenView::Break) {
        Some(seq![CodeWrap::CodeWrap(SyntaxElement::StatementLastBreak, s[0].spec_start(), s[0].spec_end())])
    } else if s.len() == 1 && is_token_of(at(s, 0), TokenView::Return) {
        Some(seq![CodeWrap::CodeWrap(SyntaxElement::StatementLastReturn(None), s[0].spec_start(), s[0].spec_end())])
    } else if s.len() == 2 && is_token_of(at(s, 0), TokenView::Return) {
        Some(
            seq![
                CodeWrap::CodeWrap(
                    SyntaxElement::StatementLastReturn(Some(Box::new(at(s, 1)))),
                    s[0].spec_start(),
                    s[1].spec_end(),
                ),
            ],
        )
    } else {
        None
    }
}

fn statement_break(phrase: &mut Vec<Wrapped>) -> (r: bool)
    ensures
        if old(phrase)@.len() == 1 && is_token_of(at(old(phrase)@, 0), TokenView::Break) {
            r && final(phrase)@ == last_step(old(phrase)@)->0
        } else {
            !r && final(phrase)@ == old(phrase)@
        },
{
    if phrase.len() == 1 && phrase[0].item().does_match_token(Token::Break) {
        let CodeWrap::CodeWrap(_, s, e) = phrase.remove(0);
        phrase.insert(0, CodeWrap::CodeWrap(SyntaxElement::StatementLastBreak, s, e));
        assert(phrase@ =~= last_step(old(phrase)@)->0);
        true
    } else {
        false
    }
}

fn statement_return(phrase: &mut Vec<Wrapped>) -> (r: bool)
    ensures
        if (old(phrase)@.len() == 1 || old(phrase)@.len() == 2) && is_token_of(
            at(old(phrase)@, 0),
            TokenView::Return,
        ) {
            r && final(phrase)@ == last_step(old(phrase)@)->0
        } else {
            !r && final(phrase)@ == old(phrase)@
        },
{
    if phrase.len() == 1 && phrase[0].item().does_match_token(Token::Return) {
        let CodeWrap::CodeWrap(_, s, e) = phrase.remove(0);
        phrase.insert(0, CodeWrap::CodeWrap(SyntaxElement::StatementLastReturn(None), s, e));
        assert(phrase@ =~= last_step(old(phrase)@)->0);
        true
    } else if phrase.len() == 2 && phrase[0].item().does_match_token(Token::Return) {
        let CodeWrap::CodeWrap(_, s, _) = phrase.remove(0);
        let CodeWrap::CodeWrap(explist, _, e) = phrase.remove(0);
        let new_element = CodeWrap::CodeWrap(SyntaxElement::StatementLastReturn(Some(Box::new(explist))), s, e);
        phrase.insert(0, new_element);
        assert(phrase@ =~= last_step(old(phrase)@)->0);
        true
    } else {
        false
    }
}

/// Makes the phrase a last statement where it is one (see `last_step`);
/// whether it did.
pub fn process(phrase: &mut Vec<Wrapped>) -> (r: bool)
    ensures
        match last_step(old(phrase)@) {
            Some(t) => r && final(phrase)@ == t,
            None => !r && final(phrase)@ == old(phrase)@,
        },
{
    let ghost s0 = phrase@;
    let mut count: usize = 0;
    loop
        invariant
            count <= 1,
            count == 0 ==> phrase@ == s0,
            count == 1 ==> last_step(s0) == Some(phrase@),
            s0 == old(phrase)@,
        ensures
            count == 1 ==> last_step(s0) == Some(phrase@),
            count == 0 ==> phrase@ == s0 && last_step(s0) is None,
        decreases 2 - count,
    {
        let ghost before = phrase@;
        if statement_break(phrase) {
            count = count + 1;
            continue;
        }
        if statement_return(phrase) {
            count = count + 1;
            continue;
        }
        break;
    }
    count >= 1
}

} // verus!
