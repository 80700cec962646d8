//! `while exp do block end`: opened by the phrase `while exp do`, closed by
//! making a block of what came between.

use vstd::prelude::*;
use crate::codewrap::CodeWrap;
use crate::token::{Token, TokenView};
use crate::syntax::{SyntaxResult, Wrapped, final_compress, is_block_of};
use crate::syntax::element::{SyntaxElement, is_token_of};
use crate::syntax::rules::at;
use crate::syntax::statement::doend::{compresses, compress_error};

verus! {

/// The phrase is `while exp do`.
pub open spec fn is_while_phrase(s: Seq<Wrapped>) -> bool {
    s.len() == 3 && is_token_of(at(s, 0), TokenView::While) && at(s, 1) is Exp && is_token_of(
        at(s, 2),
        TokenView::Do,
    )
}

/// Where the phrase is `while exp do`, the loop that opens (its block
/// still empty) over the span of the `while`, and the phrase is used up;
/// `Nothing` otherwise, and the phrase is left as it is.
pub fn process(elements: &mut Vec<Wrapped>) -> (r: SyntaxResult)
    ensures
        is_while_phrase(old(elements)@) ==> final(elements)@.len() == 0 && (r matches SyntaxResult::Wrap(
            CodeWrap::CodeWrap(e, st, en),
        ) && e == SyntaxElement::StatementWhile(
            Box::new(at(old(elements)@, 1)),
            Box::new(SyntaxElement::Empty),
        ) && st == old(elements)@[0].spec_start() && en == old(elements)@[0].spec_end()),
        !is_while_phrase(old(elements)@) ==> r is Nothing && final(elements)@ == old(elements)@,
{
    if elements.len() == 3 && elements[0].item().does_match_token(Token::While) && elements[1].item().is_exp()
        && elements[2].item().does_match_token(Token::Do) {
        let start = elements[0].start();
        let end = elements[0].end();
        elements.remove(0);
        let CodeWrap::CodeWrap(exp, s, e) = elements.remove(0);
        if !exp.is_exp() {
            return SyntaxResult::Error(s, e, "the condition of a while loop must be an expression".to_owned());
        }
        let element = SyntaxElement::StatementWhile(Box::new(exp), Box::new(SyntaxElement::Empty));
        elements.remove(0);
        return SyntaxResult::Wrap(CodeWrap::CodeWrap(element, start, end));
    }
    SyntaxResult::Nothing
}

/// Closes `while ... end`: the statements between become the loop's
/// block, under the condition given; an error where they do not make a
/// block (see `final_compress`), passed on as it came.
pub fn finalize(condition: Box<SyntaxElement>, stack: &mut Vec<Wrapped>) -> (r: SyntaxResult)
    ensures
        compresses(old(stack)@) ==> (r matches SyntaxResult::Finished(
            SyntaxElement::StatementWhile(c, b),
        ) && c == condition && is_block_of(*b, old(stack)@)) && final(stack)@.len() == 0,
        !compresses(old(stack)@) ==> (r matches SyntaxResult::Error(a, b, d) && (a, b, d@) == compress_error(
            old(stack)@,
        )) && final(stack)@ == old(stack)@,
{
    let inner_block = match final_compress(stack) {
        SyntaxResult::Error(error_start, error_end, description) => {
            return SyntaxResult::Error(error_start, error_end, description);
        },
        SyntaxResult::Wrap(CodeWrap::CodeWrap(inner_block, _, _)) => inner_block,
        _ => {
            return SyntaxResult::Nothing;
        },
    };
    if !inner_block.is_block() {
        return SyntaxResult::Error(0, 0, "must be able to reduce down to a block".to_owned());
    }
    SyntaxResult::Finished(SyntaxElement::StatementWhile(condition, Box::new(inner_block)))
}

} // verus!
