//! `do block end`: opened by a phrase that starts with `do`, closed by
//! making a block of what came between.

use vstd::prelude::*;
use crate::codewrap::CodeWrap;
use crate::token::{Token, TokenView};
use crate::syntax::{SyntaxResult, Wrapped, final_compress, first_non_statement, is_block_of};
use crate::syntax::element::{SyntaxElement, is_token_of, spec_is_statement};
use crate::syntax::rules::at;

verus! {

/// Where the phrase starts with `do`, the statement that opens (still
/// empty), over the span of the `do`; `Nothing` otherwise. The phrase is
/// left as it is.
pub fn process(elements: &mut Vec<Wrapped>) -> (r: SyntaxResult)
    ensures
        final(elements)@ == old(elements)@,
        if old(elements)@.len() > 0 && is_token_of(at(old(elements)@, 0), TokenView::Do) {
            r matches SyntaxResult::Wrap(CodeWrap::CodeWrap(e, st, en)) && e == SyntaxElement::StatementDoEnd(
                Box::new(SyntaxElement::Empty),
            ) && st == old(elements)@[0].spec_start() && en == old(elements)@[0].spec_end()
        } else {
            r is Nothing
        },
{
    if elements.len() > 0 {
        if elements[0].item().does_match_token(Token::Do) {
            let element = SyntaxElement::StatementDoEnd(Box::new(SyntaxElement::Empty));
            return SyntaxResult::Wrap(CodeWrap::CodeWrap(element, elements[0].start(), elements[0].end()));
        }
    }
    SyntaxResult::Nothing
}

/// Where a run of statements can be compressed to a block (see
/// `final_compress`).
pub open spec fn compresses(s: Seq<Wrapped>) -> bool {
    s.len() > 0 && first_non_statement(s, 0) is None && ({
        let last = at(s, s.len() - 1);
        spec_is_statement(last) || last is StatementLast
    })
}

/// The error `final_compress` gives for a run that does not compress: its
/// start, end and description.
pub open spec fn compress_error(s: Seq<Wrapped>) -> (usize, usize, Seq<char>) {
    if s.len() == 0 {
        (0, 0, "No elements found to compress?"@)
    } else {
        match first_non_statement(s, 0) {
            Some(i) => (s[i].spec_start(), s[i].spec_end(), "Line isn't a statement, but must be one"@),
            None => (
                s[s.len() - 1].spec_start(),
                s[s.len() - 1].spec_end(),
                "Line isn't a statement, but must be one"@,
            ),
        }
    }
}

/// Closes `do ... end`: the statements between become the block of the
/// finished statement; an error where they do not make a block (see
/// `final_compress`), passed on as it came.
pub fn finalize(stack: &mut Vec<Wrapped>) -> (r: SyntaxResult)
    ensures
        compresses(old(stack)@) ==> (r matches SyntaxResult::Finished(SyntaxElement::StatementDoEnd(b))
            && is_block_of(*b, old(stack)@)) && final(stack)@.len() == 0,
        !compresses(old(stack)@) ==> (r matches SyntaxResult::Error(a, b, d) && (a, b, d@) == compress_error(
            old(stack)@,
        )) && final(stack)@ == old(stack)@,
{
    let inner_block = match final_compress(stack) {
        SyntaxResult::Error(error_start, error_end, description) => {
            return SyntaxResult::Error(error_start, error_end, description);
        },
        SyntaxResult::Wrap(CodeWrap::CodeWrap(inner_block, _, _)) => inner_block,
        _ => {
            return SyntaxResult::Nothing;
        },
    };
    if !inner_block.is_block() {
        return SyntaxResult::Error(0, 0, "must be able to reduce down to a block".to_owned());
    }
    SyntaxResult::Finished(SyntaxElement::StatementDoEnd(Box::new(inner_block)))
}

} // verus!
