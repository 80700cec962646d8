//! `exp binop exp` becomes an expression (the first occurrence).

use vstd::prelude::*;
use crate::syntax::Wrapped;
use crate::syntax::rules::{Pattern, rule, reduce};
use crate::syntax::element::SyntaxElement;
use crate::codewrap::CodeWrap;
use crate::token::lua_binary_operator;

verus! {

/// `exp binop exp` becomes an expression (the first occurrence). Whether anything was reduced.
pub fn process(elements: &mut Vec<Wrapped>) -> (r: bool)
    ensures
        match rule(Pattern::Binop, old(elements)@) {
            Some(s2) => r && final(elements)@ == s2,
            None => !r && final(elements)@ == old(elements)@,
        },
{
    reduce(elements, Pattern::Binop)
}


/// An expression, one of Lua's binary operators and an expression, in that
/// order, become one expression that applies the operator to the left
/// operand (the element that stood first) and the right operand (the element
/// that stood last), spanning from the start of the first to the end of the
/// last.
pub proof fn law_binop_reduces_in_order(left: Wrapped, op: Wrapped, right: Wrapped)
    requires
        *left.spec_item() is Exp,
        *op.spec_item() matches SyntaxElement::Token(t) && lua_binary_operator(t@),
        *right.spec_item() is Exp,
    ensures
        rule(Pattern::Binop, seq![left, op, right]) == Some(
            seq![
                CodeWrap::CodeWrap(
                    SyntaxElement::Exp(
                        Box::new(
                            SyntaxElement::Binop(
                                Box::new(*left.spec_item()),
                                Box::new(*op.spec_item()),
                                Box::new(*right.spec_item()),
                            ),
                        ),
                    ),
                    left.spec_start(),
                    right.spec_end(),
                ),
            ],
        ),
{
    let s = seq![left, op, right];
    crate::token::law_operators_are_lua_operators(op.spec_item()->Token_0@);
    assert(crate::syntax::rules::pattern_at(Pattern::Binop, s, 0));
    assert(crate::syntax::rules::pattern_from(Pattern::Binop, s, 0) == Some(0int));
    assert(crate::syntax::replaced(s, 0, 3, crate::syntax::rules::built(Pattern::Binop, s, 0))
        =~= seq![crate::syntax::rules::built(Pattern::Binop, s, 0)]);
}
} // verus!
