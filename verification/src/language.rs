//! The smallest grammar: tokens, and binary operations made of them.

use vstd::prelude::*;
use crate::codewrap::{CodeWrap, CodeWrappable};
use crate::token::{Token, spec_is_binop, spec_token_text};
use crate::text::push_str;

verus! {

/// A piece of the grammar.
pub enum SyntaxElement {
    /// A token, as it came.
    Token(Token),
    /// Left side, operator, right side.
    Binop(Box<SyntaxElement>, Box<SyntaxElement>, Box<SyntaxElement>),
}

impl CodeWrappable for SyntaxElement {}

/// The element in the run at `i`.
pub open spec fn at(s: Seq<CodeWrap<SyntaxElement>>, i: int) -> SyntaxElement {
    *s[i].spec_item()
}

/// A binary operator stands at `i + 1`, between two elements.
pub open spec fn binop_at(s: Seq<CodeWrap<SyntaxElement>>, i: int) -> bool {
    0 <= i && i + 2 < s.len() && (at(s, i + 1) matches SyntaxElement::Token(t) && spec_is_binop(t@))
}

/// The first place at or after `i` where a binary operation stands.
pub open spec fn binop_from(s: Seq<CodeWrap<SyntaxElement>>, i: int) -> Option<int>
    decreases s.len() - i,
{
    if i < 0 || i + 2 >= s.len() {
        None
    } else if binop_at(s, i) {
        Some(i)
    } else {
        binop_from(s, i + 1)
    }
}

/// The operation made of the three elements at `i`.
pub open spec fn made_binop(s: Seq<CodeWrap<SyntaxElement>>, i: int) -> CodeWrap<SyntaxElement> {
    CodeWrap::CodeWrap(
        SyntaxElement::Binop(Box::new(at(s, i)), Box::new(at(s, i + 1)), Box::new(at(s, i + 2))),
        s[i].spec_start(),
        s[i + 2].spec_end(),
    )
}

/// How an element is shown: a token as it is written, an operation in
/// prefix form in parentheses.
pub open spec fn display(e: SyntaxElement) -> Seq<char>
    decreases e,
{
    match e {
        SyntaxElement::Token(t) => spec_token_text(t@),
        SyntaxElement::Binop(left, op, right) => "("@ + display(*op) + " "@ + display(*left) + " "@
            + display(*right) + ")"@,
    }
}

impl SyntaxElement {
    /// Makes the first binary operator with an element on each side one
    /// operation (the sides are taken as they are); whether it did. The run
    /// must hold two elements at least.
    pub fn reduce(elements: &mut Vec<CodeWrap<SyntaxElement>>) -> (r: bool)
        requires
            old(elements)@.len() >= 2,
        ensures
            match binop_from(old(elements)@, 0) {
                Some(i) => r && final(elements)@ == old(elements)@.subrange(0, i) + seq![
                    made_binop(old(elements)@, i),
                ] + old(elements)@.subrange(i + 3, old(elements)@.len() as int),
                None => !r && final(elements)@ == old(elements)@,
            },
    {
        let ghost s0 = elements@;
        let n = elements.len();
        let mut i: usize = 0;
        while i < n - 2
            invariant
                n == elements@.len(),
                n >= 2,
                s0 == elements@,
                s0 == old(elements)@,
                i <= n - 2,
                binop_from(s0, 0) == binop_from(s0, i as int),
            decreases n - 2 - i,
        {
            if SyntaxElement::can_reduce_to_binop(&elements[i + 1]) {
                assert(binop_from(s0, i as int) == Some(i as int));
                let CodeWrap::CodeWrap(left, start, _) = elements.remove(i);
                let CodeWrap::CodeWrap(op, _, _) = elements.remove(i);
                let CodeWrap::CodeWrap(right, _, end) = elements.remove(i);
                elements.insert(
                    i,
                    CodeWrap::CodeWrap(SyntaxElement::Binop(Box::new(left), Box::new(op), Box::new(right)), start, end),
                );
                assert(elements@ =~= s0.subrange(0, i as int) + seq![made_binop(s0, i as int)] + s0.subrange(
                    i + 3,
                    s0.len() as int,
                ));
                return true;
            }
            i = i + 1;
        }
        assert(binop_from(s0, i as int) is None);
        false
    }

    /// The element is a binary operator.
    fn can_reduce_to_binop(op: &CodeWrap<SyntaxElement>) -> (r: bool)
        ensures
            r == (*op.spec_item() matches SyntaxElement::Token(t) && spec_is_binop(t@)),
    {
        if let SyntaxElement::Token(token) = op.item() {
            return token.is_binop();
        }
        false
    }

    /// How the element is shown (see `display`).
    pub fn to_display_string(&self) -> (r: String)
        ensures
            r@ == display(*self),
        decreases self,
    {
        match self {
            SyntaxElement::Token(token) => token.text(),
            SyntaxElement::Binop(left, op, right) => {
                let mut s = "(".to_owned();
                push_str(&mut s, op.to_display_string().as_str());
                push_str(&mut s, " ");
                push_str(&mut s, left.to_display_string().as_str());
                push_str(&mut s, " ");
                push_str(&mut s, right.to_display_string().as_str());
                push_str(&mut s, ")");
                s
            },
        }
    }
}

} // verus!
