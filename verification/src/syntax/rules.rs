//! The patterns the syntax rules look for, and the one reduction they share:
//! find the first place where the pattern stands and replace the elements it
//! spans by the element they make.

use vstd::prelude::*;
use crate::codewrap::CodeWrap;
use crate::token::{Token, TokenView, spec_is_binop, spec_is_unop, spec_same_type, lua_unary_operator};
use crate::syntax::element::{SyntaxElement, is_token_of, spec_is_name, spec_is_var};
use crate::syntax::{Wrapped, replaced, SyntaxResult};

verus! {

/// The patterns of a fixed number of elements.
#[derive(Clone, Copy)]
pub enum Pattern {
    /// `Name`, which becomes a variable.
    Name,
    /// `prefixexp . Name`
    VarDot,
    /// `prefixexp [ exp ]`
    VarIndex,
    /// `exp binop exp`
    Binop,
    /// `unop exp`
    Unop,
    /// `varlist = explist`
    Assign,
    /// A variable, which becomes a prefix expression.
    VarPrefix,
    /// `( exp )`
    ParenExp,
    /// A table, which becomes an expression.
    TableExp,
    /// `[ exp ] = exp`, which becomes a field.
    FieldExpAssign,
    /// `Name = exp`, the name perhaps wrapped as a variable or expression,
    /// which becomes a field.
    FieldNameAssign,
    /// An expression, which becomes a field.
    FieldExp,
}

/// Somewhere down the chain of single wrappers of the element (expression,
/// prefix expression, variable) stands a variable.
pub open spec fn var_inside(e: SyntaxElement) -> bool
    decreases e,
{
    match e {
        SyntaxElement::Exp(inside) | SyntaxElement::PrefixExp(inside) | SyntaxElement::Var(inside) => {
            *inside is Var || var_inside(*inside)
        },
        _ => false,
    }
}

/// Whether a variable stands down the chain of single wrappers (see
/// `var_inside`).
pub fn find_var_inside(e: &SyntaxElement) -> (r: bool)
    ensures
        r == var_inside(*e),
    decreases e,
{
    match e.insides_single_only() {
        None => false,
        Some(other) => {
            if let SyntaxElement::Var(_) = other {
                true
            } else {
                find_var_inside(other)
            }
        },
    }
}

/// The number of elements a pattern spans.
pub open spec fn width(p: Pattern) -> int {
    match p {
        Pattern::Name => 1,
        Pattern::VarDot => 3,
        Pattern::VarIndex => 4,
        Pattern::Binop => 3,
        Pattern::Unop => 2,
        Pattern::Assign => 3,
        Pattern::VarPrefix => 1,
        Pattern::ParenExp => 3,
        Pattern::TableExp => 1,
        Pattern::FieldExpAssign => 5,
        Pattern::FieldNameAssign => 3,
        Pattern::FieldExp => 1,
    }
}

/// The element in the wrapper at `i`.
pub open spec fn at(s: Seq<Wrapped>, i: int) -> SyntaxElement {
    *s[i].spec_item()
}

/// The element is a token for which `f` holds.
pub open spec fn token_where(e: SyntaxElement, f: spec_fn(TokenView) -> bool) -> bool {
    e matches SyntaxElement::Token(t) && f(t@)
}

/// The pattern stands at `i`.
pub open spec fn pattern_at(p: Pattern, s: Seq<Wrapped>, i: int) -> bool {
    match p {
        Pattern::Name => spec_is_name(at(s, i)),
        Pattern::VarDot => at(s, i) is PrefixExp && is_token_of(at(s, i + 1), TokenView::Period)
            && spec_is_name(at(s, i + 2)),
        Pattern::VarIndex => at(s, i) is PrefixExp && is_token_of(at(s, i + 1), TokenView::LeftBracket)
            && at(s, i + 2) is Exp && is_token_of(at(s, i + 3), TokenView::RightBracket),
        Pattern::Binop => at(s, i) is Exp && token_where(at(s, i + 1), |t: TokenView| spec_is_binop(t))
            && at(s, i + 2) is Exp,
        Pattern::Unop => token_where(at(s, i), |t: TokenView| spec_is_unop(t)) && at(s, i + 1) is Exp,
        Pattern::Assign => at(s, i) is VarList && is_token_of(at(s, i + 1), TokenView::Equal) && at(
            s,
            i + 2,
        ) is ExpList,
        Pattern::VarPrefix => spec_is_var(at(s, i)),
        Pattern::ParenExp => is_token_of(at(s, i), TokenView::LeftParen) && at(s, i + 1) is Exp
            && is_token_of(at(s, i + 2), TokenView::RightParen),
        Pattern::TableExp => at(s, i) is TableConstructor,
        Pattern::FieldExpAssign => is_token_of(at(s, i), TokenView::LeftBracket) && at(s, i + 1) is Exp
            && is_token_of(at(s, i + 2), TokenView::RightBracket) && is_token_of(
            at(s, i + 3),
            TokenView::Equal,
        ) && at(s, i + 4) is Exp,
        Pattern::FieldNameAssign => (spec_is_name(at(s, i)) || var_inside(at(s, i))) && is_token_of(
            at(s, i + 1),
            TokenView::Equal,
        ) && at(s, i + 2) is Exp,
        Pattern::FieldExp => at(s, i) is Exp,
    }
}

/// The element (and its span) a pattern at `i` becomes.
pub open spec fn built(p: Pattern, s: Seq<Wrapped>, i: int) -> Wrapped {
    match p {
        Pattern::Name => CodeWrap::CodeWrap(
            SyntaxElement::Var(Box::new(at(s, i))),
            s[i].spec_start(),
            s[i].spec_end(),
        ),
        Pattern::VarDot => CodeWrap::CodeWrap(
            SyntaxElement::VarDot(Box::new(at(s, i)), Box::new(at(s, i + 2))),
            s[i].spec_start(),
            s[i + 2].spec_end(),
        ),
        Pattern::VarIndex => CodeWrap::CodeWrap(
            SyntaxElement::VarIndex(Box::new(at(s, i)), Box::new(at(s, i + 2))),
            s[i].spec_start(),
            s[i + 2].spec_end(),
        ),
        Pattern::Binop => CodeWrap::CodeWrap(
            SyntaxElement::Exp(
                Box::new(
                    SyntaxElement::Binop(
                        Box::new(at(s, i)),
                        Box::new(at(s, i + 1)),
                        Box::new(at(s, i + 2)),
                    ),
                ),
            ),
            s[i].spec_start(),
            s[i + 2].spec_end(),
        ),
        Pattern::Unop => CodeWrap::CodeWrap(
            SyntaxElement::Exp(
                Box::new(SyntaxElement::Unop(Box::new(at(s, i)), Box::new(at(s, i + 1)))),
            ),
            s[i].spec_start(),
            s[i + 1].spec_end(),
        ),
        Pattern::Assign => CodeWrap::CodeWrap(
            SyntaxElement::StatementAssign(Box::new(at(s, i)), Box::new(at(s, i + 2))),
            s[i].spec_start(),
            s[i + 2].spec_end(),
        ),
        Pattern::VarPrefix => CodeWrap::CodeWrap(
            SyntaxElement::PrefixExp(Box::new(at(s, i))),
            s[i].spec_start(),
            s[i].spec_end(),
        ),
        Pattern::ParenExp => CodeWrap::CodeWrap(
            SyntaxElement::PrefixExp(Box::new(at(s, i + 1))),
            s[i].spec_start(),
            s[i + 2].spec_end(),
        ),
        Pattern::TableExp => CodeWrap::CodeWrap(
            SyntaxElement::Exp(Box::new(at(s, i))),
            s[i].spec_end(),
            s[i].spec_end(),
        ),
        Pattern::FieldExpAssign => CodeWrap::CodeWrap(
            SyntaxElement::FieldAssignment(Box::new(at(s, i + 1)), Box::new(at(s, i + 4))),
            s[i].spec_start(),
            s[i + 4].spec_end(),
        ),
        Pattern::FieldNameAssign => CodeWrap::CodeWrap(
            SyntaxElement::FieldAssignment(Box::new(at(s, i)), Box::new(at(s, i + 2))),
            s[i].spec_start(),
            s[i + 2].spec_end(),
        ),
        Pattern::FieldExp => CodeWrap::CodeWrap(
            SyntaxElement::Field(Box::new(at(s, i))),
            s[i].spec_start(),
            s[i].spec_end(),
        ),
    }
}

/// The first place at or after `i` where the pattern stands.
pub open spec fn pattern_from(p: Pattern, s: Seq<Wrapped>, i: int) -> Option<int>
    decreases s.len() - i,
{
    if i < 0 || i + width(p) > s.len() {
        None
    } else if pattern_at(p, s, i) {
        Some(i)
    } else {
        pattern_from(p, s, i + 1)
    }
}

/// The run with the first occurrence of the pattern reduced, if there is one.
pub open spec fn rule(p: Pattern, s: Seq<Wrapped>) -> Option<Seq<Wrapped>> {
    match pattern_from(p, s, 0) {
        Some(i) => Some(replaced(s, i, width(p), built(p, s, i))),
        None => None,
    }
}

/// Where a pattern is found, it fits in the run.
pub proof fn lemma_pattern_from(p: Pattern, s: Seq<Wrapped>, i: int)
    ensures
        pattern_from(p, s, i) matches Some(j) ==> i <= j && 0 <= j && j + width(p) <= s.len()
            && pattern_at(p, s, j),
    decreases s.len() - i,
{
    if !(i < 0 || i + width(p) > s.len()) && !pattern_at(p, s, i) {
        lemma_pattern_from(p, s, i + 1);
    }
}

/// A unary operator and an expression become one expression that applies
/// the operator (the element that stood first) to the expression (the one
/// that stood second), spanning both.
pub proof fn law_unop_reduces_in_order(op: Wrapped, e: Wrapped)
    requires
        *op.spec_item() matches SyntaxElement::Token(t) && lua_unary_operator(t@),
        *e.spec_item() is Exp,
    ensures
        rule(Pattern::Unop, seq![op, e]) == Some(
            seq![
                CodeWrap::CodeWrap(
                    SyntaxElement::Exp(
                        Box::new(
                            SyntaxElement::Unop(Box::new(*op.spec_item()), Box::new(*e.spec_item())),
                        ),
                    ),
                    op.spec_start(),
                    e.spec_end(),
                ),
            ],
        ),
{
    let s = seq![op, e];
    crate::token::law_operators_are_lua_operators(op.spec_item()->Token_0@);
    assert(pattern_at(Pattern::Unop, s, 0));
    assert(pattern_from(Pattern::Unop, s, 0) == Some(0int));
    assert(replaced(s, 0, 2, built(Pattern::Unop, s, 0)) =~= seq![built(Pattern::Unop, s, 0)]);
}

/// `prefixexp . Name` becomes a variable that looks the name (the element
/// that stood last) up in the prefix expression (the one that stood first),
/// spanning all three.
pub proof fn law_var_dot_reduces_in_order(prefix: Wrapped, dot: Wrapped, name: Wrapped)
    requires
        *prefix.spec_item() is PrefixExp,
        is_token_of(*dot.spec_item(), TokenView::Period),
        spec_is_name(*name.spec_item()),
    ensures
        rule(Pattern::VarDot, seq![prefix, dot, name]) == Some(
            seq![
                CodeWrap::CodeWrap(
                    SyntaxElement::VarDot(Box::new(*prefix.spec_item()), Box::new(*name.spec_item())),
                    prefix.spec_start(),
                    name.spec_end(),
                ),
            ],
        ),
{
    let s = seq![prefix, dot, name];
    assert(pattern_at(Pattern::VarDot, s, 0));
    assert(pattern_from(Pattern::VarDot, s, 0) == Some(0int));
    assert(replaced(s, 0, 3, built(Pattern::VarDot, s, 0)) =~= seq![built(Pattern::VarDot, s, 0)]);
}

/// `varlist = explist` becomes an assignment of the expressions (the
/// element that stood last) to the variables (the one that stood first),
/// spanning all three.
pub proof fn law_assign_reduces_in_order(vars: Wrapped, eq: Wrapped, exps: Wrapped)
    requires
        *vars.spec_item() is VarList,
        is_token_of(*eq.spec_item(), TokenView::Equal),
        *exps.spec_item() is ExpList,
    ensures
        rule(Pattern::Assign, seq![vars, eq, exps]) == Some(
            seq![
                CodeWrap::CodeWrap(
                    SyntaxElement::StatementAssign(Box::new(*vars.spec_item()), Box::new(*exps.spec_item())),
                    vars.spec_start(),
                    exps.spec_end(),
                ),
            ],
        ),
{
    let s = seq![vars, eq, exps];
    assert(pattern_at(Pattern::Assign, s, 0));
    assert(pattern_from(Pattern::Assign, s, 0) == Some(0int));
    assert(replaced(s, 0, 3, built(Pattern::Assign, s, 0)) =~= seq![built(Pattern::Assign, s, 0)]);
}

/// The element is a token for which the check holds.
fn token_is(e: &SyntaxElement, binop: bool) -> (r: bool)
    ensures
        r == if binop {
            token_where(*e, |t: TokenView| spec_is_binop(t))
        } else {
            token_where(*e, |t: TokenView| spec_is_unop(t))
        },
{
    match e {
        SyntaxElement::Token(t) => if binop {
            t.is_binop()
        } else {
            t.is_unop()
        },
        _ => false,
    }
}

/// The pattern stands at `i` of the run.
fn matches_at(elements: &Vec<Wrapped>, p: Pattern, i: usize) -> (r: bool)
    requires
        i + width(p) <= elements@.len(),
    ensures
        r == pattern_at(p, elements@, i as int),
{
    let n = elements.len();
    match p {
        Pattern::Name => elements[i].item().is_name(),
        Pattern::VarDot => elements[i].item().is_prefix_exp() && elements[i + 1].item().does_match_token(
            Token::Period,
        ) && elements[i + 2].item().is_name(),
        Pattern::VarIndex => elements[i].item().is_prefix_exp() && elements[i
            + 1].item().does_match_token(Token::LeftBracket) && elements[i + 2].item().is_exp()
            && elements[i + 3].item().does_match_token(Token::RightBracket),
        Pattern::Binop => elements[i].item().is_exp() && token_is(elements[i + 1].item(), true)
            && elements[i + 2].item().is_exp(),
        Pattern::Unop => token_is(elements[i].item(), false) && elements[i + 1].item().is_exp(),
        Pattern::Assign => elements[i].item().is_var_list() && elements[i + 1].item().does_match_token(
            Token::Equal,
        ) && elements[i + 2].item().is_exp_list(),
        Pattern::VarPrefix => elements[i].item().is_var(),
        Pattern::ParenExp => elements[i].item().does_match_token(Token::LeftParen) && elements[i
            + 1].item().is_exp() && elements[i + 2].item().does_match_token(Token::RightParen),
        Pattern::TableExp => elements[i].item().is_table(),
        Pattern::FieldExpAssign => elements[i].item().does_match_token(Token::LeftBracket)
            && elements[i + 1].item().is_exp() && elements[i + 2].item().does_match_token(
            Token::RightBracket,
        ) && elements[i + 3].item().does_match_token(Token::Equal) && elements[i + 4].item().is_exp(),
        Pattern::FieldNameAssign => (elements[i].item().is_name() || find_var_inside(elements[i].item()))
            && elements[i + 1].item().does_match_token(Token::Equal) && elements[i + 2].item().is_exp(),
        Pattern::FieldExp => elements[i].item().is_exp(),
    }
}

/// Takes `w` wrapped elements out of the run at `i`, in order.
fn take_out(elements: &mut Vec<Wrapped>, i: usize, w: usize) -> (r: Vec<Wrapped>)
    requires
        i + w <= old(elements)@.len(),
    ensures
        r@ == old(elements)@.subrange(i as int, i + w),
        final(elements)@ == old(elements)@.subrange(0, i as int) + old(elements)@.subrange(
            i + w,
            old(elements)@.len() as int,
        ),
{
    let ghost s0 = elements@;
    let mut taken: Vec<Wrapped> = Vec::new();
    let mut k: usize = 0;
    while k < w
        invariant
            k <= w,
            i + w <= s0.len(),
            taken@ == s0.subrange(i as int, i + k),
            elements@ == s0.subrange(0, i as int) + s0.subrange(i + k, s0.len() as int),
        decreases w - k,
    {
        let e = elements.remove(i);
        taken.push(e);
        proof {
            assert(taken@ =~= s0.subrange(i as int, i + k + 1));
            assert(elements@ =~= s0.subrange(0, i as int) + s0.subrange(i + k + 1, s0.len() as int));
        }
        k = k + 1;
    }
    taken
}

/// The element a pattern becomes, made from the elements it spans.
fn build(p: Pattern, taken: Vec<Wrapped>) -> (r: Wrapped)
    requires
        taken@.len() == width(p),
    ensures
        r == built(p, taken@, 0),
{
    let ghost s = taken@;
    let mut t = taken;
    match p {
        Pattern::Name => {
            let CodeWrap::CodeWrap(token, start, end) = t.remove(0);
            CodeWrap::CodeWrap(SyntaxElement::Var(Box::new(token)), start, end)
        },
        Pattern::VarDot => {
            let CodeWrap::CodeWrap(prefixexp, start, _) = t.remove(0);
            let _dot = t.remove(0);
            let CodeWrap::CodeWrap(name, _, end) = t.remove(0);
            CodeWrap::CodeWrap(SyntaxElement::VarDot(Box::new(prefixexp), Box::new(name)), start, end)
        },
        Pattern::VarIndex => {
            let CodeWrap::CodeWrap(prefixexp, start, _) = t.remove(0);
            let _left = t.remove(0);
            let CodeWrap::CodeWrap(exp, _, end) = t.remove(0);
            let _right = t.remove(0);
            CodeWrap::CodeWrap(SyntaxElement::VarIndex(Box::new(prefixexp), Box::new(exp)), start, end)
        },
        Pattern::Binop => {
            let CodeWrap::CodeWrap(left, start, _) = t.remove(0);
            let CodeWrap::CodeWrap(op, _, _) = t.remove(0);
            let CodeWrap::CodeWrap(right, _, end) = t.remove(0);
            let new_op = SyntaxElement::Binop(Box::new(left), Box::new(op), Box::new(right));
            CodeWrap::CodeWrap(SyntaxElement::Exp(Box::new(new_op)), start, end)
        },
        Pattern::Unop => {
            let CodeWrap::CodeWrap(op, start, _) = t.remove(0);
            let CodeWrap::CodeWrap(right, _, end) = t.remove(0);
            let new_op = SyntaxElement::Unop(Box::new(op), Box::new(right));
            CodeWrap::CodeWrap(SyntaxElement::Exp(Box::new(new_op)), start, end)
        },
        Pattern::Assign => {
            let CodeWrap::CodeWrap(v_list, start, _) = t.remove(0);
            let _eq = t.remove(0);
            let CodeWrap::CodeWrap(e_list, _, end) = t.remove(0);
            CodeWrap::CodeWrap(
                SyntaxElement::StatementAssign(Box::new(v_list), Box::new(e_list)),
                start,
                end,
            )
        },
        Pattern::VarPrefix => {
            let CodeWrap::CodeWrap(element, start, end) = t.remove(0);
            CodeWrap::CodeWrap(SyntaxElement::PrefixExp(Box::new(element)), start, end)
        },
        Pattern::ParenExp => {
            let CodeWrap::CodeWrap(_, start, _) = t.remove(0);
            let CodeWrap::CodeWrap(exp, _, _) = t.remove(0);
            let CodeWrap::CodeWrap(_, _, end) = t.remove(0);
            CodeWrap::CodeWrap(SyntaxElement::PrefixExp(Box::new(exp)), start, end)
        },
        Pattern::TableExp => {
            let CodeWrap::CodeWrap(table, _, code_end) = t.remove(0);
            CodeWrap::CodeWrap(SyntaxElement::Exp(Box::new(table)), code_end, code_end)
        },
        Pattern::FieldExpAssign => {
            let CodeWrap::CodeWrap(_, code_start, _) = t.remove(0);
            let CodeWrap::CodeWrap(exp1, _, _) = t.remove(0);
            let _right = t.remove(0);
            let _eq = t.remove(0);
            let CodeWrap::CodeWrap(exp2, _, code_end) = t.remove(0);
            CodeWrap::CodeWrap(
                SyntaxElement::FieldAssignment(Box::new(exp1), Box::new(exp2)),
                code_start,
                code_end,
            )
        },
        Pattern::FieldNameAssign => {
            let CodeWrap::CodeWrap(name, code_start, _) = t.remove(0);
            let _eq = t.remove(0);
            let CodeWrap::CodeWrap(exp, _, code_end) = t.remove(0);
            CodeWrap::CodeWrap(
                SyntaxElement::FieldAssignment(Box::new(name), Box::new(exp)),
                code_start,
                code_end,
            )
        },
        Pattern::FieldExp => {
            let CodeWrap::CodeWrap(expression, s, e) = t.remove(0);
            CodeWrap::CodeWrap(SyntaxElement::Field(Box::new(expression)), s, e)
        },
    }
}

/// Reduces the first occurrence of the pattern, if there is one.
pub fn reduce(elements: &mut Vec<Wrapped>, p: Pattern) -> (r: bool)
    ensures
        match rule(p, old(elements)@) {
            Some(s2) => r && final(elements)@ == s2,
            None => !r && final(elements)@ == old(elements)@,
        },
{
    let ghost s0 = elements@;
    let n = elements.len();
    let w: usize = match p {
        Pattern::Name => 1,
        Pattern::VarDot => 3,
        Pattern::VarIndex => 4,
        Pattern::Binop => 3,
        Pattern::Unop => 2,
        Pattern::Assign => 3,
        Pattern::VarPrefix => 1,
        Pattern::ParenExp => 3,
        Pattern::TableExp => 1,
        Pattern::FieldExpAssign => 5,
        Pattern::FieldNameAssign => 3,
        Pattern::FieldExp => 1,
    };
    if n < w {
        return false;
    }
    let mut i: usize = 0;
    while i <= n - w
        invariant
            n == elements@.len(),
            w == width(p),
            w <= n,
            s0 == elements@,
            s0 == old(elements)@,
            pattern_from(p, s0, 0) == pattern_from(p, s0, i as int),
        decreases n + 1 - i,
    {
        if matches_at(elements, p, i) {
            assert(pattern_from(p, s0, i as int) == Some(i as int));
            let taken = take_out(elements, i, w);
            let new = build(p, taken);
            assert(new == built(p, s0, i as int)) by {
                assert(taken@ =~= s0.subrange(i as int, i + w));
            }
            let ghost before = elements@;
            elements.insert(i, new);
            proof {
                assert(elements@ =~= replaced(s0, i as int, w as int, new));
            }
            return true;
        }
        assert(pattern_from(p, s0, i as int) == pattern_from(p, s0, i + 1));
        i = i + 1;
    }
    assert(pattern_from(p, s0, i as int) is None);
    false
}

// ---- literal tokens becoming expressions ---------------------------------

/// The element is a token of the same kind as `t`.
pub open spec fn same_kind_token(e: SyntaxElement, t: TokenView) -> bool {
    e matches SyntaxElement::Token(tok) && spec_same_type(t, tok@)
}

/// The first place at or after `i` holding a token of the same kind as `t`.
pub open spec fn kind_from(t: TokenView, s: Seq<Wrapped>, i: int) -> Option<int>
    decreases s.len() - i,
{
    if i < 0 || i >= s.len() {
        None
    } else if same_kind_token(at(s, i), t) {
        Some(i)
    } else {
        kind_from(t, s, i + 1)
    }
}

/// The run with the first token of the same kind as `t` wrapped as an
/// expression, if there is one.
pub open spec fn token_rule(t: TokenView, s: Seq<Wrapped>) -> Option<Seq<Wrapped>> {
    match kind_from(t, s, 0) {
        Some(i) => Some(
            replaced(
                s,
                i,
                1,
                CodeWrap::CodeWrap(
                    SyntaxElement::Exp(Box::new(at(s, i))),
                    s[i].spec_start(),
                    s[i].spec_end(),
                ),
            ),
        ),
        None => None,
    }
}

/// Wraps the first token of the same kind as `check_token` as an
/// expression.
pub fn reduce_token(elements: &mut Vec<Wrapped>, check_token: Token) -> (r: bool)
    ensures
        match token_rule(check_token@, old(elements)@) {
            Some(s2) => r && final(elements)@ == s2,
            None => !r && final(elements)@ == old(elements)@,
        },
{
    let ghost s0 = elements@;
    let n = elements.len();
    let mut i: usize = 0;
    while i < n
        invariant
            n == elements@.len(),
            s0 == elements@,
            s0 == old(elements)@,
            i <= n,
            kind_from(check_token@, s0, 0) == kind_from(check_token@, s0, i as int),
        decreases n - i,
    {
        let found = match elements[i].item() {
            SyntaxElement::Token(token) => check_token.is_same_type(token),
            _ => false,
        };
        if found {
            assert(kind_from(check_token@, s0, i as int) == Some(i as int));
            let CodeWrap::CodeWrap(token, start, end) = elements.remove(i);
            elements.insert(i, CodeWrap::CodeWrap(SyntaxElement::Exp(Box::new(token)), start, end));
            proof {
                assert(elements@ =~= replaced(
                    s0,
                    i as int,
                    1,
                    CodeWrap::CodeWrap(
                        SyntaxElement::Exp(Box::new(at(s0, i as int))),
                        s0[i as int].spec_start(),
                        s0[i as int].spec_end(),
                    ),
                ));
            }
            return true;
        }
        i = i + 1;
    }
    false
}

// ---- stages: rules applied until none applies ----------------------------

/// The groups of rules applied together.
#[derive(Clone, Copy)]
pub enum Stage {
    /// `prefixexp [ exp ]`, `prefixexp . Name`, `Name`.
    Var,
    /// Literal tokens, `exp binop exp`, `unop exp`.
    Exp,
    /// `varlist = explist`.
    Statement,
    /// A variable, `( exp )`.
    PrefixExp,
    /// `[ exp ] = exp`, `Name = exp`, `exp`, each becoming a field.
    Field,
}

/// The first of a few outcomes that is something.
pub open spec fn first_of(a: Option<Seq<Wrapped>>, b: Option<Seq<Wrapped>>) -> Option<Seq<Wrapped>> {
    match a {
        Some(x) => Some(x),
        None => b,
    }
}

/// One step of a stage: its first rule, in order, that applies.
pub open spec fn stage_step(k: Stage, s: Seq<Wrapped>) -> Option<Seq<Wrapped>> {
    match k {
        Stage::Var => first_of(
            rule(Pattern::VarIndex, s),
            first_of(rule(Pattern::VarDot, s), rule(Pattern::Name, s)),
        ),
        Stage::Exp => first_of(
            token_rule(TokenView::Nil, s),
            first_of(
                token_rule(TokenView::False, s),
                first_of(
                    token_rule(TokenView::True, s),
                    first_of(
                        token_rule(TokenView::Number(Seq::empty()), s),
                        first_of(
                            token_rule(TokenView::TriplePeriod, s),
                            first_of(rule(Pattern::Binop, s), rule(Pattern::Unop, s)),
                        ),
                    ),
                ),
            ),
        ),
        Stage::Statement => rule(Pattern::Assign, s),
        Stage::PrefixExp => first_of(rule(Pattern::VarPrefix, s), rule(Pattern::ParenExp, s)),
        Stage::Field => first_of(
            rule(Pattern::FieldExpAssign, s),
            first_of(rule(Pattern::FieldNameAssign, s), rule(Pattern::FieldExp, s)),
        ),
    }
}

/// The element counts toward the stage's measure: what a step turns into
/// something else without shortening the run.
pub open spec fn counted(k: Stage, e: SyntaxElement) -> bool {
    match k {
        Stage::Var => spec_is_name(e),
        Stage::Exp => same_kind_token(e, TokenView::Nil) || same_kind_token(e, TokenView::False)
            || same_kind_token(e, TokenView::True) || same_kind_token(e, TokenView::Number(Seq::empty()))
            || same_kind_token(e, TokenView::TriplePeriod),
        Stage::Statement => false,
        Stage::PrefixExp => spec_is_var(e),
        Stage::Field => e is Exp,
    }
}

/// The number of counted elements in the run.
pub open spec fn count(k: Stage, s: Seq<Wrapped>) -> nat
    decreases s.len(),
{
    if s.len() == 0 {
        0
    } else {
        count(k, s.drop_last()) + if counted(k, at(s, s.len() - 1)) {
            1nat
        } else {
            0nat
        }
    }
}

/// What each step of a stage makes smaller.
pub open spec fn measure(k: Stage, s: Seq<Wrapped>) -> nat {
    s.len() + count(k, s)
}

/// Counting is additive over joined runs.
pub proof fn lemma_count_add(k: Stage, a: Seq<Wrapped>, b: Seq<Wrapped>)
    ensures
        count(k, a + b) == count(k, a) + count(k, b),
    decreases b.len(),
{
    if b.len() > 0 {
        lemma_count_add(k, a, b.drop_last());
        assert((a + b).drop_last() =~= a + b.drop_last());
    }
}

/// The count of a run with a part replaced.
pub proof fn lemma_count_replaced(k: Stage, s: Seq<Wrapped>, i: int, w: int, new: Wrapped)
    requires
        0 <= i,
        0 < w,
        i + w <= s.len(),
    ensures
        count(k, replaced(s, i, w, new)) + count(k, s.subrange(i, i + w)) == count(k, s) + count(
            k,
            seq![new],
        ),
{
    let a = s.subrange(0, i);
    let m = s.subrange(i, i + w);
    let b = s.subrange(i + w, s.len() as int);
    lemma_count_add(k, a, seq![new]);
    lemma_count_add(k, a + seq![new], b);
    lemma_count_add(k, a, m);
    lemma_count_add(k, a + m, b);
    assert(s =~= a + m + b);
}

/// Where a token of the kind is found, it is in the run.
pub proof fn lemma_kind_from(t: TokenView, s: Seq<Wrapped>, i: int)
    ensures
        kind_from(t, s, i) matches Some(j) ==> i <= j && 0 <= j < s.len() && same_kind_token(at(s, j), t),
    decreases s.len() - i,
{
    if !(i < 0 || i >= s.len()) && !same_kind_token(at(s, i), t) {
        lemma_kind_from(t, s, i + 1);
    }
}

/// A pattern's reduction, counted: the new run is `width - 1` shorter, and
/// its count trades the window's for the new element's.
pub proof fn lemma_rule_count(k: Stage, p: Pattern, s: Seq<Wrapped>)
    requires
        rule(p, s) is Some,
    ensures
        ({
            let i = pattern_from(p, s, 0)->0;
            let t = rule(p, s)->0;
            &&& 0 <= i
            &&& i + width(p) <= s.len()
            &&& pattern_at(p, s, i)
            &&& t.len() == s.len() - width(p) + 1
            &&& count(k, t) + count(k, s.subrange(i, i + width(p))) == count(k, s) + count(
                k,
                seq![built(p, s, i)],
            )
        }),
{
    lemma_pattern_from(p, s, 0);
    let i = pattern_from(p, s, 0)->0;
    lemma_count_replaced(k, s, i, width(p), built(p, s, i));
}

/// A literal token's wrapping, counted.
pub proof fn lemma_token_rule_count(k: Stage, t: TokenView, s: Seq<Wrapped>)
    requires
        token_rule(t, s) is Some,
    ensures
        ({
            let i = kind_from(t, s, 0)->0;
            let r = token_rule(t, s)->0;
            &&& 0 <= i < s.len()
            &&& same_kind_token(at(s, i), t)
            &&& r.len() == s.len()
            &&& count(k, r) + count(k, s.subrange(i, i + 1)) == count(k, s) + count(
                k,
                seq![
                    CodeWrap::CodeWrap(
                        SyntaxElement::Exp(Box::new(at(s, i))),
                        s[i].spec_start(),
                        s[i].spec_end(),
                    ),
                ],
            )
        }),
{
    lemma_kind_from(t, s, 0);
    let i = kind_from(t, s, 0)->0;
    lemma_count_replaced(
        k,
        s,
        i,
        1,
        CodeWrap::CodeWrap(SyntaxElement::Exp(Box::new(at(s, i))), s[i].spec_start(), s[i].spec_end()),
    );
}

/// The count of one element.
pub proof fn lemma_count_one(k: Stage, e: Wrapped)
    ensures
        count(k, seq![e]) == if counted(k, *e.spec_item()) {
            1nat
        } else {
            0nat
        },
{
    reveal_with_fuel(count, 2);
    assert(seq![e].drop_last() =~= Seq::<Wrapped>::empty());
}

/// Each step of a stage makes its measure smaller.
pub proof fn lemma_stage_decreases(k: Stage, s: Seq<Wrapped>)
    ensures
        stage_step(k, s) matches Some(t) ==> measure(k, t) < measure(k, s),
{
    match k {
        Stage::Var => {
            if let Some(_) = rule(Pattern::VarIndex, s) {
                lemma_rule_count(k, Pattern::VarIndex, s);
                lemma_count_one(k, built(Pattern::VarIndex, s, pattern_from(Pattern::VarIndex, s, 0)->0));
            } else if let Some(_) = rule(Pattern::VarDot, s) {
                lemma_rule_count(k, Pattern::VarDot, s);
                lemma_count_one(k, built(Pattern::VarDot, s, pattern_from(Pattern::VarDot, s, 0)->0));
            } else if let Some(_) = rule(Pattern::Name, s) {
                lemma_rule_count(k, Pattern::Name, s);
                let i = pattern_from(Pattern::Name, s, 0)->0;
                lemma_count_one(k, built(Pattern::Name, s, i));
                lemma_count_one(k, s[i]);
                assert(s.subrange(i, i + 1) =~= seq![s[i]]);
            }
        },
        Stage::Exp => {
            if let Some(_) = token_rule(TokenView::Nil, s) {
                lemma_token_rule_count(k, TokenView::Nil, s);
                let i = kind_from(TokenView::Nil, s, 0)->0;
                lemma_count_one(k, s[i]);
                assert(s.subrange(i, i + 1) =~= seq![s[i]]);
                lemma_count_one(k, CodeWrap::CodeWrap(SyntaxElement::Exp(Box::new(at(s, i))), s[i].spec_start(), s[i].spec_end()));
            } else if let Some(_) = token_rule(TokenView::False, s) {
                lemma_token_rule_count(k, TokenView::False, s);
                let i = kind_from(TokenView::False, s, 0)->0;
                lemma_count_one(k, s[i]);
                assert(s.subrange(i, i + 1) =~= seq![s[i]]);
                lemma_count_one(k, CodeWrap::CodeWrap(SyntaxElement::Exp(Box::new(at(s, i))), s[i].spec_start(), s[i].spec_end()));
            } else if let Some(_) = token_rule(TokenView::True, s) {
                lemma_token_rule_count(k, TokenView::True, s);
                let i = kind_from(TokenView::True, s, 0)->0;
                lemma_count_one(k, s[i]);
                assert(s.subrange(i, i + 1) =~= seq![s[i]]);
                lemma_count_one(k, CodeWrap::CodeWrap(SyntaxElement::Exp(Box::new(at(s, i))), s[i].spec_start(), s[i].spec_end()));
            } else if let Some(_) = token_rule(TokenView::Number(Seq::empty()), s) {
                lemma_token_rule_count(k, TokenView::Number(Seq::empty()), s);
                let i = kind_from(TokenView::Number(Seq::empty()), s, 0)->0;
                lemma_count_one(k, s[i]);
                assert(s.subrange(i, i + 1) =~= seq![s[i]]);
                lemma_count_one(k, CodeWrap::CodeWrap(SyntaxElement::Exp(Box::new(at(s, i))), s[i].spec_start(), s[i].spec_end()));
            } else if let Some(_) = token_rule(TokenView::TriplePeriod, s) {
                lemma_token_rule_count(k, TokenView::TriplePeriod, s);
                let i = kind_from(TokenView::TriplePeriod, s, 0)->0;
                lemma_count_one(k, s[i]);
                assert(s.subrange(i, i + 1) =~= seq![s[i]]);
                lemma_count_one(k, CodeWrap::CodeWrap(SyntaxElement::Exp(Box::new(at(s, i))), s[i].spec_start(), s[i].spec_end()));
            } else if let Some(_) = rule(Pattern::Binop, s) {
                lemma_rule_count(k, Pattern::Binop, s);
                lemma_count_one(k, built(Pattern::Binop, s, pattern_from(Pattern::Binop, s, 0)->0));
            } else if let Some(_) = rule(Pattern::Unop, s) {
                lemma_rule_count(k, Pattern::Unop, s);
                lemma_count_one(k, built(Pattern::Unop, s, pattern_from(Pattern::Unop, s, 0)->0));
            }
        },
        Stage::Statement => {
            if let Some(_) = rule(Pattern::Assign, s) {
                lemma_rule_count(k, Pattern::Assign, s);
                lemma_count_one(k, built(Pattern::Assign, s, pattern_from(Pattern::Assign, s, 0)->0));
            }
        },
        Stage::PrefixExp => {
            if let Some(_) = rule(Pattern::VarPrefix, s) {
                lemma_rule_count(k, Pattern::VarPrefix, s);
                let i = pattern_from(Pattern::VarPrefix, s, 0)->0;
                lemma_count_one(k, built(Pattern::VarPrefix, s, i));
                lemma_count_one(k, s[i]);
                assert(s.subrange(i, i + 1) =~= seq![s[i]]);
            } else if let Some(_) = rule(Pattern::ParenExp, s) {
                lemma_rule_count(k, Pattern::ParenExp, s);
                lemma_count_one(k, built(Pattern::ParenExp, s, pattern_from(Pattern::ParenExp, s, 0)->0));
            }
        },
        Stage::Field => {
            if let Some(_) = rule(Pattern::FieldExpAssign, s) {
                lemma_rule_count(k, Pattern::FieldExpAssign, s);
                lemma_count_one(k, built(Pattern::FieldExpAssign, s, pattern_from(Pattern::FieldExpAssign, s, 0)->0));
            } else if let Some(_) = rule(Pattern::FieldNameAssign, s) {
                lemma_rule_count(k, Pattern::FieldNameAssign, s);
                lemma_count_one(k, built(Pattern::FieldNameAssign, s, pattern_from(Pattern::FieldNameAssign, s, 0)->0));
            } else if let Some(_) = rule(Pattern::FieldExp, s) {
                lemma_rule_count(k, Pattern::FieldExp, s);
                let i = pattern_from(Pattern::FieldExp, s, 0)->0;
                lemma_count_one(k, built(Pattern::FieldExp, s, i));
                lemma_count_one(k, s[i]);
                assert(s.subrange(i, i + 1) =~= seq![s[i]]);
            }
        },
    }
}

/// A stage run for at most `fuel` steps: the run when no step applies any
/// more, or `None` when more steps are needed.
pub open spec fn stage_run(k: Stage, s: Seq<Wrapped>, fuel: nat) -> Option<Seq<Wrapped>>
    decreases fuel,
{
    if fuel == 0 {
        None
    } else {
        match stage_step(k, s) {
            None => Some(s),
            Some(t) => stage_run(k, t, (fuel - 1) as nat),
        }
    }
}

/// The run when no step of the stage applies any more.
pub open spec fn stage_outcome(k: Stage, s: Seq<Wrapped>) -> Seq<Wrapped> {
    stage_run(k, s, measure(k, s) + 1)->0
}

/// A stage run that comes to an end gives the same with more steps.
pub proof fn lemma_stage_run_more(k: Stage, s: Seq<Wrapped>, f: nat, g: nat)
    requires
        stage_run(k, s, f) is Some,
        f <= g,
    ensures
        stage_run(k, s, g) == stage_run(k, s, f),
    decreases f,
{
    if f > 0 {
        if let Some(t) = stage_step(k, s) {
            lemma_stage_run_more(k, t, (f - 1) as nat, (g - 1) as nat);
        }
    }
}

/// A stage always comes to an end: its measure bounds the steps.
pub proof fn lemma_stage_run_ends(k: Stage, s: Seq<Wrapped>)
    ensures
        stage_run(k, s, measure(k, s) + 1) is Some,
    decreases measure(k, s),
{
    if let Some(t) = stage_step(k, s) {
        lemma_stage_decreases(k, s);
        lemma_stage_run_ends(k, t);
        lemma_stage_run_more(k, t, measure(k, t) + 1, measure(k, s));
    }
}

/// A step does not change where the stage ends.
pub proof fn lemma_stage_outcome_step(k: Stage, s: Seq<Wrapped>, t: Seq<Wrapped>)
    requires
        stage_step(k, s) == Some(t),
    ensures
        stage_outcome(k, s) == stage_outcome(k, t),
{
    lemma_stage_decreases(k, s);
    lemma_stage_run_ends(k, t);
    lemma_stage_run_more(k, t, measure(k, t) + 1, measure(k, s));
}

/// One step of the stage, if one applies.
fn step(elements: &mut Vec<Wrapped>, k: Stage) -> (r: bool)
    ensures
        match stage_step(k, old(elements)@) {
            Some(t) => r && final(elements)@ == t,
            None => !r && final(elements)@ == old(elements)@,
        },
{
    match k {
        Stage::Var => reduce(elements, Pattern::VarIndex) || reduce(elements, Pattern::VarDot)
            || reduce(elements, Pattern::Name),
        Stage::Exp => reduce_token(elements, Token::Nil) || reduce_token(elements, Token::False)
            || reduce_token(elements, Token::True) || reduce_token(
            elements,
            Token::Number(String::new()),
        ) || reduce_token(elements, Token::TriplePeriod) || reduce(elements, Pattern::Binop)
            || reduce(elements, Pattern::Unop),
        Stage::Statement => reduce(elements, Pattern::Assign),
        Stage::PrefixExp => reduce(elements, Pattern::VarPrefix) || reduce(elements, Pattern::ParenExp),
        Stage::Field => reduce(elements, Pattern::FieldExpAssign) || reduce(
            elements,
            Pattern::FieldNameAssign,
        ) || reduce(elements, Pattern::FieldExp),
    }
}

/// Applies the stage's rules until none applies; whether any applied.
pub fn run_stage(elements: &mut Vec<Wrapped>, k: Stage) -> (r: bool)
    ensures
        final(elements)@ == stage_outcome(k, old(elements)@),
        r == stage_step(k, old(elements)@) is Some,
{
    let ghost s0 = elements@;
    let mut count: usize = 0;
    proof {
        lemma_stage_run_ends(k, s0);
    }
    loop
        invariant
            stage_outcome(k, elements@) == stage_outcome(k, s0),
            s0 == old(elements)@,
            count == 0 ==> elements@ == s0,
            count <= 1,
            count == 1 ==> stage_step(k, s0) is Some,
        ensures
            stage_step(k, elements@) is None,
            stage_outcome(k, elements@) == stage_outcome(k, s0),
            (count == 1) == (stage_step(k, s0) is Some),
        decreases measure(k, elements@),
    {
        let ghost before = elements@;
        let changed = step(elements, k);
        if !changed {
            break;
        }
        proof {
            lemma_stage_outcome_step(k, before, elements@);
            lemma_stage_decreases(k, before);
        }
        count = 1;
    }
    proof {
        lemma_stage_run_ends(k, elements@);
    }
    count == 1
}

// ---- lists: items separated by commas --------------------------------------

/// How a list scan ends: the end of the list, or a place where an item was
/// expected and something else stands.
pub enum ListEnd {
    End(int),
    Bad(int),
}

/// The element is an item of the list: a plain variable for variable
/// lists, an expression for expression lists.
pub open spec fn list_item(var_list: bool, e: SyntaxElement) -> bool {
    if var_list {
        e is Var
    } else {
        e is Exp
    }
}

/// The element stops the scan: an `=` in a variable list.
pub open spec fn list_stop(var_list: bool, e: SyntaxElement) -> bool {
    var_list && is_token_of(e, TokenView::Equal)
}

/// The first item at or after `i`, before anything that stops the scan.
pub open spec fn list_first(var_list: bool, s: Seq<Wrapped>, i: int) -> Option<int>
    decreases s.len() - i,
{
    if i < 0 || i >= s.len() || list_stop(var_list, at(s, i)) {
        None
    } else if list_item(var_list, at(s, i)) {
        Some(i)
    } else {
        list_first(var_list, s, i + 1)
    }
}

/// Walking the list that starts at `st`, from `k` on: commas at odd
/// distances, items at even ones.
pub open spec fn list_walk(var_list: bool, s: Seq<Wrapped>, st: int, k: int) -> ListEnd
    decreases s.len() - k,
{
    if k < 0 || k >= s.len() || k <= st || list_stop(var_list, at(s, k)) {
        ListEnd::End(k)
    } else if (k - st) % 2 == 1 {
        if is_token_of(at(s, k), TokenView::Comma) {
            list_walk(var_list, s, st, k + 1)
        } else {
            ListEnd::End(k)
        }
    } else if list_item(var_list, at(s, k)) {
        list_walk(var_list, s, st, k + 1)
    } else {
        ListEnd::Bad(k)
    }
}

/// The number of items in the list from `st` up to (not including) `e`.
pub open spec fn list_count(st: int, e: int) -> int {
    (e - st + 1) / 2
}

/// The list element holds the items of the list from `st` to `e`, and its
/// span is the first item's start to the last item's end (0 for a list of
/// one item).
pub open spec fn list_built(var_list: bool, s: Seq<Wrapped>, st: int, e: int, w: Wrapped) -> bool {
    let n = list_count(st, e);
    let code_end = if n >= 2 {
        s[st + 2 * (n - 1)].spec_end()
    } else {
        0usize
    };
    &&& w.spec_start() == s[st].spec_start()
    &&& w.spec_end() == code_end
    &&& match *w.spec_item() {
        SyntaxElement::VarList(list) => var_list && list@.len() == n && forall|q: int|
            0 <= q < n ==> *(#[trigger] list@[q]) == at(s, st + 2 * q),
        SyntaxElement::ExpList(list) => !var_list && list@.len() == n && forall|q: int|
            0 <= q < n ==> *(#[trigger] list@[q]) == at(s, st + 2 * q),
        _ => false,
    }
}

/// A list starting at `st` and ending before `e` was reduced in `s` to
/// give `t`.
pub open spec fn list_reduced(var_list: bool, s: Seq<Wrapped>, st: int, e: int, t: Seq<Wrapped>) -> bool {
    &&& t.len() == s.len() - (e - st) + 1
    &&& t.subrange(0, st) == s.subrange(0, st)
    &&& t.subrange(st + 1, t.len() as int) == s.subrange(e, s.len() as int)
    &&& list_built(var_list, s, st, e, t[st])
}

/// Where the first item is found, it is in the run and is an item.
pub proof fn lemma_list_first(var_list: bool, s: Seq<Wrapped>, i: int)
    ensures
        list_first(var_list, s, i) matches Some(j) ==> i <= j && 0 <= j < s.len() && list_item(
            var_list,
            at(s, j),
        ),
    decreases s.len() - i,
{
    if !(i < 0 || i >= s.len() || list_stop(var_list, at(s, i))) && !list_item(var_list, at(s, i)) {
        lemma_list_first(var_list, s, i + 1);
    }
}

/// The element is an item of the list.
fn list_item_exec(e: &SyntaxElement, var_list: bool) -> (r: bool)
    ensures
        r == list_item(var_list, *e),
{
    match e {
        SyntaxElement::Var(_) => var_list,
        SyntaxElement::Exp(_) => !var_list,
        _ => false,
    }
}

/// Finds the first list (variables, or expressions) and reduces it to one
/// element (see `list_first`, `list_walk`, `list_reduced`). A variable list
/// stops at an `=`. Where an item is missing after a comma, nothing changes:
/// a variable list gives `Nothing`, an expression list an error at that
/// place.
pub fn reduce_list(elements: &mut Vec<Wrapped>, var_list: bool) -> (r: SyntaxResult)
    ensures
        match list_first(var_list, old(elements)@, 0) {
            None => r is Nothing && final(elements)@ == old(elements)@,
            Some(st) => match list_walk(var_list, old(elements)@, st, st + 1) {
                ListEnd::End(e) => r is Done && list_reduced(var_list, old(elements)@, st, e, final(elements)@),
                ListEnd::Bad(b) => final(elements)@ == old(elements)@ && if var_list {
                    r is Nothing
                } else {
                    r matches SyntaxResult::Error(a, z, d) && a == old(elements)@[b].spec_start()
                        && z == old(elements)@[b].spec_end() && d@ == "expecting an expression after the comma"@
                },
            },
        },
{
    let ghost s0 = elements@;
    let n = elements.len();
    let mut i: usize = 0;
    let mut start: Option<usize> = None;
    loop
        invariant
            n == elements@.len(),
            s0 == elements@,
            s0 == old(elements)@,
            i <= n,
            start is None ==> list_first(var_list, s0, 0) == list_first(var_list, s0, i as int),
            start matches Some(st) ==> list_first(var_list, s0, 0) == Some(st as int) && st < i
                && list_walk(var_list, s0, st as int, st + 1) == list_walk(var_list, s0, st as int, i as int),
        ensures
            start is None ==> list_first(var_list, s0, 0) is None,
            start matches Some(st) ==> list_first(var_list, s0, 0) == Some(st as int) && st < i
                && list_walk(var_list, s0, st as int, st + 1) == ListEnd::End(i as int) && i <= n,
        decreases n - i,
    {
        if i >= n {
            break;
        }
        if var_list && elements[i].item().does_match_token(Token::Equal) {
            break;
        }
        match start {
            None => {
                if list_item_exec(elements[i].item(), var_list) {
                    start = Some(i);
                    proof {
                        lemma_list_first(var_list, s0, i as int);
                    }
                }
            },
            Some(st) => {
                let factor = i - st;
                if factor % 2 == 1 {
                    if !elements[i].item().does_match_token(Token::Comma) {
                        break;
                    }
                } else {
                    if !list_item_exec(elements[i].item(), var_list) {
                        if var_list {
                            return SyntaxResult::Nothing;
                        } else {
                            return SyntaxResult::Error(
                                elements[i].start(),
                                elements[i].end(),
                                "expecting an expression after the comma".to_owned(),
                            );
                        }
                    }
                }
            },
        }
        i = i + 1;
    }
    if let Some(st) = start {
        let ghost e = i as int;
        let mut code_start: Option<usize> = None;
        let mut code_end: usize = 0;
        let mut new_list: Vec<Box<SyntaxElement>> = Vec::new();
        let mut cc: usize = 0;
        while cc < i - st
            invariant
                st < i <= n,
                s0.len() == n,
                cc <= i - st,
                elements@ == s0.subrange(0, st as int) + s0.subrange(st + cc, n as int),
                new_list@.len() == (cc + 1) / 2,
                forall|q: int| 0 <= q < new_list@.len() ==> *(#[trigger] new_list@[q]) == at(s0, st + 2 * q),
                cc == 0 ==> code_start is None,
                cc > 0 ==> code_start == Some(s0[st as int].spec_start()),
                code_end == if new_list@.len() >= 2 {
                    s0[st + 2 * (new_list@.len() - 1)].spec_end()
                } else {
                    0usize
                },
            decreases i - st - cc,
        {
            let item = elements.remove(st);
            proof {
                assert(item == s0[st + cc]);
                assert(elements@ =~= s0.subrange(0, st as int) + s0.subrange(st + cc + 1, n as int));
            }
            if cc % 2 == 0 {
                let CodeWrap::CodeWrap(inside, s, e) = item;
                if code_start.is_none() {
                    code_start = Some(s);
                } else {
                    code_end = e;
                }
                new_list.push(Box::new(inside));
            }
            cc = cc + 1;
        }
        if let Some(code_start) = code_start {
            let list = if var_list {
                SyntaxElement::VarList(new_list)
            } else {
                SyntaxElement::ExpList(new_list)
            };
            let ghost before = elements@;
            elements.insert(st, CodeWrap::CodeWrap(list, code_start, code_end));
            proof {
                assert(elements@.subrange(0, st as int) =~= s0.subrange(0, st as int));
                assert(elements@.subrange(st + 1, elements@.len() as int) =~= s0.subrange(i as int, n as int));
            }
            return SyntaxResult::Done;
        }
    }
    SyntaxResult::Nothing
}

/// Where a stage ends no step of it applies: running it again changes
/// nothing.
pub proof fn lemma_stage_outcome_is_final(k: Stage, s: Seq<Wrapped>)
    ensures
        stage_step(k, stage_outcome(k, s)) is None,
        stage_outcome(k, stage_outcome(k, s)) == stage_outcome(k, s),
    decreases measure(k, s),
{
    lemma_stage_run_ends(k, s);
    match stage_step(k, s) {
        None => {
            reveal_with_fuel(stage_run, 2);
        },
        Some(t) => {
            lemma_stage_outcome_step(k, s, t);
            lemma_stage_decreases(k, s);
            lemma_stage_outcome_is_final(k, t);
        },
    }
}

} // verus!
