//! Operations the evaluator applies to values that need no arithmetic.

use vstd::prelude::*;
use crate::elements::statement::Statement;
use crate::elements::token::Token;
use crate::elements::tokentype::TokenType;
use crate::text::push_str;

verus! {

/// Why an operation cannot be applied.
pub enum EvalError {
    /// `..` takes two strings or numbers.
    CannotConcatenate,
}

/// The text a value gives to `..`: that of a string or a number token.
pub open spec fn concat_text(s: Statement) -> Option<Seq<char>> {
    match s {
        Statement::Token(t) => match t.token_type {
            TokenType::String(x) | TokenType::Number(x) => Some(x@),
            _ => None,
        },
        _ => None,
    }
}

fn text_of(s: &Statement) -> (r: Option<&String>)
    ensures
        match concat_text(*s) {
            Some(x) => r matches Some(t) && t@ == x,
            None => r is None,
        },
{
    match s {
        Statement::Token(t) => match t.get_type() {
            TokenType::String(x) | TokenType::Number(x) => Some(x),
            _ => None,
        },
        _ => None,
    }
}

/// `s1 .. s2`: the string of the two texts, one after the other, where
/// each is a string or a number.
pub fn double_period(s1: &Statement, s2: &Statement) -> (r: Result<Statement, EvalError>)
    ensures
        match (concat_text(*s1), concat_text(*s2)) {
            (Some(a), Some(b)) => r matches Ok(Statement::Token(t)) && (t.token_type matches TokenType::String(
                x,
            ) && x@ == a + b),
            _ => r matches Err(EvalError::CannotConcatenate),
        },
{
    match (text_of(s1), text_of(s2)) {
        (Some(a), Some(b)) => {
            let mut joined = a.clone();
            push_str(&mut joined, b.as_str());
            Ok(Statement::Token(Token::simple(TokenType::String(joined))))
        },
        _ => Err(EvalError::CannotConcatenate),
    }
}

} // verus!
