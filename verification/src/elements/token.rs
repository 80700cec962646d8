//! The evaluator's tokens.

use vstd::prelude::*;
use crate::elements::tokentype::TokenType;

verus! {

/// A token of the evaluator: its kind.
pub struct Token {
    pub token_type: TokenType,
}

/// Two token kinds are the same, with the same text where they carry text.
pub open spec fn same_kind(a: TokenType, b: TokenType) -> bool {
    match (a, b) {
        (TokenType::Identifier(x), TokenType::Identifier(y)) => x@ == y@,
        (TokenType::String(x), TokenType::String(y)) => x@ == y@,
        (TokenType::Number(x), TokenType::Number(y)) => x@ == y@,
        (TokenType::Comment(x), TokenType::Comment(y)) => x@ == y@,
        (TokenType::Identifier(_), _) | (TokenType::String(_), _) | (TokenType::Number(_), _)
        | (TokenType::Comment(_), _) | (_, TokenType::Identifier(_)) | (_, TokenType::String(_))
        | (_, TokenType::Number(_)) | (_, TokenType::Comment(_)) => false,
        _ => a == b,
    }
}

impl Token {
    /// A token of the given kind.
    pub fn simple(token: TokenType) -> (r: Token)
        ensures
            r.token_type == token,
    {
        Token { token_type: token }
    }

    /// The token's kind.
    pub fn get_type(&self) -> (r: &TokenType)
        ensures
            *r == self.token_type,
    {
        &self.token_type
    }
}

/// Two token kinds are the same (see `same_kind`).
pub fn same_type(a: &TokenType, b: &TokenType) -> (r: bool)
    ensures
        r == same_kind(*a, *b),
{
    match (a, b) {
        (TokenType::Identifier(x), TokenType::Identifier(y)) => *x == *y,
        (TokenType::String(x), TokenType::String(y)) => *x == *y,
        (TokenType::Number(x), TokenType::Number(y)) => *x == *y,
        (TokenType::Comment(x), TokenType::Comment(y)) => *x == *y,
        (TokenType::Plus, TokenType::Plus) => true,
        (TokenType::Minus, TokenType::Minus) => true,
        (TokenType::Star, TokenType::Star) => true,
        (TokenType::Slash, TokenType::Slash) => true,
        (TokenType::Percent, TokenType::Percent) => true,
        (TokenType::Carrot, TokenType::Carrot) => true,
        (TokenType::Pound, TokenType::Pound) => true,
        (TokenType::LessThan, TokenType::LessThan) => true,
        (TokenType::GreaterThan, TokenType::GreaterThan) => true,
        (TokenType::Equal, TokenType::Equal) => true,
        (TokenType::LeftParen, TokenType::LeftParen) => true,
        (TokenType::RightParen, TokenType::RightParen) => true,
        (TokenType::LeftMoustache, TokenType::LeftMoustache) => true,
        (TokenType::RightMoustache, TokenType::RightMoustache) => true,
        (TokenType::LeftBracket, TokenType::LeftBracket) => true,
        (TokenType::RightBracket, TokenType::RightBracket) => true,
        (TokenType::SemiColon, TokenType::SemiColon) => true,
        (TokenType::Colon, TokenType::Colon) => true,
        (TokenType::Comma, TokenType::Comma) => true,
        (TokenType::Period, TokenType::Period) => true,
        (TokenType::DoublePeriod, TokenType::DoublePeriod) => true,
        (TokenType::EqualEqual, TokenType::EqualEqual) => true,
        (TokenType::NotEqual, TokenType::NotEqual) => true,
        (TokenType::GreaterEqual, TokenType::GreaterEqual) => true,
        (TokenType::LessEqual, TokenType::LessEqual) => true,
        (TokenType::TriplePeriod, TokenType::TriplePeriod) => true,
        (TokenType::And, TokenType::And) => true,
        (TokenType::Break, TokenType::Break) => true,
        (TokenType::Do, TokenType::Do) => true,
        (TokenType::Else, TokenType::Else) => true,
        (TokenType::Elseif, TokenType::Elseif) => true,
        (TokenType::End, TokenType::End) => true,
        (TokenType::False, TokenType::False) => true,
        (TokenType::For, TokenType::For) => true,
        (TokenType::Function, TokenType::Function) => true,
        (TokenType::If, TokenType::If) => true,
        (TokenType::In, TokenType::In) => true,
        (TokenType::Local, TokenType::Local) => true,
        (TokenType::Nil, TokenType::Nil) => true,
        (TokenType::Not, TokenType::Not) => true,
        (TokenType::Or, TokenType::Or) => true,
        (TokenType::Repeat, TokenType::Repeat) => true,
        (TokenType::Return, TokenType::Return) => true,
        (TokenType::Then, TokenType::Then) => true,
        (TokenType::True, TokenType::True) => true,
        (TokenType::Until, TokenType::Until) => true,
        (TokenType::While, TokenType::While) => true,
        (TokenType::WhiteSpace, TokenType::WhiteSpace) => true,
        (TokenType::EOL, TokenType::EOL) => true,
        (TokenType::EOF, TokenType::EOF) => true,
        _ => false,
    }
}

} // verus!
