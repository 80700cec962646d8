//! The token kinds of the evaluator, with the character classes and
//! symbol tables it reads code with.

use vstd::prelude::*;
use crate::text::chars_of;

verus! {

/// A kind of token, from the Lua 5.1 manual. A number keeps its literal
/// text.
pub enum TokenType {
    Plus,
    Minus,
    Star,
    Slash,
    Percent,
    Carrot,
    Pound,
    LessThan,
    GreaterThan,
    Equal,
    LeftParen,
    RightParen,
    LeftMoustache,
    RightMoustache,
    LeftBracket,
    RightBracket,
    SemiColon,
    Colon,
    Comma,
    Period,
    DoublePeriod,
    EqualEqual,
    NotEqual,
    GreaterEqual,
    LessEqual,
    TriplePeriod,
    And,
    Break,
    Do,
    Else,
    Elseif,
    End,
    False,
    For,
    Function,
    If,
    In,
    Local,
    Nil,
    Not,
    Or,
    Repeat,
    Return,
    Then,
    True,
    Until,
    While,
    Identifier(String),
    String(String),
    Number(String),
    Comment(String),
    WhiteSpace,
    EOL,
    EOF,
}

/// `c` may stand in a word: a letter anywhere, a digit or `_` after the
/// first character.
pub open spec fn spec_valid_word_char(c: char, first: bool) -> bool {
    ('A' <= c <= 'Z') || ('a' <= c <= 'z') || (!first && (('0' <= c <= '9') || c == '_'))
}

/// `c` may stand in a number: a digit or a decimal point.
pub open spec fn spec_valid_number_char(c: char) -> bool {
    ('0' <= c <= '9') || c == '.'
}

/// The operator's tier in the order of operations (lower binds tighter);
/// 0 for tokens that are not ordered binary operators.
pub open spec fn spec_oop(t: TokenType) -> nat {
    match t {
        TokenType::Carrot => 1,
        TokenType::Star | TokenType::Slash => 2,
        TokenType::Plus | TokenType::Minus => 3,
        TokenType::DoublePeriod => 4,
        TokenType::LessThan | TokenType::LessEqual | TokenType::GreaterThan
        | TokenType::GreaterEqual | TokenType::NotEqual | TokenType::EqualEqual => 5,
        TokenType::And => 6,
        TokenType::Or => 7,
        _ => 0,
    }
}

/// The symbol's token kind. (A comma is written `),` in this table, so a
/// lone `,` is not a symbol here.)
pub open spec fn spec_symbol(text: Seq<char>) -> Option<TokenType> {
    if text == seq!['+'] { Some(TokenType::Plus) }
    else if text == seq!['-'] { Some(TokenType::Minus) }
    else if text == seq!['*'] { Some(TokenType::Star) }
    else if text == seq!['/'] { Some(TokenType::Slash) }
    else if text == seq!['%'] { Some(TokenType::Percent) }
    else if text == seq!['^'] { Some(TokenType::Carrot) }
    else if text == seq!['#'] { Some(TokenType::Pound) }
    else if text == seq!['<', '='] { Some(TokenType::LessEqual) }
    else if text == seq!['<'] { Some(TokenType::LessThan) }
    else if text == seq!['>', '='] { Some(TokenType::GreaterEqual) }
    else if text == seq!['>'] { Some(TokenType::GreaterThan) }
    else if text == seq!['=', '='] { Some(TokenType::EqualEqual) }
    else if text == seq!['='] { Some(TokenType::Equal) }
    else if text == seq!['('] { Some(TokenType::LeftParen) }
    else if text == seq![')'] { Some(TokenType::RightParen) }
    else if text == seq!['['] { Some(TokenType::LeftBracket) }
    else if text == seq![']'] { Some(TokenType::RightBracket) }
    else if text == seq!['{'] { Some(TokenType::LeftMoustache) }
    else if text == seq!['}'] { Some(TokenType::RightMoustache) }
    else if text == seq![';'] { Some(TokenType::SemiColon) }
    else if text == seq![':'] { Some(TokenType::Colon) }
    else if text == seq![')', ','] { Some(TokenType::Comma) }
    else if text == seq!['.'] { Some(TokenType::Period) }
    else if text == seq!['.', '.'] { Some(TokenType::DoublePeriod) }
    else if text == seq!['.', '.', '.'] { Some(TokenType::TriplePeriod) }
    else if text == seq!['~', '='] { Some(TokenType::NotEqual) }
    else { None }
}

/// The keyword's token kind.
pub open spec fn spec_keyword(word: Seq<char>) -> Option<TokenType> {
    if word == seq!['a', 'n', 'd'] { Some(TokenType::And) }
    else if word == seq!['b', 'r', 'e', 'a', 'k'] { Some(TokenType::Break) }
    else if word == seq!['d', 'o'] { Some(TokenType::Do) }
    else if word == seq!['e', 'l', 's', 'e'] { Some(TokenType::Else) }
    else if word == seq!['e', 'l', 's', 'e', 'i', 'f'] { Some(TokenType::Elseif) }
    else if word == seq!['e', 'n', 'd'] { Some(TokenType::End) }
    else if word == seq!['f', 'a', 'l', 's', 'e'] { Some(TokenType::False) }
    else if word == seq!['f', 'o', 'r'] { Some(TokenType::For) }
    else if word == seq!['f', 'u', 'n', 'c', 't', 'i', 'o', 'n'] { Some(TokenType::Function) }
    else if word == seq!['i', 'f'] { Some(TokenType::If) }
    else if word == seq!['i', 'n'] { Some(TokenType::In) }
    else if word == seq!['l', 'o', 'c', 'a', 'l'] { Some(TokenType::Local) }
    else if word == seq!['n', 'i', 'l'] { Some(TokenType::Nil) }
    else if word == seq!['n', 'o', 't'] { Some(TokenType::Not) }
    else if word == seq!['o', 'r'] { Some(TokenType::Or) }
    else if word == seq!['r', 'e', 'p', 'e', 'a', 't'] { Some(TokenType::Repeat) }
    else if word == seq!['r', 'e', 't', 'u', 'r', 'n'] { Some(TokenType::Return) }
    else if word == seq!['t', 'h', 'e', 'n'] { Some(TokenType::Then) }
    else if word == seq!['t', 'r', 'u', 'e'] { Some(TokenType::True) }
    else if word == seq!['u', 'n', 't', 'i', 'l'] { Some(TokenType::Until) }
    else if word == seq!['w', 'h', 'i', 'l', 'e'] { Some(TokenType::While) }
    else { None }
}

/// The characters are exactly those of the literal.
fn is_text(v: &Vec<char>, lit: &[char]) -> (r: bool)
    ensures
        r == (v@ == lit@),
{
    crate::text::chars_equal(v, lit)
}

/// The characters are exactly the one character `c`.
fn is_char(v: &Vec<char>, c: char) -> (r: bool)
    ensures
        r == (v@ == seq![c]),
{
    let r = v.len() == 1 && v[0] == c;
    proof {
        if v@.len() == 1 && v@[0] == c {
            assert(v@ =~= seq![c]);
        }
    }
    r
}

impl TokenType {
    /// The string is one character that may stand in a word (begin one,
    /// when `first`).
    pub fn valid_word_char(char: &str, first: bool) -> (r: bool)
        ensures
            r == (char@.len() == 1 && spec_valid_word_char(char@[0], first)),
    {
        let v = chars_of(char);
        if v.len() == 1 {
            let c = v[0];
            if ('A' <= c && c <= 'Z') || ('a' <= c && c <= 'z') {
                return true;
            }
            if ('0' <= c && c <= '9') || c == '_' {
                return !first;
            }
        }
        false
    }

    /// The string is one character that may stand in a number.
    pub fn valid_number_char(char: &str) -> (r: bool)
        ensures
            r == (char@.len() == 1 && spec_valid_number_char(char@[0])),
    {
        let v = chars_of(char);
        v.len() == 1 && (('0' <= v[0] && v[0] <= '9') || v[0] == '.')
    }

    /// The symbol's token kind (see `spec_symbol`).
    #[verifier::rlimit(50)]
    pub fn match_symbol(text: &str) -> (r: Option<TokenType>)
        ensures
            r == spec_symbol(text@),
    {
        let v = chars_of(text);
        if is_char(&v, '+') {
            return Some(TokenType::Plus);
        }
        if is_char(&v, '-') {
            return Some(TokenType::Minus);
        }
        if is_char(&v, '*') {
            return Some(TokenType::Star);
        }
        if is_char(&v, '/') {
            return Some(TokenType::Slash);
        }
        if is_char(&v, '%') {
            return Some(TokenType::Percent);
        }
        if is_char(&v, '^') {
            return Some(TokenType::Carrot);
        }
        if is_char(&v, '#') {
            return Some(TokenType::Pound);
        }
        if is_text(&v, &['<', '=']) {
            return Some(TokenType::LessEqual);
        }
        if is_char(&v, '<') {
            return Some(TokenType::LessThan);
        }
        if is_text(&v, &['>', '=']) {
            return Some(TokenType::GreaterEqual);
        }
        if is_char(&v, '>') {
            return Some(TokenType::GreaterThan);
        }
        if is_text(&v, &['=', '=']) {
            return Some(TokenType::EqualEqual);
        }
        if is_char(&v, '=') {
            return Some(TokenType::Equal);
        }
        if is_char(&v, '(') {
            return Some(TokenType::LeftParen);
        }
        if is_char(&v, ')') {
            return Some(TokenType::RightParen);
        }
        if is_char(&v, '[') {
            return Some(TokenType::LeftBracket);
        }
        if is_char(&v, ']') {
            return Some(TokenType::RightBracket);
        }
        if is_char(&v, '{') {
            return Some(TokenType::LeftMoustache);
        }
        if is_char(&v, '}') {
            return Some(TokenType::RightMoustache);
        }
        if is_char(&v, ';') {
            return Some(TokenType::SemiColon);
        }
        if is_char(&v, ':') {
            return Some(TokenType::Colon);
        }
        if is_text(&v, &[')', ',']) {
            return Some(TokenType::Comma);
        }
        if is_char(&v, '.') {
            return Some(TokenType::Period);
        }
        if is_text(&v, &['.', '.']) {
            return Some(TokenType::DoublePeriod);
        }
        if is_text(&v, &['.', '.', '.']) {
            return Some(TokenType::TriplePeriod);
        }
        if is_text(&v, &['~', '=']) {
            return Some(TokenType::NotEqual);
        }
        None
    }

    /// The keyword's token kind (see `spec_keyword`).
    pub fn match_keyword(word: &str) -> (r: Option<TokenType>)
        ensures
            r == spec_keyword(word@),
    {
        let v = chars_of(word);
        if is_text(&v, &['a', 'n', 'd']) { Some(TokenType::And) }
        else if is_text(&v, &['b', 'r', 'e', 'a', 'k']) { Some(TokenType::Break) }
        else if is_text(&v, &['d', 'o']) { Some(TokenType::Do) }
        else if is_text(&v, &['e', 'l', 's', 'e']) { Some(TokenType::Else) }
        else if is_text(&v, &['e', 'l', 's', 'e', 'i', 'f']) { Some(TokenType::Elseif) }
        else if is_text(&v, &['e', 'n', 'd']) { Some(TokenType::End) }
        else if is_text(&v, &['f', 'a', 'l', 's', 'e']) { Some(TokenType::False) }
        else if is_text(&v, &['f', 'o', 'r']) { Some(TokenType::For) }
        else if is_text(&v, &['f', 'u', 'n', 'c', 't', 'i', 'o', 'n']) { Some(TokenType::Function) }
        else if is_text(&v, &['i', 'f']) { Some(TokenType::If) }
        else if is_text(&v, &['i', 'n']) { Some(TokenType::In) }
        else if is_text(&v, &['l', 'o', 'c', 'a', 'l']) { Some(TokenType::Local) }
        else if is_text(&v, &['n', 'i', 'l']) { Some(TokenType::Nil) }
        else if is_text(&v, &['n', 'o', 't']) { Some(TokenType::Not) }
        else if is_text(&v, &['o', 'r']) { Some(TokenType::Or) }
        else if is_text(&v, &['r', 'e', 'p', 'e', 'a', 't']) { Some(TokenType::Repeat) }
        else if is_text(&v, &['r', 'e', 't', 'u', 'r', 'n']) { Some(TokenType::Return) }
        else if is_text(&v, &['t', 'h', 'e', 'n']) { Some(TokenType::Then) }
        else if is_text(&v, &['t', 'r', 'u', 'e']) { Some(TokenType::True) }
        else if is_text(&v, &['u', 'n', 't', 'i', 'l']) { Some(TokenType::Until) }
        else if is_text(&v, &['w', 'h', 'i', 'l', 'e']) { Some(TokenType::While) }
        else { None }
    }

    /// The operator's tier in the order of operations (see `spec_oop`).
    pub fn oop(&self) -> (r: usize)
        ensures
            r == spec_oop(*self),
    {
        match self {
            TokenType::Carrot => 1,
            TokenType::Star | TokenType::Slash => 2,
            TokenType::Plus | TokenType::Minus => 3,
            TokenType::DoublePeriod => 4,
            TokenType::LessThan | TokenType::LessEqual | TokenType::GreaterThan
            | TokenType::GreaterEqual | TokenType::NotEqual | TokenType::EqualEqual => 5,
            TokenType::And => 6,
            TokenType::Or => 7,
            _ => 0,
        }
    }

    /// `t1` binds tighter than `t2` (a lower tier); for two ordered binary
    /// operators.
    pub fn oop_binary(t1: &TokenType, t2: &TokenType) -> (r: bool)
        requires
            spec_oop(*t1) != 0,
            spec_oop(*t2) != 0,
        ensures
            r == (spec_oop(*t1) < spec_oop(*t2)),
    {
        t1.oop() < t2.oop()
    }
}

} // verus!
