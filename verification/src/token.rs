//! The tokens of the Lua 5.1 lexical grammar, and the character classes the
//! scanner reads them by.

use vstd::prelude::*;
use crate::coderef::CodeRef;
use crate::text::{chars_of, chars_equal, push_str, push_char, string_from_chars};

verus! {

/// A token together with where it stands in the code.
pub type CodeToken = CodeRef<Token>;

/// A token of the Lua 5.1 lexical grammar. `Number` holds the literal text
/// of the number as it stands in the code.
pub enum Token {
    Plus,
    Minus,
    Star,
    Slash,
    Percent,
    Carrot,
    Pound,
    LessThan,
    GreaterThan,
    Equal,
    LeftParen,
    RightParen,
    LeftMoustache,
    RightMoustache,
    LeftBracket,
    RightBracket,
    SemiColon,
    Colon,
    Comma,
    Period,
    DoublePeriod,
    EqualEqual,
    NotEqual,
    GreaterEqual,
    LessEqual,
    TriplePeriod,
    And,
    Break,
    Do,
    Else,
    Elseif,
    End,
    False,
    For,
    Function,
    If,
    In,
    Local,
    Nil,
    Not,
    Or,
    Repeat,
    Return,
    Then,
    True,
    Until,
    While,
    Identifier(String),
    String(String),
    Number(String),
    MultiLineString(String),
    Comment(String),
    WhiteSpace,
    EOL,
    EOF,
}

/// The mathematical value of a token: its kind, and the text it carries.
pub enum TokenView {
    Plus,
    Minus,
    Star,
    Slash,
    Percent,
    Carrot,
    Pound,
    LessThan,
    GreaterThan,
    Equal,
    LeftParen,
    RightParen,
    LeftMoustache,
    RightMoustache,
    LeftBracket,
    RightBracket,
    SemiColon,
    Colon,
    Comma,
    Period,
    DoublePeriod,
    EqualEqual,
    NotEqual,
    GreaterEqual,
    LessEqual,
    TriplePeriod,
    And,
    Break,
    Do,
    Else,
    Elseif,
    End,
    False,
    For,
    Function,
    If,
    In,
    Local,
    Nil,
    Not,
    Or,
    Repeat,
    Return,
    Then,
    True,
    Until,
    While,
    Identifier(Seq<char>),
    String(Seq<char>),
    Number(Seq<char>),
    MultiLineString(Seq<char>),
    Comment(Seq<char>),
    WhiteSpace,
    EOL,
    EOF,
}

impl View for Token {
    type V = TokenView;

    open spec fn view(&self) -> TokenView {
        match self {
            Token::Plus => TokenView::Plus,
            Token::Minus => TokenView::Minus,
            Token::Star => TokenView::Star,
            Token::Slash => TokenView::Slash,
            Token::Percent => TokenView::Percent,
            Token::Carrot => TokenView::Carrot,
            Token::Pound => TokenView::Pound,
            Token::LessThan => TokenView::LessThan,
            Token::GreaterThan => TokenView::GreaterThan,
            Token::Equal => TokenView::Equal,
            Token::LeftParen => TokenView::LeftParen,
            Token::RightParen => TokenView::RightParen,
            Token::LeftMoustache => TokenView::LeftMoustache,
            Token::RightMoustache => TokenView::RightMoustache,
            Token::LeftBracket => TokenView::LeftBracket,
            Token::RightBracket => TokenView::RightBracket,
            Token::SemiColon => TokenView::SemiColon,
            Token::Colon => TokenView::Colon,
            Token::Comma => TokenView::Comma,
            Token::Period => TokenView::Period,
            Token::DoublePeriod => TokenView::DoublePeriod,
            Token::EqualEqual => TokenView::EqualEqual,
            Token::NotEqual => TokenView::NotEqual,
            Token::GreaterEqual => TokenView::GreaterEqual,
            Token::LessEqual => TokenView::LessEqual,
            Token::TriplePeriod => TokenView::TriplePeriod,
            Token::And => TokenView::And,
            Token::Break => TokenView::Break,
            Token::Do => TokenView::Do,
            Token::Else => TokenView::Else,
            Token::Elseif => TokenView::Elseif,
            Token::End => TokenView::End,
            Token::False => TokenView::False,
            Token::For => TokenView::For,
            Token::Function => TokenView::Function,
            Token::If => TokenView::If,
            Token::In => TokenView::In,
            Token::Local => TokenView::Local,
            Token::Nil => TokenView::Nil,
            Token::Not => TokenView::Not,
            Token::Or => TokenView::Or,
            Token::Repeat => TokenView::Repeat,
            Token::Return => TokenView::Return,
            Token::Then => TokenView::Then,
            Token::True => TokenView::True,
            Token::Until => TokenView::Until,
            Token::While => TokenView::While,
            Token::WhiteSpace => TokenView::WhiteSpace,
            Token::EOL => TokenView::EOL,
            Token::EOF => TokenView::EOF,
            Token::Identifier(s) => TokenView::Identifier(s@),
            Token::String(s) => TokenView::String(s@),
            Token::Number(s) => TokenView::Number(s@),
            Token::MultiLineString(s) => TokenView::MultiLineString(s@),
            Token::Comment(s) => TokenView::Comment(s@),
        }
    }
}

/// The keyword that a word is, if it is one.
pub open spec fn spec_keyword(word: Seq<char>) -> Option<TokenView> {
    if word == seq!['a', 'n', 'd'] {
        Some(TokenView::And)
    } else if word == seq!['b', 'r', 'e', 'a', 'k'] {
        Some(TokenView::Break)
    } else if word == seq!['d', 'o'] {
        Some(TokenView::Do)
    } else if word == seq!['e', 'l', 's', 'e'] {
        Some(TokenView::Else)
    } else if word == seq!['e', 'l', 's', 'e', 'i', 'f'] {
        Some(TokenView::Elseif)
    } else if word == seq!['e', 'n', 'd'] {
        Some(TokenView::End)
    } else if word == seq!['f', 'a', 'l', 's', 'e'] {
        Some(TokenView::False)
    } else if word == seq!['f', 'o', 'r'] {
        Some(TokenView::For)
    } else if word == seq!['f', 'u', 'n', 'c', 't', 'i', 'o', 'n'] {
        Some(TokenView::Function)
    } else if word == seq!['i', 'f'] {
        Some(TokenView::If)
    } else if word == seq!['i', 'n'] {
        Some(TokenView::In)
    } else if word == seq!['l', 'o', 'c', 'a', 'l'] {
        Some(TokenView::Local)
    } else if word == seq!['n', 'i', 'l'] {
        Some(TokenView::Nil)
    } else if word == seq!['n', 'o', 't'] {
        Some(TokenView::Not)
    } else if word == seq!['o', 'r'] {
        Some(TokenView::Or)
    } else if word == seq!['r', 'e', 'p', 'e', 'a', 't'] {
        Some(TokenView::Repeat)
    } else if word == seq!['r', 'e', 't', 'u', 'r', 'n'] {
        Some(TokenView::Return)
    } else if word == seq!['t', 'h', 'e', 'n'] {
        Some(TokenView::Then)
    } else if word == seq!['t', 'r', 'u', 'e'] {
        Some(TokenView::True)
    } else if word == seq!['u', 'n', 't', 'i', 'l'] {
        Some(TokenView::Until)
    } else if word == seq!['w', 'h', 'i', 'l', 'e'] {
        Some(TokenView::While)
    } else {
        None
    }
}

/// The keyword that the characters spell, if they spell one.
pub fn keyword_of_chars(word: &Vec<char>) -> (r: Option<Token>)
    ensures
        match r {
            Some(t) => spec_keyword(word@) == Some(t@),
            None => spec_keyword(word@) is None,
        },
{
    if chars_equal(word, &['a', 'n', 'd']) {
        Some(Token::And)
    } else if chars_equal(word, &['b', 'r', 'e', 'a', 'k']) {
        Some(Token::Break)
    } else if chars_equal(word, &['d', 'o']) {
        Some(Token::Do)
    } else if chars_equal(word, &['e', 'l', 's', 'e']) {
        Some(Token::Else)
    } else if chars_equal(word, &['e', 'l', 's', 'e', 'i', 'f']) {
        Some(Token::Elseif)
    } else if chars_equal(word, &['e', 'n', 'd']) {
        Some(Token::End)
    } else if chars_equal(word, &['f', 'a', 'l', 's', 'e']) {
        Some(Token::False)
    } else if chars_equal(word, &['f', 'o', 'r']) {
        Some(Token::For)
    } else if chars_equal(word, &['f', 'u', 'n', 'c', 't', 'i', 'o', 'n']) {
        Some(Token::Function)
    } else if chars_equal(word, &['i', 'f']) {
        Some(Token::If)
    } else if chars_equal(word, &['i', 'n']) {
        Some(Token::In)
    } else if chars_equal(word, &['l', 'o', 'c', 'a', 'l']) {
        Some(Token::Local)
    } else if chars_equal(word, &['n', 'i', 'l']) {
        Some(Token::Nil)
    } else if chars_equal(word, &['n', 'o', 't']) {
        Some(Token::Not)
    } else if chars_equal(word, &['o', 'r']) {
        Some(Token::Or)
    } else if chars_equal(word, &['r', 'e', 'p', 'e', 'a', 't']) {
        Some(Token::Repeat)
    } else if chars_equal(word, &['r', 'e', 't', 'u', 'r', 'n']) {
        Some(Token::Return)
    } else if chars_equal(word, &['t', 'h', 'e', 'n']) {
        Some(Token::Then)
    } else if chars_equal(word, &['t', 'r', 'u', 'e']) {
        Some(Token::True)
    } else if chars_equal(word, &['u', 'n', 't', 'i', 'l']) {
        Some(Token::Until)
    } else if chars_equal(word, &['w', 'h', 'i', 'l', 'e']) {
        Some(Token::While)
    } else {
        None
    }
}

/// `c` ends a line.
pub open spec fn spec_is_eol(c: char) -> bool {
    c == '\n' || c == '\r'
}

/// `c` is a space or a tab.
pub open spec fn spec_is_whitespace(c: char) -> bool {
    c == ' ' || c == '\t'
}

/// `c` may stand in a number: a digit or a decimal point.
pub open spec fn spec_is_number_char(c: char) -> bool {
    ('0' <= c && c <= '9') || c == '.'
}

/// `c` may stand in a word: a letter, a digit or `_`; `first` asks whether
/// it may begin one, which a digit may not.
pub open spec fn spec_is_word_char(c: char, first: bool) -> bool {
    ('A' <= c && c <= 'Z') || ('a' <= c && c <= 'z') || c == '_' || (!first && '0' <= c
        && c <= '9')
}

/// The token is a binary operator of the grammar.
pub open spec fn spec_is_binop(t: TokenView) -> bool {
    match t {
        TokenView::Plus | TokenView::Minus | TokenView::Star | TokenView::Slash
        | TokenView::Carrot | TokenView::Percent | TokenView::DoublePeriod
        | TokenView::LessThan | TokenView::LessEqual | TokenView::GreaterThan
        | TokenView::GreaterEqual | TokenView::EqualEqual | TokenView::NotEqual
        | TokenView::And | TokenView::Or => true,
        _ => false,
    }
}

/// The token is a unary operator of the grammar.
pub open spec fn spec_is_unop(t: TokenView) -> bool {
    match t {
        TokenView::Minus | TokenView::Not | TokenView::Pound => true,
        _ => false,
    }
}

/// The tokens that open what `closer` closes: the matching bracket for a
/// closing bracket, none for other tokens.
pub open spec fn spec_matching_set(closer: TokenView) -> Seq<TokenView> {
    match closer {
        TokenView::RightMoustache => seq![TokenView::LeftMoustache],
        TokenView::RightParen => seq![TokenView::LeftParen],
        TokenView::RightBracket => seq![TokenView::LeftBracket],
        _ => seq![],
    }
}

/// The token carries text.
pub open spec fn spec_has_text(t: TokenView) -> bool {
    t is Identifier || t is String || t is MultiLineString || t is Comment
}

/// Two tokens are of the same kind: equal, or both of a kind that carries a
/// value, whatever the values.
pub open spec fn spec_same_type(a: TokenView, b: TokenView) -> bool {
    match (a, b) {
        (TokenView::Identifier(_), TokenView::Identifier(_)) => true,
        (TokenView::String(_), TokenView::String(_)) => true,
        (TokenView::MultiLineString(_), TokenView::MultiLineString(_)) => true,
        (TokenView::Number(_), TokenView::Number(_)) => true,
        (TokenView::Comment(_), TokenView::Comment(_)) => true,
        _ => a == b,
    }
}

/// The one character of a string, if it has exactly one.
fn single_char(s: &str) -> (r: Option<char>)
    ensures
        r == (if s@.len() == 1 { Some(s@[0]) } else { None::<char> }),
{
    let v = chars_of(s);
    if v.len() == 1 {
        Some(v[0])
    } else {
        None
    }
}

impl Token {

    /// The two tokens are equal: of one kind and, where they carry text,
    /// carrying the same text.
    pub fn same_token(&self, other: &Token) -> (r: bool)
        ensures
            r == (self@ == other@),
    {
        match (self, other) {
            (Token::Plus, Token::Plus) => true,
            (Token::Minus, Token::Minus) => true,
            (Token::Star, Token::Star) => true,
            (Token::Slash, Token::Slash) => true,
            (Token::Percent, Token::Percent) => true,
            (Token::Carrot, Token::Carrot) => true,
            (Token::Pound, Token::Pound) => true,
            (Token::LessThan, Token::LessThan) => true,
            (Token::GreaterThan, Token::GreaterThan) => true,
            (Token::Equal, Token::Equal) => true,
            (Token::LeftParen, Token::LeftParen) => true,
            (Token::RightParen, Token::RightParen) => true,
            (Token::LeftMoustache, Token::LeftMoustache) => true,
            (Token::RightMoustache, Token::RightMoustache) => true,
            (Token::LeftBracket, Token::LeftBracket) => true,
            (Token::RightBracket, Token::RightBracket) => true,
            (Token::SemiColon, Token::SemiColon) => true,
            (Token::Colon, Token::Colon) => true,
            (Token::Comma, Token::Comma) => true,
            (Token::Period, Token::Period) => true,
            (Token::DoublePeriod, Token::DoublePeriod) => true,
            (Token::EqualEqual, Token::EqualEqual) => true,
            (Token::NotEqual, Token::NotEqual) => true,
            (Token::GreaterEqual, Token::GreaterEqual) => true,
            (Token::LessEqual, Token::LessEqual) => true,
            (Token::TriplePeriod, Token::TriplePeriod) => true,
            (Token::And, Token::And) => true,
            (Token::Break, Token::Break) => true,
            (Token::Do, Token::Do) => true,
            (Token::Else, Token::Else) => true,
            (Token::Elseif, Token::Elseif) => true,
            (Token::End, Token::End) => true,
            (Token::False, Token::False) => true,
            (Token::For, Token::For) => true,
            (Token::Function, Token::Function) => true,
            (Token::If, Token::If) => true,
            (Token::In, Token::In) => true,
            (Token::Local, Token::Local) => true,
            (Token::Nil, Token::Nil) => true,
            (Token::Not, Token::Not) => true,
            (Token::Or, Token::Or) => true,
            (Token::Repeat, Token::Repeat) => true,
            (Token::Return, Token::Return) => true,
            (Token::Then, Token::Then) => true,
            (Token::True, Token::True) => true,
            (Token::Until, Token::Until) => true,
            (Token::While, Token::While) => true,
            (Token::WhiteSpace, Token::WhiteSpace) => true,
            (Token::EOL, Token::EOL) => true,
            (Token::EOF, Token::EOF) => true,
            (Token::Identifier(a), Token::Identifier(b)) => *a == *b,
            (Token::String(a), Token::String(b)) => *a == *b,
            (Token::Number(a), Token::Number(b)) => *a == *b,
            (Token::MultiLineString(a), Token::MultiLineString(b)) => *a == *b,
            (Token::Comment(a), Token::Comment(b)) => *a == *b,
            _ => false,
        }
    }

    /// The string is a single end-of-line character.
    pub fn is_eol(char: &str) -> (r: bool)
        ensures
            r == (char@.len() == 1 && spec_is_eol(char@[0])),
    {
        match single_char(char) {
            Some(c) => c == '\n' || c == '\r',
            None => false,
        }
    }

    /// The string is a single space or tab.
    pub fn is_whitespace(char: &str) -> (r: bool)
        ensures
            r == (char@.len() == 1 && spec_is_whitespace(char@[0])),
    {
        match single_char(char) {
            Some(c) => c == ' ' || c == '\t',
            None => false,
        }
    }

    /// The string is a single character that may stand in a number.
    pub fn is_valid_number_char(char: &str) -> (r: bool)
        ensures
            r == (char@.len() == 1 && spec_is_number_char(char@[0])),
    {
        match single_char(char) {
            Some(c) => ('0' <= c && c <= '9') || c == '.',
            None => false,
        }
    }

    /// The string is a single character that may stand in a word (begin one,
    /// when `first`).
    pub fn is_valid_word_char(char: &str, first: bool) -> (r: bool)
        ensures
            r == (char@.len() == 1 && spec_is_word_char(char@[0], first)),
    {
        match single_char(char) {
            Some(c) => ('A' <= c && c <= 'Z') || ('a' <= c && c <= 'z') || c == '_' || (!first
                && '0' <= c && c <= '9'),
            None => false,
        }
    }

    /// The text a token carries.
    pub fn inner_text(&self) -> (r: String)
        requires
            spec_has_text(self@),
        ensures
            match self@ {
                TokenView::Identifier(t) | TokenView::String(t) | TokenView::MultiLineString(t)
                | TokenView::Comment(t) => r@ == t,
                _ => false,
            },
    {
        match self {
            Token::Identifier(text) | Token::String(text) | Token::MultiLineString(text)
            | Token::Comment(text) => text.clone(),
            _ => String::new(),
        }
    }

    /// The two tokens are of the same kind (values aside).
    pub fn is_same_type(&self, other: &Token) -> (r: bool)
        ensures
            r == spec_same_type(self@, other@),
    {
        match (self, other) {
            (Token::Identifier(_), Token::Identifier(_)) => true,
            (Token::String(_), Token::String(_)) => true,
            (Token::MultiLineString(_), Token::MultiLineString(_)) => true,
            (Token::Number(_), Token::Number(_)) => true,
            (Token::Comment(_), Token::Comment(_)) => true,
            _ => self.same_token(other),
        }
    }

    /// The keyword that a word is, if it is one of Lua's fixed keywords.
    pub fn match_keyword(word: &str) -> (r: Option<Token>)
        ensures
            match r {
                Some(t) => spec_keyword(word@) == Some(t@),
                None => spec_keyword(word@) is None,
            },
    {
        let chars = chars_of(word);
        keyword_of_chars(&chars)
    }

    /// The token is a binary operator.
    pub fn is_binop(&self) -> (r: bool)
        ensures
            r == spec_is_binop(self@),
    {
        match self {
            Token::Plus | Token::Minus | Token::Star | Token::Slash | Token::Carrot
            | Token::Percent | Token::DoublePeriod | Token::LessThan | Token::LessEqual
            | Token::GreaterThan | Token::GreaterEqual | Token::EqualEqual | Token::NotEqual
            | Token::And | Token::Or => true,
            _ => false,
        }
    }

    /// The tokens that open what this token closes.
    pub fn matching_set(&self) -> (r: Vec<Token>)
        ensures
            r@.len() == spec_matching_set(self@).len(),
            forall|i: int| 0 <= i < r@.len() ==> #[trigger] r@[i]@ == spec_matching_set(self@)[i],
    {
        let mut v: Vec<Token> = Vec::new();
        match self {
            Token::RightMoustache => v.push(Token::LeftMoustache),
            Token::RightParen => v.push(Token::LeftParen),
            Token::RightBracket => v.push(Token::LeftBracket),
            _ => {},
        }
        v
    }

    /// The token is a unary operator.
    pub fn is_unop(&self) -> (r: bool)
        ensures
            r == spec_is_unop(self@),
    {
        match self {
            Token::Minus | Token::Not | Token::Pound => true,
            _ => false,
        }
    }
}


/// How a token is written in Lua: its symbol or keyword; for a literal,
/// its text (a string in double quotes, a long string in double brackets,
/// a comment after two dashes); a space for white space, a new line for an
/// end of line, nothing for the end of the code.
pub open spec fn spec_token_text(t: TokenView) -> Seq<char> {
    match t {
        TokenView::Plus => "+"@,
        TokenView::Minus => "-"@,
        TokenView::Star => "*"@,
        TokenView::Slash => "/"@,
        TokenView::Percent => "%"@,
        TokenView::Carrot => "^"@,
        TokenView::Pound => "#"@,
        TokenView::LessThan => "<"@,
        TokenView::GreaterThan => ">"@,
        TokenView::Equal => "="@,
        TokenView::LeftParen => "("@,
        TokenView::RightParen => ")"@,
        TokenView::LeftMoustache => "{"@,
        TokenView::RightMoustache => "}"@,
        TokenView::LeftBracket => "["@,
        TokenView::RightBracket => "]"@,
        TokenView::SemiColon => ";"@,
        TokenView::Colon => ":"@,
        TokenView::Comma => ","@,
        TokenView::Period => "."@,
        TokenView::DoublePeriod => ".."@,
        TokenView::EqualEqual => "=="@,
        TokenView::NotEqual => "~="@,
        TokenView::GreaterEqual => ">="@,
        TokenView::LessEqual => "<="@,
        TokenView::TriplePeriod => "..."@,
        TokenView::And => "and"@,
        TokenView::Break => "break"@,
        TokenView::Do => "do"@,
        TokenView::Else => "else"@,
        TokenView::Elseif => "elseif"@,
        TokenView::End => "end"@,
        TokenView::False => "false"@,
        TokenView::For => "for"@,
        TokenView::Function => "function"@,
        TokenView::If => "if"@,
        TokenView::In => "in"@,
        TokenView::Local => "local"@,
        TokenView::Nil => "nil"@,
        TokenView::Not => "not"@,
        TokenView::Or => "or"@,
        TokenView::Repeat => "repeat"@,
        TokenView::Return => "return"@,
        TokenView::Then => "then"@,
        TokenView::True => "true"@,
        TokenView::Until => "until"@,
        TokenView::While => "while"@,
        TokenView::WhiteSpace => " "@,
        TokenView::EOF => ""@,
        TokenView::EOL => seq!['\n'],
        TokenView::Identifier(s) => s,
        TokenView::Number(s) => s,
        TokenView::String(s) => seq!['"'] + s + seq!['"'],
        TokenView::MultiLineString(s) => seq!['[', '['] + s + seq![']', ']'],
        TokenView::Comment(s) => seq!['-', '-'] + s,
    }
}

impl Token {
    /// How the token is written in Lua (see `spec_token_text`).
    pub fn text(&self) -> (r: String)
        ensures
            r@ == spec_token_text(self@),
    {
        match self {
            Token::Plus => "+".to_owned(),
            Token::Minus => "-".to_owned(),
            Token::Star => "*".to_owned(),
            Token::Slash => "/".to_owned(),
            Token::Percent => "%".to_owned(),
            Token::Carrot => "^".to_owned(),
            Token::Pound => "#".to_owned(),
            Token::LessThan => "<".to_owned(),
            Token::GreaterThan => ">".to_owned(),
            Token::Equal => "=".to_owned(),
            Token::LeftParen => "(".to_owned(),
            Token::RightParen => ")".to_owned(),
            Token::LeftMoustache => "{".to_owned(),
            Token::RightMoustache => "}".to_owned(),
            Token::LeftBracket => "[".to_owned(),
            Token::RightBracket => "]".to_owned(),
            Token::SemiColon => ";".to_owned(),
            Token::Colon => ":".to_owned(),
            Token::Comma => ",".to_owned(),
            Token::Period => ".".to_owned(),
            Token::DoublePeriod => "..".to_owned(),
            Token::EqualEqual => "==".to_owned(),
            Token::NotEqual => "~=".to_owned(),
            Token::GreaterEqual => ">=".to_owned(),
            Token::LessEqual => "<=".to_owned(),
            Token::TriplePeriod => "...".to_owned(),
            Token::And => "and".to_owned(),
            Token::Break => "break".to_owned(),
            Token::Do => "do".to_owned(),
            Token::Else => "else".to_owned(),
            Token::Elseif => "elseif".to_owned(),
            Token::End => "end".to_owned(),
            Token::False => "false".to_owned(),
            Token::For => "for".to_owned(),
            Token::Function => "function".to_owned(),
            Token::If => "if".to_owned(),
            Token::In => "in".to_owned(),
            Token::Local => "local".to_owned(),
            Token::Nil => "nil".to_owned(),
            Token::Not => "not".to_owned(),
            Token::Or => "or".to_owned(),
            Token::Repeat => "repeat".to_owned(),
            Token::Return => "return".to_owned(),
            Token::Then => "then".to_owned(),
            Token::True => "true".to_owned(),
            Token::Until => "until".to_owned(),
            Token::While => "while".to_owned(),
            Token::WhiteSpace => " ".to_owned(),
            Token::EOF => "".to_owned(),
            Token::EOL => {
                let mut s = String::new();
                push_char(&mut s, '\n');
                s
            },
            Token::Identifier(s) | Token::Number(s) => s.clone(),
            Token::String(s) => {
                let mut r = String::new();
                push_char(&mut r, '"');
                push_str(&mut r, s.as_str());
                push_char(&mut r, '"');
                r
            },
            Token::MultiLineString(s) => {
                let mut r = String::new();
                push_char(&mut r, '[');
                push_char(&mut r, '[');
                push_str(&mut r, s.as_str());
                push_char(&mut r, ']');
                push_char(&mut r, ']');
                r
            },
            Token::Comment(s) => {
                let mut r = String::new();
                push_char(&mut r, '-');
                push_char(&mut r, '-');
                push_str(&mut r, s.as_str());
                r
            },
        }
    }
}

/// Lua's binary operators, one by one: `+ - * / ^ % .. < <= > >= == ~= and or`.
pub open spec fn lua_binary_operator(t: TokenView) -> bool {
    ||| t == TokenView::Plus
    ||| t == TokenView::Minus
    ||| t == TokenView::Star
    ||| t == TokenView::Slash
    ||| t == TokenView::Carrot
    ||| t == TokenView::Percent
    ||| t == TokenView::DoublePeriod
    ||| t == TokenView::LessThan
    ||| t == TokenView::LessEqual
    ||| t == TokenView::GreaterThan
    ||| t == TokenView::GreaterEqual
    ||| t == TokenView::EqualEqual
    ||| t == TokenView::NotEqual
    ||| t == TokenView::And
    ||| t == TokenView::Or
}

/// Lua's unary operators: `- not #`.
pub open spec fn lua_unary_operator(t: TokenView) -> bool {
    ||| t == TokenView::Minus
    ||| t == TokenView::Not
    ||| t == TokenView::Pound
}

/// A token is a binary operator exactly when it is one of Lua's fifteen
/// binary operators, and a unary operator exactly when it is one of Lua's
/// three unary operators.
pub proof fn law_operators_are_lua_operators(t: TokenView)
    ensures
        spec_is_binop(t) <==> lua_binary_operator(t),
        spec_is_unop(t) <==> lua_unary_operator(t),
{
}

} // verus!
