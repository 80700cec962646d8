//! The scanner: turns Lua code into tokens, each with its span and line.

use vstd::prelude::*;
use crate::token::{Token, TokenView, CodeToken, keyword_of_chars, spec_keyword, spec_is_word_char, spec_is_number_char, spec_is_eol};
use crate::coderef::CodeRef;
use crate::scanspec::{
    ScanFault, spec_peek, spec_run, spec_run_end, spec_word_end, spec_number_end, spec_scan_number,
    spec_long_open, spec_long_open_from, lemma_long_open_from_end, spec_long_close, spec_long_body, spec_scan_long,
    spec_string_body, spec_scan_string, spec_line_end, spec_scan_comment, spec_scan_word,
    spec_next_token, spec_tokens_from, spec_tokens, spec_is_float_literal,
};
use crate::numbers::is_float_literal;
use crate::text::{chars_of, chars_equal, push_str, push_char, push_chars, string_from_chars, repeat_char, lemma_repeat_len, decimal_string};
use crate::error::codeinfo::CodeInformation;
use crate::error::scanner::ScannerError;

verus! {

/// Reads code into tokens. `tokens` is filled once, by `from_str`.
pub struct Scanner<'a> {
    pub file_name: String,
    pub raw_code: &'a str,
    pub tokens: Vec<CodeToken>,
    code: Vec<char>,
    cursor_pos: usize,
    line_number: usize,
}

/// The fault is reported by the error: its kind, position, span and
/// description, with the code, the file name and the line it was found on.
pub open spec fn fault_reported(
    e: ScannerError,
    f: ScanFault,
    line: int,
    code: Seq<char>,
    file: Seq<char>,
) -> bool {
    match (e, f) {
        (ScannerError::UCS(info), ScanFault::Unterminated(at, span, d)) => info.cursor_pos == at
            && info.span == span && info.description@ == d && info.raw_code@ == code
            && info.file_name@ == file && info.line_number == line,
        (ScannerError::IC(info), ScanFault::Illegal(at)) => info.cursor_pos == at && info.span == 1
            && info.description@ == "unknown character"@ && info.raw_code@ == code
            && info.file_name@ == file && info.line_number == line,
        (ScannerError::NP(info), ScanFault::BadNumber(at, span, d)) => info.cursor_pos == at
            && info.span == span && info.description@ == d && info.raw_code@ == code
            && info.file_name@ == file && info.line_number == line,
        _ => false,
    }
}

/// The tokens `ts` put in front of the tokens of an outcome.
pub open spec fn prepend_tokens(
    ts: Seq<CodeRef<TokenView>>,
    r: Result<Seq<CodeRef<TokenView>>, (ScanFault, int)>,
) -> Result<Seq<CodeRef<TokenView>>, (ScanFault, int)> {
    match r {
        Ok(rest) => Ok(ts + rest),
        Err(e) => Err(e),
    }
}

/// The views of the tokens.
pub open spec fn token_views(ts: Seq<CodeToken>) -> Seq<CodeRef<TokenView>> {
    ts.map_values(|t: CodeToken| t@)
}

impl<'a> Scanner<'a> {
    /// The code being read.
    pub closed spec fn spec_raw_code(&self) -> Seq<char> {
        self.raw_code@
    }

    /// Where the scanner stands in the code.
    pub closed spec fn spec_cursor_pos(&self) -> nat {
        self.cursor_pos as nat
    }

    /// The name of the file the code came from.
    pub closed spec fn spec_file_name(&self) -> Seq<char> {
        self.file_name@
    }

    /// The line the scanner is on.
    pub closed spec fn spec_line_number(&self) -> nat {
        self.line_number as nat
    }

    /// The tokens read so far.
    pub closed spec fn spec_tokens(&self) -> Seq<CodeRef<TokenView>> {
        token_views(self.tokens@)
    }

    /// The file name, the code and the tokens, taken out of the scanner.
    pub fn into_parts(self) -> (r: (String, &'a str, Vec<CodeToken>))
        ensures
            r.0@ == self.spec_file_name(),
            r.1@ == self.spec_raw_code(),
            token_views(r.2@) == self.spec_tokens(),
    {
        (self.file_name, self.raw_code, self.tokens)
    }

    /// The scanner's own state agrees with its code.
    pub closed spec fn wf(&self) -> bool {
        &&& self.code@ == self.raw_code@
        &&& self.cursor_pos <= self.code.len()
        &&& self.code.len() + 1 < usize::MAX
        &&& self.line_number <= self.cursor_pos + 1
    }

    /// Only the cursor moved.
    pub closed spec fn same_but_cursor(&self, other: &Scanner<'a>) -> bool {
        &&& self.code@ == other.code@
        &&& self.raw_code@ == other.raw_code@
        &&& self.file_name@ == other.file_name@
        &&& self.tokens@ == other.tokens@
        &&& self.line_number == other.line_number
    }
}

impl<'a> CodeInformation for Scanner<'a> {
    /// One character is underlined.
    open spec fn spec_item_span(&self) -> nat {
        1
    }

    /// No description is given.
    open spec fn spec_description(&self) -> Seq<char> {
        Seq::empty()
    }

    fn item_span(&self) -> (r: usize) {
        1
    }

    fn description(&self) -> (r: String) {
        String::new()
    }

    open spec fn spec_raw_code(&self) -> Seq<char> {
        Scanner::spec_raw_code(self)
    }

    open spec fn spec_cursor_pos(&self) -> nat {
        Scanner::spec_cursor_pos(self)
    }

    open spec fn spec_file_name(&self) -> Seq<char> {
        Scanner::spec_file_name(self)
    }

    open spec fn spec_line_number(&self) -> nat {
        Scanner::spec_line_number(self)
    }

    fn raw_code(&self) -> (r: String) {
        self.raw_code.to_owned()
    }

    fn cursor_pos(&self) -> (r: usize) {
        self.cursor_pos
    }

    fn file_name(&self) -> (r: String) {
        self.file_name.clone()
    }

    fn line_number(&self) -> (r: usize) {
        self.line_number
    }
}

} // verus!

verus! {

/// A string of one character.
fn char_string(c: char) -> (s: String)
    ensures
        s@ == seq![c],
{
    let mut s = String::new();
    push_char(&mut s, c);
    s
}

impl<'a> Scanner<'a> {
    /// If the code holds `chars` at the cursor, consumes them and says so;
    /// otherwise leaves the cursor where it is.
    fn scan_peek(&mut self, chars: &str) -> (r: bool)
        requires
            old(self).wf(),
            chars@.len() >= 1,
        ensures
            final(self).wf(),
            final(self).same_but_cursor(old(self)),
            old(self).cursor_pos <= final(self).cursor_pos,
            r == spec_peek(old(self).code@, old(self).cursor_pos as int, chars@),
            final(self).cursor_pos == if r {
                old(self).cursor_pos + chars@.len()
            } else {
                old(self).cursor_pos as int
            },
    {
        let pat = chars_of(chars);
        let length = pat.len();
        if length > self.code.len() || self.cursor_pos > self.code.len() - length {
            return false;
        }
        let mut i: usize = 0;
        while i < length
            invariant
                self.wf(),
                self.same_but_cursor(old(self)),
                self.cursor_pos == old(self).cursor_pos,
                pat@ == chars@,
                length == pat.len(),
                self.cursor_pos + length <= self.code.len(),
                i <= length,
                forall|j: int| 0 <= j < i ==> self.code@[self.cursor_pos + j] == pat@[j],
            decreases length - i,
        {
            if self.code[self.cursor_pos + i] != pat[i] {
                assert(self.code@.subrange(
                    self.cursor_pos as int,
                    self.cursor_pos + length,
                )[i as int] != pat@[i as int]);
                return false;
            }
            i = i + 1;
        }
        assert(self.code@.subrange(self.cursor_pos as int, self.cursor_pos + length) =~= pat@);
        self.cursor_pos = self.cursor_pos + length;
        true
    }

    /// Consumes every copy of `char` that follows the cursor, one after
    /// another, and gives how many there were.
    fn scan_peek_all(&mut self, char: &str) -> (r: usize)
        requires
            old(self).wf(),
            char@.len() >= 1,
        ensures
            final(self).wf(),
            final(self).same_but_cursor(old(self)),
            old(self).cursor_pos <= final(self).cursor_pos,
            r == spec_run(old(self).code@, old(self).cursor_pos as int, char@),
            final(self).cursor_pos == spec_run_end(
                old(self).code@,
                old(self).cursor_pos as int,
                char@,
            ),
    {
        let ghost c = self.code@;
        let ghost start = self.cursor_pos as int;
        let mut count_found: usize = 0;
        while self.scan_peek(char)
            invariant
                self.wf(),
                self.same_but_cursor(old(self)),
                c == self.code@,
                char@.len() >= 1,
                count_found <= self.cursor_pos - start,
                start <= self.cursor_pos,
                spec_run(c, start, char@) == count_found + spec_run(
                    c,
                    self.cursor_pos as int,
                    char@,
                ),
                spec_run_end(c, start, char@) == spec_run_end(c, self.cursor_pos as int, char@),
            decreases self.code.len() - self.cursor_pos,
        {
            count_found = count_found + 1;
        }
        count_found
    }

    /// Reads a word whose first character `first` was just consumed: a
    /// keyword or a name. Gives `None`, consuming nothing, if `first` cannot
    /// begin a word.
    fn scan_peek_token_keyword(&mut self, first: &str) -> (r: Option<Token>)
        requires
            old(self).wf(),
        ensures
            final(self).wf(),
            final(self).same_but_cursor(old(self)),
            old(self).cursor_pos <= final(self).cursor_pos,
            match spec_scan_word(old(self).code@, old(self).cursor_pos as int, first@) {
                Some((t, e)) => r matches Some(tok) && tok@ == t && final(self).cursor_pos == e,
                None => r is None && final(self).cursor_pos == old(self).cursor_pos,
            },
    {
        if !Token::is_valid_word_char(first, true) {
            return None;
        }
        let ghost c = self.code@;
        let ghost start = self.cursor_pos as int;
        let mut pos = self.cursor_pos;
        let mut word = chars_of(first);
        loop
            invariant
                self.wf(),
                self.same_but_cursor(old(self)),
                self.cursor_pos == start,
                c == self.code@,
                start <= pos <= c.len(),
                spec_word_end(c, start) == spec_word_end(c, pos as int),
                word@ == first@ + c.subrange(start, pos as int),
            ensures
                start <= pos <= c.len(),
                word@ == first@ + c.subrange(start, pos as int),
                spec_word_end(c, start) == pos,
            decreases c.len() - pos,
        {
            if pos >= self.code.len() {
                break;
            }
            let ch = self.code[pos];
            if !(('A' <= ch && ch <= 'Z') || ('a' <= ch && ch <= 'z') || ch == '_' || ('0' <= ch
                && ch <= '9')) {
                break;
            }
            pos = pos + 1;
            word.push(ch);
            assert(c.subrange(start, pos as int) =~= c.subrange(start, pos - 1).push(ch));
        }
        self.cursor_pos = pos;
        match keyword_of_chars(&word) {
            Some(token) => Some(token),
            None => Some(Token::Identifier(string_from_chars(&word))),
        }
    }

    /// Reads a number whose first character `first` was just consumed,
    /// consuming it on success. Gives `None`, consuming nothing, if `first`
    /// cannot begin a number or the number is a lone `.`; an error if the
    /// number has more than one point, a point and an exponent, or does not
    /// read as an `f32`.
    fn scan_peek_token_number(&mut self, first: &str) -> (r: Result<Option<Token>, ScannerError>)
        requires
            old(self).wf(),
        ensures
            final(self).wf(),
            final(self).same_but_cursor(old(self)),
            old(self).cursor_pos <= final(self).cursor_pos,
            match spec_scan_number(old(self).code@, old(self).cursor_pos as int, first@) {
                Ok(Some((t, e))) => r matches Ok(Some(tok)) && tok@ == t && final(self).cursor_pos
                    == e,
                Ok(None) => r matches Ok(None) && final(self).cursor_pos == old(self).cursor_pos,
                Err(f) => r matches Err(err) && fault_reported(
                    err,
                    f,
                    old(self).line_number as int,
                    old(self).raw_code@,
                    old(self).file_name@,
                ) && final(self).cursor_pos == old(self).cursor_pos,
            },
    {
        if !Token::is_valid_number_char(first) {
            return Ok(None);
        }
        let ghost c = self.code@;
        let ghost start = self.cursor_pos as int;
        let first_chars = chars_of(first);
        let mut pos = self.cursor_pos;
        let mut number = chars_of(first);
        let mut decimal_number: usize = if first_chars[0] == '.' {
            1
        } else {
            0
        };
        let ghost dots0: nat = decimal_number as nat;
        let mut exponent_format = false;
        loop
            invariant
                self.wf(),
                self.same_but_cursor(old(self)),
                self.cursor_pos == start,
                c == self.code@,
                start <= pos <= c.len(),
                decimal_number <= pos - start + 1,
                first@.len() == 1,
                dots0 == (if first@[0] == '.' { 1nat } else { 0nat }),
                spec_number_end(c, start, dots0, false) == spec_number_end(
                    c,
                    pos as int,
                    decimal_number as nat,
                    exponent_format,
                ),
                number@ == first@ + c.subrange(start, pos as int),
            ensures
                start <= pos <= c.len(),
                decimal_number <= pos - start + 1,
                spec_number_end(c, start, dots0, false) == (
                    pos as int,
                    decimal_number as nat,
                    exponent_format,
                ),
                number@ == first@ + c.subrange(start, pos as int),
            decreases c.len() - pos,
        {
            if pos >= self.code.len() {
                break;
            }
            let ch = self.code[pos];
            if ('0' <= ch && ch <= '9') || ch == '.' {
                if ch == '.' {
                    decimal_number = decimal_number + 1;
                }
                pos = pos + 1;
                number.push(ch);
            } else if (ch == 'e' || ch == 'E') && !exponent_format && decimal_number == 0 {
                pos = pos + 1;
                number.push(ch);
                exponent_format = true;
            } else if ch == '-' && exponent_format {
                pos = pos + 1;
                number.push(ch);
            } else {
                break;
            }
            assert(c.subrange(start, pos as int) =~= c.subrange(start, pos - 1).push(ch));
        }
        if decimal_number > 1 {
            let mut description = "a number can't have more than 1 decimal point, found ".to_owned();
            let count = decimal_string(decimal_number);
            push_str(&mut description, count.as_str());
            return Err(ScannerError::number_parsing(self, number.len(), description.as_str()));
        }
        if decimal_number == 1 && exponent_format {
            return Err(
                ScannerError::number_parsing(
                    self,
                    number.len(),
                    "a number can't have more a decimal and be in exp format",
                ),
            );
        }
        let ghost spec_number = first@ + c.subrange(start, pos as int);
        assert(number@ == spec_number);
        if number.len() == 1 && number[0] == '.' {
            assert(number@ =~= seq!['.']);
            return Ok(None);
        }
        assert(spec_number != seq!['.']) by {
            if spec_number == seq!['.'] {
                assert(number@[0] == '.');
            }
        }
        if !is_float_literal(&number) {
            return Err(ScannerError::number_parsing(self, number.len(), "can't parse as number"));
        }
        self.cursor_pos = pos;
        Ok(Some(Token::Number(string_from_chars(&number))))
    }

    /// Reads an opening long bracket `[==[` (the first `[` just consumed, or,
    /// when the character before the cursor is not `[`, standing at the
    /// cursor) and gives its level, the number of `=`; consumes nothing and gives
    /// `None` if there is none.
    fn scan_peek_multiline_block(&mut self) -> (r: Option<usize>)
        requires
            old(self).wf(),
            old(self).cursor_pos >= 1,
        ensures
            final(self).wf(),
            final(self).same_but_cursor(old(self)),
            old(self).cursor_pos <= final(self).cursor_pos,
            match spec_long_open(old(self).code@, old(self).cursor_pos as int) {
                Some((level, e)) => r == Some(level as usize) && final(self).cursor_pos == e,
                None => r is None && final(self).cursor_pos == old(self).cursor_pos,
            },
    {
        let ghost c = self.code@;
        let mut working_pos = self.cursor_pos;
        let mut level: usize = 0;
        if self.code[working_pos - 1] != '[' {
            if working_pos < self.code.len() && self.code[working_pos] == '[' {
                working_pos = working_pos + 1;
            } else {
                return None;
            }
        }
        let ghost start = working_pos as int;
        loop
            invariant_except_break
                level == working_pos - start,
                level <= working_pos,
                spec_long_open(c, self.cursor_pos as int) == spec_long_open_from(
                    c,
                    working_pos as int,
                    level as nat,
                ),
            invariant
                self.wf(),
                self.same_but_cursor(old(self)),
                self.cursor_pos == old(self).cursor_pos,
                c == self.code@,
                start <= working_pos <= c.len() + 1,
            ensures
                working_pos <= c.len(),
                spec_long_open(c, self.cursor_pos as int) == Some((level as nat, working_pos as int)),
            decreases c.len() + 1 - working_pos,
        {
            if working_pos >= self.code.len() {
                return None;
            }
            let ch = self.code[working_pos];
            working_pos = working_pos + 1;
            if ch == '=' {
                level = level + 1;
            } else if ch == '[' {
                break;
            } else {
                return None;
            }
        }
        self.cursor_pos = working_pos;
        Some(level)
    }

    /// Reads a quoted string up to the closing `starter`, the opening quote
    /// having been consumed; an error if the code ends first.
    fn scan_token_string(&mut self, starter: &str) -> (r: Result<Token, ScannerError>)
        requires
            old(self).wf(),
            old(self).cursor_pos >= 1,
        ensures
            final(self).wf(),
            final(self).same_but_cursor(old(self)),
            old(self).cursor_pos <= final(self).cursor_pos,
            match spec_scan_string(old(self).code@, old(self).cursor_pos as int, starter@) {
                Ok((t, e)) => r matches Ok(tok) && tok@ == t && final(self).cursor_pos == e,
                Err(f) => r matches Err(err) && fault_reported(
                    err,
                    f,
                    old(self).line_number as int,
                    old(self).raw_code@,
                    old(self).file_name@,
                ),
            },
    {
        let ghost c = self.code@;
        let quote = chars_of(starter);
        let mut string: Vec<char> = Vec::new();
        loop
            invariant
                self.wf(),
                self.same_but_cursor(old(self)),
                c == self.code@,
                quote@ == starter@,
                1 <= old(self).cursor_pos <= self.cursor_pos <= c.len(),
                spec_string_body(c, old(self).cursor_pos as int, starter@, seq![])
                    == spec_string_body(c, self.cursor_pos as int, starter@, string@),
            decreases c.len() - self.cursor_pos,
        {
            if self.cursor_pos == self.code.len() {
                return Err(
                    ScannerError::unterminated_code_segment(self, 1, 1, "string not terminated"),
                );
            }
            let ch = self.code[self.cursor_pos];
            self.cursor_pos = self.cursor_pos + 1;
            if quote.len() == 1 && quote[0] == ch {
                assert(seq![ch] == starter@);
                return Ok(Token::String(string_from_chars(&string)));
            }
            assert(seq![ch] != starter@);
            string.push(ch);
        }
    }

    /// Reads the body of a long string or comment of the given level, up to
    /// and including its closing bracket `]==]`; an error if the code ends
    /// first, pointing back at the opening bracket.
    fn scan_token_multiline(&mut self, level: usize) -> (r: Result<String, ScannerError>)
        requires
            old(self).wf(),
            old(self).cursor_pos >= level + 2,
        ensures
            final(self).wf(),
            final(self).same_but_cursor(old(self)),
            old(self).cursor_pos <= final(self).cursor_pos,
            match spec_scan_long(old(self).code@, old(self).cursor_pos as int, level as nat) {
                Ok((t, e)) => r matches Ok(text) && text@ == t && final(self).cursor_pos == e,
                Err(f) => r matches Err(err) && fault_reported(
                    err,
                    f,
                    old(self).line_number as int,
                    old(self).raw_code@,
                    old(self).file_name@,
                ),
            },
    {
        let ghost c = self.code@;
        let mut ending_chars = String::new();
        let mut k: usize = 0;
        while k < level
            invariant
                k <= level,
                ending_chars@ == repeat_char('=', k as nat),
            decreases level - k,
        {
            push_char(&mut ending_chars, '=');
            k = k + 1;
        }
        push_char(&mut ending_chars, ']');
        proof {
            lemma_repeat_len('=', level as nat);
        }
        assert(ending_chars@ == spec_long_close(level as nat));
        let mut string: Vec<char> = Vec::new();
        loop
            invariant_except_break
                spec_long_body(c, old(self).cursor_pos as int, level as nat, seq![])
                    == spec_long_body(c, self.cursor_pos as int, level as nat, string@),
            invariant
                self.wf(),
                self.same_but_cursor(old(self)),
                c == self.code@,
                ending_chars@ == spec_long_close(level as nat),
                ending_chars@.len() == level + 1,
                level + 2 <= old(self).cursor_pos <= self.cursor_pos <= c.len(),
            ensures
                spec_long_body(c, old(self).cursor_pos as int, level as nat, seq![]) == Some(
                    (string@, self.cursor_pos as int),
                ),
            decreases c.len() - self.cursor_pos,
        {
            if self.cursor_pos == self.code.len() {
                return Err(
                    ScannerError::unterminated_code_segment(
                        self,
                        level + 2,
                        level + 2,
                        "multiline comment has no end, starts here",
                    ),
                );
            }
            let ch = self.code[self.cursor_pos];
            self.cursor_pos = self.cursor_pos + 1;
            if ch == ']' {
                if self.scan_peek(ending_chars.as_str()) {
                    break;
                } else {
                    string.push(']');
                }
            } else {
                string.push(ch);
            }
        }
        Ok(string_from_chars(&string))
    }

    /// Reads a long string of the given level, its opening bracket having
    /// been consumed.
    fn scan_token_multiline_string(&mut self, level: usize) -> (r: Result<Token, ScannerError>)
        requires
            old(self).wf(),
            old(self).cursor_pos >= level + 2,
        ensures
            final(self).wf(),
            final(self).same_but_cursor(old(self)),
            old(self).cursor_pos <= final(self).cursor_pos,
            match spec_scan_long(old(self).code@, old(self).cursor_pos as int, level as nat) {
                Ok((t, e)) => r matches Ok(tok) && tok@ == TokenView::MultiLineString(t)
                    && final(self).cursor_pos == e,
                Err(f) => r matches Err(err) && fault_reported(
                    err,
                    f,
                    old(self).line_number as int,
                    old(self).raw_code@,
                    old(self).file_name@,
                ),
            },
    {
        match self.scan_token_multiline(level) {
            Err(error) => Err(error),
            Ok(string) => Ok(Token::MultiLineString(string)),
        }
    }

    /// Reads a comment, its `--` having been consumed: a long comment if a
    /// long bracket opens, else the rest of the line (the end of the line is
    /// left for the next token).
    fn scan_token_comment(&mut self) -> (r: Result<Token, ScannerError>)
        requires
            old(self).wf(),
            old(self).cursor_pos >= 1,
        ensures
            final(self).wf(),
            final(self).same_but_cursor(old(self)),
            old(self).cursor_pos <= final(self).cursor_pos,
            match spec_scan_comment(old(self).code@, old(self).cursor_pos as int) {
                Ok((t, e)) => r matches Ok(tok) && tok@ == t && final(self).cursor_pos == e,
                Err(f) => r matches Err(err) && fault_reported(
                    err,
                    f,
                    old(self).line_number as int,
                    old(self).raw_code@,
                    old(self).file_name@,
                ),
            },
    {
        let ghost c = self.code@;
        let ghost pos = self.cursor_pos as int;
        proof {
            let start = if c[pos - 1] == '[' {
                pos
            } else {
                pos + 1
            };
            lemma_long_open_from_end(c, start, 0);
        }
        if let Some(level) = self.scan_peek_multiline_block() {
            match self.scan_token_multiline(level) {
                Err(error) => Err(error),
                Ok(in_string) => Ok(Token::Comment(in_string)),
            }
        } else {
            let mut string: Vec<char> = Vec::new();
            loop
                invariant
                    self.wf(),
                    self.same_but_cursor(old(self)),
                    c == self.code@,
                    0 <= pos <= self.cursor_pos <= c.len(),
                    spec_line_end(c, pos) == spec_line_end(c, self.cursor_pos as int),
                    string@ == c.subrange(pos, self.cursor_pos as int),
                ensures
                    pos <= self.cursor_pos <= c.len(),
                    spec_line_end(c, pos) == self.cursor_pos,
                    string@ == c.subrange(pos, self.cursor_pos as int),
                decreases c.len() - self.cursor_pos,
            {
                if self.cursor_pos == self.code.len() {
                    break;
                }
                let ch = self.code[self.cursor_pos];
                if ch == '\n' || ch == '\r' {
                    break;
                }
                assert(c.subrange(pos, self.cursor_pos + 1) =~= c.subrange(
                    pos,
                    self.cursor_pos as int,
                ).push(ch));
                self.cursor_pos = self.cursor_pos + 1;
                string.push(ch);
            }
            Ok(Token::Comment(string_from_chars(&string)))
        }
    }

    /// Reads the next token: its kind and text, where it starts and ends and
    /// its line. Gives `None` at the end of the code; an error if it finds
    /// something it cannot read.
    pub fn get_next_token(&mut self) -> (r: Result<Option<CodeToken>, ScannerError>)
        requires
            old(self).wf(),
        ensures
            final(self).wf(),
            final(self).same_but_cursor(old(self)),
            old(self).spec_cursor_pos() <= final(self).spec_cursor_pos(),
            match r {
                Ok(None) => old(self).spec_cursor_pos() >= old(self).spec_raw_code().len()
                    && final(self).spec_cursor_pos() == old(self).spec_cursor_pos(),
                Ok(Some(t)) => old(self).spec_cursor_pos() < old(self).spec_raw_code().len() && spec_next_token(
                    old(self).spec_raw_code(),
                    old(self).spec_cursor_pos() as int,
                ) == Ok::<(TokenView, int), ScanFault>((t@->item, t@->code_end as int)) && t@->code_start
                    == old(self).spec_cursor_pos() && t@->line_number == old(self).spec_line_number()
                    && final(self).spec_cursor_pos() == t@->code_end && old(self).spec_cursor_pos()
                    < final(self).spec_cursor_pos(),
                Err(e) => old(self).spec_cursor_pos() < old(self).spec_raw_code().len() && (spec_next_token(
                    old(self).spec_raw_code(),
                    old(self).spec_cursor_pos() as int,
                ) matches Err(f) && fault_reported(
                    e,
                    f,
                    old(self).spec_line_number() as int,
                    old(self).spec_raw_code(),
                    old(self).spec_file_name(),
                )),
            },
    {
        if self.cursor_pos >= self.code.len() {
            return Ok(None);
        }
        proof {
            reveal_strlit("-");
            reveal_strlit("=");
            reveal_strlit("..");
            reveal_strlit(".");
            reveal_strlit("\"");
            reveal_strlit("'");
            reveal_strlit(" ");
            assert("-"@ =~= seq!['-']);
            assert("="@ =~= seq!['=']);
            assert(".."@ =~= seq!['.', '.']);
            assert("."@ =~= seq!['.']);
            assert("\""@ =~= seq!['"']);
            assert("'"@ =~= seq!['\'']);
            assert(" "@ =~= seq![' ']);
        }
        let ghost c = self.code@;
        let code_start: usize = self.cursor_pos;
        let character = self.code[self.cursor_pos];
        self.cursor_pos = self.cursor_pos + 1;
        let token = if character == '+' {
            Token::Plus
        } else if character == '-' {
            if self.scan_peek("-") {
                match self.scan_token_comment() {
                    Ok(t) => t,
                    Err(e) => return Err(e),
                }
            } else {
                Token::Minus
            }
        } else if character == '*' {
            Token::Star
        } else if character == '/' {
            Token::Slash
        } else if character == '%' {
            Token::Percent
        } else if character == '^' {
            Token::Carrot
        } else if character == '#' {
            Token::Pound
        } else if character == '<' {
            if self.scan_peek("=") {
                Token::LessEqual
            } else {
                Token::LessThan
            }
        } else if character == '>' {
            if self.scan_peek("=") {
                Token::GreaterEqual
            } else {
                Token::GreaterThan
            }
        } else if character == '=' {
            if self.scan_peek("=") {
                Token::EqualEqual
            } else {
                Token::Equal
            }
        } else if character == '(' {
            Token::LeftParen
        } else if character == ')' {
            Token::RightParen
        } else if character == '[' {
            proof {
                lemma_long_open_from_end(c, code_start + 1, 0);
            }
            if let Some(level) = self.scan_peek_multiline_block() {
                match self.scan_token_multiline_string(level) {
                    Ok(t) => t,
                    Err(e) => return Err(e),
                }
            } else {
                Token::LeftBracket
            }
        } else if character == ']' {
            Token::RightBracket
        } else if character == '{' {
            Token::LeftMoustache
        } else if character == '}' {
            Token::RightMoustache
        } else if character == ';' {
            Token::SemiColon
        } else if character == ':' {
            Token::Colon
        } else if character == ',' {
            Token::Comma
        } else if character == '.' {
            if self.scan_peek("..") {
                Token::TriplePeriod
            } else if self.scan_peek(".") {
                Token::DoublePeriod
            } else {
                match self.scan_peek_token_number(".") {
                    Ok(Some(num)) => num,
                    Ok(None) => Token::Period,
                    Err(e) => return Err(e),
                }
            }
        } else if character == '~' {
            if self.scan_peek("=") {
                Token::NotEqual
            } else {
                let e = ScannerError::illegal_character(self, None);
                return Err(e);
            }
        } else if character == '"' {
            match self.scan_token_string("\"") {
                Ok(t) => t,
                Err(e) => return Err(e),
            }
        } else if character == '\'' {
            match self.scan_token_string("'") {
                Ok(t) => t,
                Err(e) => return Err(e),
            }
        } else if character == ' ' {
            self.scan_peek_all(" ");
            Token::WhiteSpace
        } else if character == '\n' || character == '\r' {
            Token::EOL
        } else {
            let first = char_string(character);
            match self.scan_peek_token_keyword(first.as_str()) {
                Some(keyword) => keyword,
                None => match self.scan_peek_token_number(first.as_str()) {
                    Ok(Some(number)) => number,
                    Ok(None) => return Err(ScannerError::illegal_character(self, None)),
                    Err(e) => return Err(e),
                },
            }
        };
        let code_token = CodeRef::CodeRef {
            item: token,
            code_start,
            code_end: self.cursor_pos,
            line_number: self.line_number,
        };
        Ok(Some(code_token))
    }

    /// Reads all the tokens of the code, counting lines as it goes. Fails if
    /// the scanner has already read tokens, or on the first thing it cannot
    /// read.
    pub fn scan(self) -> (r: Result<Self, ScannerError>)
        requires
            self.wf(),
        ensures
            self.spec_tokens().len() != 0 ==> (r matches Err(ScannerError::GEN(d)) && d@
                == "can't run scan more than once."@),
            self.spec_tokens().len() == 0 ==> match spec_tokens_from(
                self.spec_raw_code(),
                self.spec_cursor_pos() as int,
                self.spec_line_number() as int,
            ) {
                Ok(ts) => r matches Ok(s) && s.wf() && s.spec_tokens() == ts && s.spec_raw_code()
                    == self.spec_raw_code() && s.spec_file_name() == self.spec_file_name(),
                Err((f, line)) => r matches Err(e) && fault_reported(
                    e,
                    f,
                    line,
                    self.spec_raw_code(),
                    self.spec_file_name(),
                ),
            },
    {
        if self.tokens.len() != 0 {
            return Err(ScannerError::general("can't run scan more than once."));
        }
        let mut this = self;
        let ghost c = this.code@;
        let ghost start = spec_tokens_from(c, this.cursor_pos as int, this.line_number as int);
        let ghost raw = this.raw_code@;
        let ghost file = this.file_name@;
        assert(token_views(this.tokens@) =~= Seq::<CodeRef<TokenView>>::empty());
        assert(prepend_tokens(token_views(this.tokens@), start) =~= start) by {
            if let Ok(rest) = start {
                assert(token_views(this.tokens@) + rest =~= rest);
            }
        }
        loop
            invariant
                this.wf(),
                self.tokens@.len() == 0,
                c == self.code@,
                raw == self.raw_code@,
                file == self.file_name@,
                start == spec_tokens_from(c, self.cursor_pos as int, self.line_number as int),
                c == this.code@,
                raw == this.raw_code@,
                file == this.file_name@,
                start == prepend_tokens(
                    token_views(this.tokens@),
                    spec_tokens_from(c, this.cursor_pos as int, this.line_number as int),
                ),
            ensures
                this.wf(),
                this.cursor_pos >= c.len(),
                c == this.code@,
                raw == this.raw_code@,
                file == this.file_name@,
                start == prepend_tokens(
                    token_views(this.tokens@),
                    spec_tokens_from(c, this.cursor_pos as int, this.line_number as int),
                ),
            decreases c.len() - this.cursor_pos,
        {
            let ghost before = token_views(this.tokens@);
            let ghost cur = this.cursor_pos as int;
            let ghost line = this.line_number as int;
            match this.get_next_token() {
                Err(e) => {
                    assert(spec_tokens_from(c, cur, line) is Err);
                    return Err(e);
                },
                Ok(None) => break,
                Ok(Some(token)) => {
                    let ghost item = token@;
                    let ghost next_line = if item->item is EOL {
                        this.line_number + 1
                    } else {
                        this.line_number as int
                    };
                    assert(spec_tokens_from(c, token@->code_start as int, this.line_number as int)
                        == prepend_tokens(
                        seq![item],
                        spec_tokens_from(c, token@->code_end as int, next_line),
                    ));
                    if matches!(token.item(), Token::EOL) {
                        this.line_number = this.line_number + 1;
                    }
                    this.tokens.push(token);
                    assert(token_views(this.tokens@) =~= before.push(item));
                    assert(start == prepend_tokens(
                        token_views(this.tokens@),
                        spec_tokens_from(c, this.cursor_pos as int, this.line_number as int),
                    )) by {
                        if let Ok(rest) = spec_tokens_from(
                            c,
                            this.cursor_pos as int,
                            this.line_number as int,
                        ) {
                            assert(before + (seq![item] + rest) =~= before.push(item) + rest);
                        }
                    }
                },
            }
        }
        Ok(this)
    }

    /// Reads code into tokens. The file name, if given, is what errors
    /// report the code came from.
    pub fn from_str(raw_code: &'a str, file_name: Option<&str>) -> (r: Result<
        Scanner<'a>,
        ScannerError,
    >)
        requires
            vstd::string::is_ascii(raw_code),
            raw_code@.len() + 1 < usize::MAX,
        ensures
            ({
                let file = match file_name {
                    Some(name) => name@,
                    None => Seq::<char>::empty(),
                };
                match spec_tokens(raw_code@) {
                    Ok(ts) => r matches Ok(s) && s.wf() && s.spec_tokens() == ts && s.spec_raw_code()
                        == raw_code@ && s.spec_file_name() == file,
                    Err((f, line)) => r matches Err(e) && fault_reported(
                        e,
                        f,
                        line,
                        raw_code@,
                        file,
                    ),
                }
            }),
    {
        let scanner = Scanner {
            file_name: if let Some(name) = file_name {
                name.to_owned()
            } else {
                String::new()
            },
            raw_code: raw_code,
            tokens: Vec::new(),
            code: chars_of(raw_code),
            cursor_pos: 0,
            line_number: 1,
        };
        scanner.scan()
    }

    /// A scanner over the given code, named "buffer", that has read nothing.
    fn init(raw_code: &'a str) -> (s: Scanner<'a>)
        requires
            raw_code@.len() + 1 < usize::MAX,
        ensures
            s.wf(),
            s.tokens@.len() == 0,
            s.raw_code@ == raw_code@,
            s.file_name@ == "buffer"@,
            s.cursor_pos == 0,
            s.line_number == 1,
    {
        Scanner {
            file_name: "buffer".to_owned(),
            raw_code: raw_code,
            tokens: Vec::new(),
            code: chars_of(raw_code),
            cursor_pos: 0,
            line_number: 1,
        }
    }
}

impl<'a> Default for Scanner<'a> {
    /// A scanner over no code, named "buffer", that has read nothing.
    fn default() -> (s: Scanner<'a>)
        ensures
            s.spec_raw_code() == Seq::<char>::empty(),
            s.spec_file_name() == "buffer"@,
            s.spec_tokens() == Seq::<CodeRef<TokenView>>::empty(),
            s.spec_cursor_pos() == 0,
            s.spec_line_number() == 1,
    {
        proof {
            reveal_strlit("");
        }
        let s = Scanner::init("");
        assert(s.tokens@ =~= Seq::<CodeToken>::empty());
        assert(token_views(s.tokens@) =~= Seq::<CodeRef<TokenView>>::empty());
        s
    }
}

/// Reads code, named "buffer", into tokens.
pub fn scan(code: &str) -> (r: Result<Scanner, ScannerError>)
    requires
        vstd::string::is_ascii(code),
        code@.len() + 1 < usize::MAX,
    ensures
        match spec_tokens(code@) {
            Ok(ts) => r matches Ok(s) && s.wf() && s.spec_tokens() == ts && s.spec_raw_code() == code@
                && s.spec_file_name() == "buffer"@,
            Err((f, line)) => r matches Err(e) && fault_reported(e, f, line, code@, "buffer"@),
        },
{
    Scanner::init(code).scan()
}


} // verus!
