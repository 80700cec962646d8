//! The lexical grammar the scanner reads, stated over the characters of the
//! code. Positions count characters from the start of the code.

use vstd::prelude::*;
use crate::token::{TokenView, spec_is_word_char, spec_is_number_char, spec_is_eol, spec_keyword};
use crate::coderef::CodeRef;
use crate::text::{repeat_char, decimal};

verus! {

/// The code holds `pat` at `pos`.
pub open spec fn spec_peek(c: Seq<char>, pos: int, pat: Seq<char>) -> bool {
    0 <= pos && pos + pat.len() <= c.len() && c.subrange(pos, pos + pat.len()) == pat
}

/// How many copies of `pat` follow one another in the code from `pos`.
pub open spec fn spec_run(c: Seq<char>, pos: int, pat: Seq<char>) -> nat
    decreases c.len() - pos,
{
    if pat.len() > 0 && spec_peek(c, pos, pat) {
        1 + spec_run(c, pos + pat.len(), pat)
    } else {
        0
    }
}

/// Where the run of copies of `pat` that starts at `pos` ends.
pub open spec fn spec_run_end(c: Seq<char>, pos: int, pat: Seq<char>) -> int
    decreases c.len() - pos,
{
    if pat.len() > 0 && spec_peek(c, pos, pat) {
        spec_run_end(c, pos + pat.len(), pat)
    } else {
        pos
    }
}

/// Where the run of word characters that starts at `pos` ends.
pub open spec fn spec_word_end(c: Seq<char>, pos: int) -> int
    decreases c.len() - pos,
{
    if 0 <= pos < c.len() && spec_is_word_char(c[pos], false) {
        spec_word_end(c, pos + 1)
    } else {
        pos
    }
}

/// Reads the rest of a number from `pos`, counting decimal points (`dots`)
/// and whether an exponent has begun (`exp`): digits and points are taken;
/// an `e` or `E` only once, and only before any point; a `-` only after the
/// exponent began. Gives where the number ends, the points and the exponent
/// flag.
pub open spec fn spec_number_end(c: Seq<char>, pos: int, dots: nat, exp: bool) -> (int, nat, bool)
    decreases c.len() - pos,
{
    if pos < 0 || pos >= c.len() {
        (pos, dots, exp)
    } else {
        let ch = c[pos];
        if spec_is_number_char(ch) {
            spec_number_end(c, pos + 1, if ch == '.' { dots + 1 } else { dots }, exp)
        } else if (ch == 'e' || ch == 'E') && !exp && dots == 0 {
            spec_number_end(c, pos + 1, dots, true)
        } else if ch == '-' && exp {
            spec_number_end(c, pos + 1, dots, exp)
        } else {
            (pos, dots, exp)
        }
    }
}

/// A decimal digit.
pub open spec fn spec_is_digit(ch: char) -> bool {
    '0' <= ch && ch <= '9'
}

/// Every character is a decimal digit.
pub open spec fn spec_all_digits(s: Seq<char>) -> bool {
    forall|i: int| 0 <= i < s.len() ==> spec_is_digit(#[trigger] s[i])
}

/// The first index at or after `from` that holds `a` or `b`.
pub open spec fn spec_find(s: Seq<char>, from: int, a: char, b: char) -> Option<int>
    decreases s.len() - from,
{
    if from < 0 || from >= s.len() {
        None
    } else if s[from] == a || s[from] == b {
        Some(from)
    } else {
        spec_find(s, from + 1, a, b)
    }
}

/// The character in lower case, for the letters A to Z.
pub open spec fn spec_lower(ch: char) -> char {
    if 'A' <= ch && ch <= 'Z' {
        ((ch as u32) + 32) as char
    } else {
        ch
    }
}

/// The text with the letters A to Z in lower case.
pub open spec fn spec_lowered(s: Seq<char>) -> Seq<char> {
    s.map_values(|ch: char| spec_lower(ch))
}

/// The mantissa of a decimal number: digits with at most one decimal point,
/// and at least one digit.
pub open spec fn spec_is_mantissa(m: Seq<char>) -> bool {
    match spec_find(m, 0, '.', '.') {
        None => m.len() > 0 && spec_all_digits(m),
        Some(k) => spec_all_digits(m.take(k)) && spec_all_digits(m.skip(k + 1)) && (k > 0
            || m.len() > k + 1),
    }
}

/// The exponent of a decimal number, after its `e`: an optional sign, then
/// at least one digit.
pub open spec fn spec_is_exponent(t: Seq<char>) -> bool {
    let d = if t.len() > 0 && (t[0] == '+' || t[0] == '-') {
        t.drop_first()
    } else {
        t
    };
    d.len() > 0 && spec_all_digits(d)
}

/// A decimal number: a mantissa, then optionally `e` or `E` and an
/// exponent.
pub open spec fn spec_is_decimal(s: Seq<char>) -> bool {
    match spec_find(s, 0, 'e', 'E') {
        None => spec_is_mantissa(s),
        Some(k) => spec_is_mantissa(s.take(k)) && spec_is_exponent(s.skip(k + 1)),
    }
}

/// The text is read as a floating-point number by Rust's `f32` parser: an
/// optional sign, then `inf`, `infinity`, `nan` (in any case) or a decimal
/// number, as the standard library documents its grammar.
pub open spec fn spec_is_float_literal(s: Seq<char>) -> bool {
    let body = if s.len() > 0 && (s[0] == '+' || s[0] == '-') {
        s.drop_first()
    } else {
        s
    };
    spec_lowered(body) == seq!['i', 'n', 'f'] || spec_lowered(body) == seq![
        'i',
        'n',
        'f',
        'i',
        'n',
        'i',
        't',
        'y',
    ] || spec_lowered(body) == seq!['n', 'a', 'n'] || spec_is_decimal(body)
}

/// What went wrong while scanning: where the cursor was, how much to
/// underline and what to say.
pub enum ScanFault {
    /// A string, long string or long comment without an end.
    Unterminated(int, int, Seq<char>),
    /// A character that starts no token.
    Illegal(int),
    /// A number that cannot be read.
    BadNumber(int, int, Seq<char>),
}

/// The outcome of reading a number whose first character `first` was just
/// read, with the cursor at `pos`: no number, a fault, or the number and
/// where it ends.
pub open spec fn spec_scan_number(c: Seq<char>, pos: int, first: Seq<char>) -> Result<
    Option<(TokenView, int)>,
    ScanFault,
> {
    if !(first.len() == 1 && spec_is_number_char(first[0])) {
        Ok(None)
    } else {
        let dots0: nat = if first[0] == '.' { 1 } else { 0 };
        let (end, dots, exp) = spec_number_end(c, pos, dots0, false);
        let number = first + c.subrange(pos, end);
        if dots > 1 {
            Err(
                ScanFault::BadNumber(
                    pos,
                    number.len() as int,
                    "a number can't have more than 1 decimal point, found "@ + decimal(dots),
                ),
            )
        } else if dots == 1 && exp {
            Err(
                ScanFault::BadNumber(
                    pos,
                    number.len() as int,
                    "a number can't have more a decimal and be in exp format"@,
                ),
            )
        } else if number == seq!['.'] {
            Ok(None)
        } else if !spec_is_float_literal(number) {
            Err(ScanFault::BadNumber(pos, number.len() as int, "can't parse as number"@))
        } else {
            Ok(Some((TokenView::Number(number), end)))
        }
    }
}

/// Reads the `=` signs and the second `[` of a long bracket from `pos`,
/// having counted `level` signs: gives the level and where the bracket ends.
pub open spec fn spec_long_open_from(c: Seq<char>, pos: int, level: nat) -> Option<(nat, int)>
    decreases c.len() - pos,
{
    if pos < 0 || pos >= c.len() {
        None
    } else if c[pos] == '=' {
        spec_long_open_from(c, pos + 1, level + 1)
    } else if c[pos] == '[' {
        Some((level, pos + 1))
    } else {
        None
    }
}

/// An opening long bracket read from `pos` ends one past its signs and its
/// `[`.
pub proof fn lemma_long_open_from_end(c: Seq<char>, pos: int, level: nat)
    ensures
        spec_long_open_from(c, pos, level) matches Some((l, e)) ==> l >= level && e == pos + (l
            - level) + 1 && e <= c.len(),
    decreases c.len() - pos,
{
    if 0 <= pos < c.len() && c[pos] == '=' {
        lemma_long_open_from_end(c, pos + 1, level + 1);
    }
}

/// An opening long bracket `[==[` with the cursor at `pos`, just after a
/// character: if that character was the first `[`, reading starts at the
/// cursor; else the first `[` must stand at the cursor, and reading starts
/// after it.
pub open spec fn spec_long_open(c: Seq<char>, pos: int) -> Option<(nat, int)> {
    if c[pos - 1] == '[' {
        spec_long_open_from(c, pos, 0)
    } else if 0 <= pos < c.len() && c[pos] == '[' {
        spec_long_open_from(c, pos + 1, 0)
    } else {
        None
    }
}

/// The closing long bracket of a level, after its first `]`: `level` signs
/// and a `]`.
pub open spec fn spec_long_close(level: nat) -> Seq<char> {
    repeat_char('=', level).push(']')
}

/// The body of a long string or comment from `pos` up to the closing bracket
/// of its level: the text, and where the bracket ends; `None` if the code
/// ends first.
pub open spec fn spec_long_body(c: Seq<char>, pos: int, level: nat, acc: Seq<char>) -> Option<
    (Seq<char>, int),
>
    decreases c.len() - pos,
{
    if pos < 0 || pos >= c.len() {
        None
    } else if c[pos] == ']' && spec_peek(c, pos + 1, spec_long_close(level)) {
        Some((acc, pos + 1 + level + 1))
    } else {
        spec_long_body(c, pos + 1, level, acc.push(c[pos]))
    }
}

/// The body of a long string or comment, or the fault of one without end.
pub open spec fn spec_scan_long(c: Seq<char>, pos: int, level: nat) -> Result<(Seq<char>, int), ScanFault> {
    match spec_long_body(c, pos, level, seq![]) {
        Some(r) => Ok(r),
        None => Err(
            ScanFault::Unterminated(
                c.len() - (level + 2),
                (level + 2) as int,
                "multiline comment has no end, starts here"@,
            ),
        ),
    }
}

/// The body of a quoted string from `pos` up to the closing quote `quote`:
/// the text and where the quote ends; `None` if the code ends first.
pub open spec fn spec_string_body(c: Seq<char>, pos: int, quote: Seq<char>, acc: Seq<char>) -> Option<
    (Seq<char>, int),
>
    decreases c.len() - pos,
{
    if pos < 0 || pos >= c.len() {
        None
    } else if seq![c[pos]] == quote {
        Some((acc, pos + 1))
    } else {
        spec_string_body(c, pos + 1, quote, acc.push(c[pos]))
    }
}

/// A quoted string, or the fault of one without end.
pub open spec fn spec_scan_string(c: Seq<char>, pos: int, quote: Seq<char>) -> Result<(TokenView, int), ScanFault> {
    match spec_string_body(c, pos, quote, seq![]) {
        Some((t, e)) => Ok((TokenView::String(t), e)),
        None => Err(ScanFault::Unterminated(c.len() - 1, 1, "string not terminated"@)),
    }
}

/// Where the line that `pos` stands on ends: the first end-of-line
/// character at or after `pos`, or the end of the code.
pub open spec fn spec_line_end(c: Seq<char>, pos: int) -> int
    decreases c.len() - pos,
{
    if pos < 0 || pos >= c.len() || spec_is_eol(c[pos]) {
        pos
    } else {
        spec_line_end(c, pos + 1)
    }
}

/// A comment after its `--`, with the cursor at `pos`: a long comment if a
/// long bracket opens, else the rest of the line.
pub open spec fn spec_scan_comment(c: Seq<char>, pos: int) -> Result<(TokenView, int), ScanFault> {
    match spec_long_open(c, pos) {
        Some((level, p)) => match spec_scan_long(c, p, level) {
            Ok((t, e)) => Ok((TokenView::Comment(t), e)),
            Err(f) => Err(f),
        },
        None => {
            let e = spec_line_end(c, pos);
            Ok((TokenView::Comment(c.subrange(pos, e)), e))
        },
    }
}

/// A word whose first character `first` was just read, the cursor at `pos`:
/// a keyword or a name, and where it ends; `None` if `first` cannot begin a
/// word.
pub open spec fn spec_scan_word(c: Seq<char>, pos: int, first: Seq<char>) -> Option<(TokenView, int)> {
    if !(first.len() == 1 && spec_is_word_char(first[0], true)) {
        None
    } else {
        let end = spec_word_end(c, pos);
        let word = first + c.subrange(pos, end);
        match spec_keyword(word) {
            Some(k) => Some((k, end)),
            None => Some((TokenView::Identifier(word), end)),
        }
    }
}

/// The token that starts at `pos`, and where it ends; or the fault found.
pub open spec fn spec_next_token(c: Seq<char>, pos: int) -> Result<(TokenView, int), ScanFault> {
    let ch = c[pos];
    let p = pos + 1;
    if ch == '+' {
        Ok((TokenView::Plus, p))
    } else if ch == '-' {
        if spec_peek(c, p, seq!['-']) {
            spec_scan_comment(c, p + 1)
        } else {
            Ok((TokenView::Minus, p))
        }
    } else if ch == '*' {
        Ok((TokenView::Star, p))
    } else if ch == '/' {
        Ok((TokenView::Slash, p))
    } else if ch == '%' {
        Ok((TokenView::Percent, p))
    } else if ch == '^' {
        Ok((TokenView::Carrot, p))
    } else if ch == '#' {
        Ok((TokenView::Pound, p))
    } else if ch == '<' {
        if spec_peek(c, p, seq!['=']) {
            Ok((TokenView::LessEqual, p + 1))
        } else {
            Ok((TokenView::LessThan, p))
        }
    } else if ch == '>' {
        if spec_peek(c, p, seq!['=']) {
            Ok((TokenView::GreaterEqual, p + 1))
        } else {
            Ok((TokenView::GreaterThan, p))
        }
    } else if ch == '=' {
        if spec_peek(c, p, seq!['=']) {
            Ok((TokenView::EqualEqual, p + 1))
        } else {
            Ok((TokenView::Equal, p))
        }
    } else if ch == '(' {
        Ok((TokenView::LeftParen, p))
    } else if ch == ')' {
        Ok((TokenView::RightParen, p))
    } else if ch == '[' {
        match spec_long_open(c, p) {
            Some((level, q)) => match spec_scan_long(c, q, level) {
                Ok((t, e)) => Ok((TokenView::MultiLineString(t), e)),
                Err(f) => Err(f),
            },
            None => Ok((TokenView::LeftBracket, p)),
        }
    } else if ch == ']' {
        Ok((TokenView::RightBracket, p))
    } else if ch == '{' {
        Ok((TokenView::LeftMoustache, p))
    } else if ch == '}' {
        Ok((TokenView::RightMoustache, p))
    } else if ch == ';' {
        Ok((TokenView::SemiColon, p))
    } else if ch == ':' {
        Ok((TokenView::Colon, p))
    } else if ch == ',' {
        Ok((TokenView::Comma, p))
    } else if ch == '.' {
        if spec_peek(c, p, seq!['.', '.']) {
            Ok((TokenView::TriplePeriod, p + 2))
        } else if spec_peek(c, p, seq!['.']) {
            Ok((TokenView::DoublePeriod, p + 1))
        } else {
            match spec_scan_number(c, p, seq!['.']) {
                Ok(Some(r)) => Ok(r),
                Ok(None) => Ok((TokenView::Period, p)),
                Err(f) => Err(f),
            }
        }
    } else if ch == '~' {
        if spec_peek(c, p, seq!['=']) {
            Ok((TokenView::NotEqual, p + 1))
        } else {
            Err(ScanFault::Illegal(p))
        }
    } else if ch == '"' {
        spec_scan_string(c, p, seq!['"'])
    } else if ch == '\'' {
        spec_scan_string(c, p, seq!['\''])
    } else if ch == ' ' {
        Ok((TokenView::WhiteSpace, spec_run_end(c, p, seq![' '])))
    } else if spec_is_eol(ch) {
        Ok((TokenView::EOL, p))
    } else {
        match spec_scan_word(c, p, seq![ch]) {
            Some(r) => Ok(r),
            None => match spec_scan_number(c, p, seq![ch]) {
                Ok(Some(r)) => Ok(r),
                Ok(None) => Err(ScanFault::Illegal(p)),
                Err(f) => Err(f),
            },
        }
    }
}

/// The tokens of the code from `pos` on, the first of them on line `line`:
/// each with its span and line, a line being counted after each
/// end-of-line token; or the fault found and the line it was found on.
pub open spec fn spec_tokens_from(c: Seq<char>, pos: int, line: int) -> Result<
    Seq<CodeRef<TokenView>>,
    (ScanFault, int),
>
    decreases c.len() - pos,
{
    if pos < 0 || pos >= c.len() {
        Ok(seq![])
    } else {
        match spec_next_token(c, pos) {
            Err(f) => Err((f, line)),
            Ok((t, np)) => if np <= pos || np > c.len() {
                Ok(seq![])
            } else {
                let next_line = if t is EOL {
                    line + 1
                } else {
                    line
                };
                match spec_tokens_from(c, np, next_line) {
                    Ok(ts) => Ok(
                        seq![
                            CodeRef::CodeRef {
                                item: t,
                                code_start: pos as usize,
                                code_end: np as usize,
                                line_number: line as usize,
                            },
                        ] + ts,
                    ),
                    Err(e) => Err(e),
                }
            },
        }
    }
}

/// The tokens of the whole code, the first line being line 1.
pub open spec fn spec_tokens(c: Seq<char>) -> Result<Seq<CodeRef<TokenView>>, (ScanFault, int)> {
    spec_tokens_from(c, 0, 1)
}

} // verus!
