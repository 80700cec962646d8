//! Error reports in the compact layout: the line of code without its
//! indentation, and an arrow under the place.

use vstd::prelude::*;
use crate::text::{chars_of, push_str, decimal_string, string_from_chars, repeat_char, decimal};
use crate::error::{pad_number, build_marker, spec_pad_number};
use crate::token::{spec_is_eol, spec_is_whitespace};

verus! {

/// The information a source of code offers for error reports: its code,
/// where it stands, its file and line, how much to underline and what to
/// say. Each source gives its own; the sources here underline one
/// character and give no description.
pub trait CodeInformation {
    /// The code.
    spec fn spec_raw_code(&self) -> Seq<char>;

    /// Where the source stands in the code.
    spec fn spec_cursor_pos(&self) -> nat;

    /// The name of the file.
    spec fn spec_file_name(&self) -> Seq<char>;

    /// The current line.
    spec fn spec_line_number(&self) -> nat;

    fn raw_code(&self) -> (r: String)
        ensures
            r@ == self.spec_raw_code(),
    ;

    fn cursor_pos(&self) -> (r: usize)
        ensures
            r == self.spec_cursor_pos(),
    ;

    fn file_name(&self) -> (r: String)
        ensures
            r@ == self.spec_file_name(),
    ;

    fn line_number(&self) -> (r: usize)
        ensures
            r == self.spec_line_number(),
    ;

    /// The length of the section to underline.
    spec fn spec_item_span(&self) -> nat;

    /// The description to show.
    spec fn spec_description(&self) -> Seq<char>;

    /// The length of the section to underline (each source here gives one
    /// character).
    fn item_span(&self) -> (r: usize)
        ensures
            r == self.spec_item_span(),
    ;

    /// The description to show (each source here gives none).
    fn description(&self) -> (r: String)
        ensures
            r@ == self.spec_description(),
    ;

    /// Gathers the information into a `CodeInfo`.
    fn gather_information(&self) -> (r: CodeInfo)
        ensures
            r.raw_code@ == self.spec_raw_code(),
            r.pos == self.spec_cursor_pos(),
            r.file_name@ == self.spec_file_name(),
            r.line_number == self.spec_line_number(),
            r.span == self.spec_item_span(),
            r.description@ == self.spec_description(),
    {
        CodeInfo {
            raw_code: self.raw_code(),
            pos: self.cursor_pos(),
            file_name: self.file_name(),
            line_number: self.line_number(),
            span: self.item_span(),
            description: self.description(),
        }
    }
}

/// Everything needed to point an error at a place in the code.
pub struct CodeInfo {
    pub raw_code: String,
    pub pos: usize,
    pub file_name: String,
    pub line_number: usize,
    pub span: usize,
    pub description: String,
}

impl CodeInfo {
    /// The information the object offers.
    pub fn from<C: CodeInformation>(object: &C) -> (r: CodeInfo)
        ensures
            r.raw_code@ == object.spec_raw_code(),
            r.pos == object.spec_cursor_pos(),
            r.file_name@ == object.spec_file_name(),
            r.line_number == object.spec_line_number(),
            r.span == object.spec_item_span(),
            r.description@ == object.spec_description(),
    {
        CodeInformation::gather_information(object)
    }
}

/// Where the line holding `pos` starts: just after the last end-of-line
/// character before `pos`, or at the start of the code.
pub open spec fn spec_line_begin(c: Seq<char>, pos: int) -> int
    decreases pos,
{
    if pos <= 0 {
        0
    } else if spec_is_eol(c[pos - 1]) {
        pos
    } else {
        spec_line_begin(c, pos - 1)
    }
}

/// The first index at or after `from` that holds neither a space nor a tab,
/// or the end of the code.
pub open spec fn spec_skip_whitespace(c: Seq<char>, from: int) -> int
    decreases c.len() - from,
{
    if from < 0 || from >= c.len() || !spec_is_whitespace(c[from]) {
        from
    } else {
        spec_skip_whitespace(c, from + 1)
    }
}

/// The first index at or after `from` that holds an end-of-line character,
/// or the end of the code.
pub open spec fn spec_next_eol(c: Seq<char>, from: int) -> int
    decreases c.len() - from,
{
    if from < 0 || from >= c.len() || spec_is_eol(c[from]) {
        from
    } else {
        spec_next_eol(c, from + 1)
    }
}

/// The report can be made: the code is ASCII, the place lies within it,
/// after its first character, and an end of line follows it.
pub open spec fn reportable(info: CodeInfo) -> bool {
    &&& vstd::string::string_is_ascii(&info.raw_code)
    &&& 1 <= info.pos <= info.raw_code@.len()
    &&& spec_next_eol(info.raw_code@, info.pos as int) < info.raw_code@.len()
    &&& info.span + info.raw_code@.len() + info.description@.len() + 1 < usize::MAX
}

/// The report for an error at the place the information describes: a
/// heading naming `error_type`, the file, the line and the column; the
/// line of code without its indentation; and an arrow of `span` markers
/// under the place, followed by the description if there is one.
/// (`error_name` is not shown.)
pub open spec fn spec_error_display(info: CodeInfo, error_type: Seq<char>, error_name: Seq<char>) -> Seq<char> {
    let c = info.raw_code@;
    let line_start = spec_line_begin(c, info.pos as int);
    let code_start = spec_skip_whitespace(c, line_start);
    let code_end = spec_next_eol(c, info.pos as int);
    let distance_on_line = code_start - line_start + 1;
    let digits = decimal(info.line_number as nat);
    let line_number = seq![' '] + spec_pad_number(info.line_number as nat, 4);
    let markers = repeat_char(
        ' ',
        if code_start < info.pos - 1 {
            (info.pos - 1 - code_start) as nat
        } else {
            0
        },
    ) + repeat_char('^', info.span as nat);
    let arrow = if info.description@.len() > 0 {
        markers + seq![' '] + info.description@
    } else {
        markers
    };
    "error: "@ + error_type + "\n  --> "@ + info.file_name@ + ":"@ + digits + ":"@ + decimal(
        distance_on_line as nat,
    ) + "\n     |\n"@ + line_number + "|"@ + "     "@ + c.subrange(code_start, code_end)
        + "\n     |"@ + "     "@ + arrow + "\n"@
}

/// The report for an error at the place the information describes (see
/// `spec_error_display`).
pub fn error_display(info: &CodeInfo, error_type: &str, error_name: &str) -> (r: String)
    requires
        reportable(*info),
    ensures
        r@ == spec_error_display(*info, error_type@, error_name@),
{
    let c = chars_of(info.raw_code.as_str());
    let ghost cs = c@;
    let mut pos = info.pos;
    while pos > 0 && !(c[pos - 1] == '\n' || c[pos - 1] == '\r')
        invariant
            pos <= info.pos <= c.len(),
            spec_line_begin(cs, info.pos as int) == spec_line_begin(cs, pos as int),
            cs == c@,
        decreases pos,
    {
        pos = pos - 1;
    }
    let line_start = pos;
    assert(line_start == spec_line_begin(cs, info.pos as int));
    let mut code_end = info.pos;
    while code_end < c.len() && !(c[code_end] == '\n' || c[code_end] == '\r')
        invariant
            info.pos <= code_end <= c.len(),
            spec_next_eol(cs, info.pos as int) == spec_next_eol(cs, code_end as int),
            cs == c@,
        decreases c.len() - code_end,
    {
        code_end = code_end + 1;
    }
    while pos < code_end && (c[pos] == ' ' || c[pos] == '\t')
        invariant
            line_start <= pos <= code_end < c.len(),
            spec_skip_whitespace(cs, line_start as int) == spec_skip_whitespace(cs, pos as int),
            cs == c@,
        decreases code_end - pos,
    {
        pos = pos + 1;
    }
    let code_start = pos;
    assert(code_end == spec_next_eol(cs, info.pos as int));
    assert(code_start == spec_skip_whitespace(cs, line_start as int));
    let distance_on_line = code_start - line_start + 1;
    let mut code: Vec<char> = Vec::new();
    let mut i = code_start;
    while i < code_end
        invariant
            code_start <= i <= code_end < c.len(),
            code@ == cs.subrange(code_start as int, i as int),
            cs == c@,
        decreases code_end - i,
    {
        code.push(c[i]);
        i = i + 1;
    }
    let digits = decimal_string(info.line_number);
    let mut line_number = " ".to_owned();
    let padded = pad_number(info.line_number, 4);
    push_str(&mut line_number, padded.as_str());
    let spaces: usize = if code_start < info.pos - 1 {
        info.pos - 1 - code_start
    } else {
        0
    };
    let mut arrow = build_marker(info.span, spaces);
    let description_chars = chars_of(info.description.as_str());
    proof {
        reveal_strlit(" ");
    }
    if description_chars.len() > 0 {
        push_str(&mut arrow, " ");
        push_str(&mut arrow, info.description.as_str());
    }
    assert(line_number@ == seq![' '] + spec_pad_number(info.line_number as nat, 4));
    let mut s = "error: ".to_owned();
    push_str(&mut s, error_type);
    push_str(&mut s, "\n  --> ");
    push_str(&mut s, info.file_name.as_str());
    push_str(&mut s, ":");
    push_str(&mut s, digits.as_str());
    push_str(&mut s, ":");
    let column = decimal_string(distance_on_line);
    push_str(&mut s, column.as_str());
    push_str(&mut s, "\n     |\n");
    push_str(&mut s, line_number.as_str());
    push_str(&mut s, "|");
    push_str(&mut s, "     ");
    let code_string = string_from_chars(&code);
    push_str(&mut s, code_string.as_str());
    push_str(&mut s, "\n     |");
    push_str(&mut s, "     ");
    push_str(&mut s, arrow.as_str());
    push_str(&mut s, "\n");
    s
}

} // verus!

verus! {

/// Whether the report can be made (see `reportable`).
pub fn is_reportable(info: &CodeInfo) -> (r: bool)
    ensures
        r == reportable(*info),
{
    if !info.raw_code.is_ascii() {
        return false;
    }
    let c = chars_of(info.raw_code.as_str());
    if !(1 <= info.pos && info.pos <= c.len()) {
        return false;
    }
    let ghost cs = c@;
    let mut code_end = info.pos;
    while code_end < c.len() && !(c[code_end] == '\n' || c[code_end] == '\r')
        invariant
            info.pos <= code_end <= c.len(),
            spec_next_eol(cs, info.pos as int) == spec_next_eol(cs, code_end as int),
            cs == c@,
        decreases c.len() - code_end,
    {
        code_end = code_end + 1;
    }
    if code_end >= c.len() {
        return false;
    }
    let d = chars_of(info.description.as_str());
    let total = info.span as u128 + c.len() as u128 + d.len() as u128 + 1;
    total < usize::MAX as u128
}

} // verus!
