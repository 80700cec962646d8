//! Error reports that point into the code: the line of code, a marker under
//! the place, and a description wrapped to the width of a terminal.

pub mod codeinfo;
pub mod scanner;
pub mod parser;

use vstd::prelude::*;
use crate::error::codeinfo::CodeInfo;
use crate::text::{
    chars_of, push_char, push_chars, push_str, decimal_string, string_from_chars, repeat_char,
    lemma_repeat_len, decimal,
};
use crate::token::spec_is_eol;

verus! {

/// The width a description is wrapped to.
pub const TERMINAL_WIDTH: usize = 70;

/// Where the line holding `pos` starts: just after the last end-of-line
/// character before `pos`, or at the start of the code.
pub open spec fn spec_line_start(c: Seq<char>, pos: int) -> int
    decreases pos,
{
    if pos <= 0 {
        0
    } else if spec_is_eol(c[pos - 1]) {
        pos
    } else {
        spec_line_start(c, pos - 1)
    }
}

/// The first index at or after `from` that does not hold a space, or the end
/// of the code.
pub open spec fn spec_first_nonspace(c: Seq<char>, from: int) -> int
    decreases c.len() - from,
{
    if from < 0 || from >= c.len() || c[from] != ' ' {
        from
    } else {
        spec_first_nonspace(c, from + 1)
    }
}

/// The first index at or after `from` that holds an end-of-line character,
/// or the end of the code.
pub open spec fn spec_eol_from(c: Seq<char>, from: int) -> int
    decreases c.len() - from,
{
    if from < 0 || from >= c.len() || spec_is_eol(c[from]) {
        from
    } else {
        spec_eol_from(c, from + 1)
    }
}

/// How far `start` stands from the first character of its line that is not
/// a space (from the start of the line, if the rest of the code is spaces).
pub open spec fn spec_position_on_line(c: Seq<char>, start: int) -> int {
    let ls = spec_line_start(c, start);
    let k = spec_first_nonspace(c, ls);
    if k < c.len() {
        start - k
    } else {
        start - ls
    }
}

/// `start` stands at or after the first character of its line that is not a
/// space (or the rest of the code is spaces).
pub open spec fn position_defined(c: Seq<char>, start: int) -> bool {
    let k = spec_first_nonspace(c, spec_line_start(c, start));
    k < c.len() ==> k <= start
}

/// The line holding `start`, without its leading spaces.
pub open spec fn spec_slice_code(c: Seq<char>, start: int) -> Seq<char> {
    let s = c.subrange(spec_line_start(c, start), spec_eol_from(c, start));
    let k = spec_first_nonspace(s, 0);
    if k < s.len() {
        s.skip(k)
    } else {
        s
    }
}

/// The text cut into pieces of `width` characters from `pos` on, joined by
/// `sep`; the last piece is what remains, possibly nothing.
pub open spec fn spec_wrap(text: Seq<char>, width: int, sep: Seq<char>, pos: int) -> Seq<char>
    decreases text.len() - pos,
{
    if width <= 0 || pos + width > text.len() {
        text.subrange(pos, text.len() as int)
    } else {
        text.subrange(pos, pos + width) + sep + spec_wrap(text, width, sep, pos + width)
    }
}

/// The text wrapped to `width` columns, each new line indented past
/// `padding` columns; the text as it is if the padding takes the whole
/// width.
pub open spec fn spec_new_line_format(text: Seq<char>, width: int, padding: int) -> Seq<char> {
    if width < padding {
        text
    } else {
        spec_wrap(text, width - padding, seq!['\n'] + repeat_char(' ', (padding + 1) as nat), 0)
    }
}

/// The number in decimal, then spaces up to `width` characters.
pub open spec fn spec_pad_number(number: nat, width: nat) -> Seq<char> {
    decimal(number) + repeat_char(
        ' ',
        if decimal(number).len() < width {
            (width - decimal(number).len()) as nat
        } else {
            0
        },
    )
}

/// The report for an error of the given type at the place the information
/// describes: a heading with the file, line and column; the line of code; a
/// marker under the place; and the description, wrapped.
pub open spec fn spec_display_error(error_type: Seq<char>, info: CodeInfo) -> Seq<char> {
    let position = spec_position_on_line(info.raw_code@, info.cursor_pos as int);
    let arrow = repeat_char(' ', position as nat) + repeat_char('^', info.span as nat);
    "error: "@ + error_type + "\n    --> "@ + info.file_name@ + ":"@ + decimal(
        info.line_number as nat,
    ) + ":"@ + decimal((position + 1) as nat) + "\n     |\n "@ + spec_pad_number(
        info.line_number as nat,
        4,
    ) + "|"@ + "  "@ + spec_slice_code(info.raw_code@, info.cursor_pos as int) + "\n     |"@
        + "  "@ + arrow + " "@ + spec_new_line_format(
        info.description@,
        TERMINAL_WIDTH as int,
        (arrow.len() + 8) as int,
    ) + "\n"@
}

/// The information can be shown: the code and the description are ASCII,
/// the place lies within the code at or after the first character of its
/// line that is not a space, and the marker leaves the description room to
/// wrap.
pub open spec fn displayable(info: CodeInfo) -> bool {
    let position = spec_position_on_line(info.raw_code@, info.cursor_pos as int);
    &&& vstd::string::string_is_ascii(&info.raw_code)
    &&& vstd::string::string_is_ascii(&info.description)
    &&& info.cursor_pos <= info.raw_code@.len()
    &&& position_defined(info.raw_code@, info.cursor_pos as int)
    &&& position + info.span + 8 != TERMINAL_WIDTH
    &&& position + info.span + 10 < usize::MAX
}

/// A general report, showing no code.
pub fn display_error_general(description: &str) -> (r: String)
    ensures
        r@ == "ERROR : "@ + description@,
{
    let mut s = "ERROR : ".to_owned();
    push_str(&mut s, description);
    s
}

/// `width` spaces.
fn pad(width: usize) -> (r: String)
    ensures
        r@ == repeat_char(' ', width as nat),
{
    let mut s = String::new();
    let mut i: usize = 0;
    while i < width
        invariant
            i <= width,
            s@ == repeat_char(' ', i as nat),
        decreases width - i,
    {
        push_char(&mut s, ' ');
        i = i + 1;
    }
    s
}

/// `position_on_line` spaces, then `width` markers `^`.
pub(crate) fn build_marker(width: usize, position_on_line: usize) -> (r: String)
    ensures
        r@ == repeat_char(' ', position_on_line as nat) + repeat_char('^', width as nat),
{
    let mut s = pad(position_on_line);
    let mut i: usize = 0;
    let ghost front = s@;
    while i < width
        invariant
            i <= width,
            s@ == front + repeat_char('^', i as nat),
        decreases width - i,
    {
        push_char(&mut s, '^');
        i = i + 1;
    }
    s
}

/// The number in decimal, then spaces up to `width` characters.
pub(crate) fn pad_number(number: usize, width: usize) -> (r: String)
    ensures
        r@ == spec_pad_number(number as nat, width as nat),
{
    let digits = decimal_string(number);
    let digit_chars = chars_of(digits.as_str());
    let mut s = digits;
    let mut len = digit_chars.len();
    let mut extra: usize = 0;
    proof {
        lemma_repeat_len(' ', 0);
    }
    while len < width
        invariant
            s@ == digit_chars@ + repeat_char(' ', extra as nat),
            digit_chars@ == decimal(number as nat),
            len == digit_chars@.len() + extra,
            len <= width || extra == 0,
        decreases width - len,
    {
        push_char(&mut s, ' ');
        extra = extra + 1;
        len = len + 1;
    }
    assert(extra == if decimal(number as nat).len() < width {
        (width - decimal(number as nat).len()) as nat
    } else {
        0
    });
    s
}


/// Walks back from `start` to the start of its line.
fn line_start(c: &Vec<char>, start: usize) -> (r: usize)
    requires
        start <= c.len(),
    ensures
        r == spec_line_start(c@, start as int),
        r <= start,
{
    let mut pos = start;
    while pos > 0 && !(c[pos - 1] == '\n' || c[pos - 1] == '\r')
        invariant
            pos <= start <= c.len(),
            spec_line_start(c@, start as int) == spec_line_start(c@, pos as int),
        decreases pos,
    {
        pos = pos - 1;
    }
    pos
}

/// The first index at or after `from` that does not hold a space, or the
/// end.
fn first_nonspace(c: &Vec<char>, from: usize) -> (r: usize)
    requires
        from <= c.len(),
    ensures
        r == spec_first_nonspace(c@, from as int),
        from <= r <= c.len(),
{
    let mut i = from;
    while i < c.len() && c[i] == ' '
        invariant
            from <= i <= c.len(),
            spec_first_nonspace(c@, from as int) == spec_first_nonspace(c@, i as int),
        decreases c.len() - i,
    {
        i = i + 1;
    }
    i
}

/// How far `start` stands from the first character of its line that is not
/// a space.
pub fn get_position_on_line(code: &str, start: usize) -> (r: usize)
    requires
        vstd::string::is_ascii(code),
        start <= code@.len(),
        position_defined(code@, start as int),
    ensures
        r == spec_position_on_line(code@, start as int),
{
    let c = chars_of(code);
    let line_start = line_start(&c, start);
    let k = first_nonspace(&c, line_start);
    if k < c.len() {
        start - k
    } else {
        start - line_start
    }
}

/// The line of code holding `start`, without its leading spaces.
pub fn slice_code(code: &str, start: usize) -> (r: String)
    requires
        vstd::string::is_ascii(code),
        start <= code@.len(),
    ensures
        r@ == spec_slice_code(code@, start as int),
{
    let c = chars_of(code);
    let line_start = line_start(&c, start);
    let mut line_end = start;
    while line_end < c.len() && !(c[line_end] == '\n' || c[line_end] == '\r')
        invariant
            start <= line_end <= c.len(),
            spec_eol_from(c@, start as int) == spec_eol_from(c@, line_end as int),
        decreases c.len() - line_end,
    {
        line_end = line_end + 1;
    }
    let mut code_slice: Vec<char> = Vec::new();
    let mut i = line_start;
    while i < line_end
        invariant
            line_start <= i <= line_end <= c.len(),
            code_slice@ == c@.subrange(line_start as int, i as int),
        decreases line_end - i,
    {
        code_slice.push(c[i]);
        i = i + 1;
    }
    let k = first_nonspace(&code_slice, 0);
    if k < code_slice.len() {
        let mut rest: Vec<char> = Vec::new();
        let mut j = k;
        while j < code_slice.len()
            invariant
                k <= j <= code_slice.len(),
                rest@ == code_slice@.subrange(k as int, j as int),
            decreases code_slice.len() - j,
        {
            rest.push(code_slice[j]);
            j = j + 1;
        }
        assert(rest@ =~= code_slice@.skip(k as int));
        string_from_chars(&rest)
    } else {
        string_from_chars(&code_slice)
    }
}

/// Wraps the text to `width` columns, each new line indented past
/// `padding` columns; gives the text as it is if the padding takes more
/// than the width.
pub fn new_line_format(text: &str, width: usize, padding: usize) -> (r: String)
    requires
        vstd::string::is_ascii(text),
        width != padding,
        padding + 1 < usize::MAX,
    ensures
        r@ == spec_new_line_format(text@, width as int, padding as int),
{
    if width < padding {
        return text.to_owned();
    }
    let real_width: usize = width - padding;
    let padding_string = pad(padding + 1);
    let mut sep: Vec<char> = Vec::new();
    sep.push('\n');
    let pad_chars = chars_of(padding_string.as_str());
    let mut k: usize = 0;
    while k < pad_chars.len()
        invariant
            k <= pad_chars.len(),
            sep@ == seq!['\n'] + pad_chars@.take(k as int),
        decreases pad_chars.len() - k,
    {
        sep.push(pad_chars[k]);
        k = k + 1;
        assert(pad_chars@.take(k as int) =~= pad_chars@.take(k - 1).push(pad_chars@[k - 1]));
    }
    assert(pad_chars@.take(k as int) =~= pad_chars@);
    assert(sep@ == seq!['\n'] + repeat_char(' ', (padding + 1) as nat));
    let t = chars_of(text);
    let mut new_text: Vec<char> = Vec::new();
    let mut pos: usize = 0;
    loop
        invariant
            real_width > 0,
            real_width == width - padding,
            sep@ == seq!['\n'] + repeat_char(' ', (padding + 1) as nat),
            t@ == text@,
            pos <= t.len(),
            new_text@ + spec_wrap(t@, real_width as int, sep@, pos as int) == spec_wrap(
                t@,
                real_width as int,
                sep@,
                0,
            ),
        decreases t.len() - pos,
    {
        if real_width > t.len() - pos {
            let mut j = pos;
            let ghost front = new_text@;
            while j < t.len()
                invariant
                    pos <= j <= t.len(),
                    new_text@ == front + t@.subrange(pos as int, j as int),
                decreases t.len() - j,
            {
                new_text.push(t[j]);
                j = j + 1;
            }
            return string_from_chars(&new_text);
        }
        let ghost front = new_text@;
        let mut j = pos;
        while j < pos + real_width
            invariant
                pos <= j <= pos + real_width <= t.len(),
                new_text@ == front + t@.subrange(pos as int, j as int),
            decreases pos + real_width - j,
        {
            new_text.push(t[j]);
            j = j + 1;
        }
        push_all(&mut new_text, &sep);
        assert(front + spec_wrap(t@, real_width as int, sep@, pos as int) =~= new_text@
            + spec_wrap(t@, real_width as int, sep@, pos + real_width));
        pos = pos + real_width;
    }
}

/// Appends the characters of `v` to `out`.
fn push_all(out: &mut Vec<char>, v: &Vec<char>)
    ensures
        final(out)@ == old(out)@ + v@,
{
    let ghost start = out@;
    let mut i: usize = 0;
    while i < v.len()
        invariant
            i <= v.len(),
            out@ == start + v@.take(i as int),
        decreases v.len() - i,
    {
        out.push(v[i]);
        i = i + 1;
        assert(v@.take(i as int) =~= v@.take(i - 1).push(v@[i - 1]));
    }
    assert(v@.take(i as int) =~= v@);
}


/// The report for an error of the given type, pointing into the code.
pub fn display_error(error_type: &str, info: &CodeInfo) -> (r: String)
    requires
        displayable(*info),
    ensures
        r@ == spec_display_error(error_type@, *info),
{
    let position_on_line = get_position_on_line(info.raw_code.as_str(), info.cursor_pos);
    let arrow = build_marker(info.span, position_on_line);
    let arrow_len = position_on_line + info.span;
    proof {
        lemma_repeat_len(' ', position_on_line as nat);
        lemma_repeat_len('^', info.span as nat);
    }
    let mut s = "error: ".to_owned();
    push_str(&mut s, error_type);
    push_str(&mut s, "\n    --> ");
    push_str(&mut s, info.file_name.as_str());
    push_str(&mut s, ":");
    let line2 = decimal_string(info.line_number);
    push_str(&mut s, line2.as_str());
    push_str(&mut s, ":");
    let code_start = decimal_string(position_on_line + 1);
    push_str(&mut s, code_start.as_str());
    push_str(&mut s, "\n     |\n ");
    let line = pad_number(info.line_number, 4);
    push_str(&mut s, line.as_str());
    push_str(&mut s, "|");
    push_str(&mut s, "  ");
    let code = slice_code(info.raw_code.as_str(), info.cursor_pos);
    push_str(&mut s, code.as_str());
    push_str(&mut s, "\n     |");
    push_str(&mut s, "  ");
    push_str(&mut s, arrow.as_str());
    push_str(&mut s, " ");
    let description = new_line_format(info.description.as_str(), TERMINAL_WIDTH, arrow_len + 2 + 6);
    push_str(&mut s, description.as_str());
    push_str(&mut s, "\n");
    s
}

} // verus!

verus! {

/// Whether the report can be shown (see `displayable`).
pub fn is_displayable(info: &CodeInfo) -> (r: bool)
    ensures
        r == displayable(*info),
{
    if !(info.raw_code.is_ascii() && info.description.is_ascii()) {
        return false;
    }
    let c = chars_of(info.raw_code.as_str());
    if info.cursor_pos > c.len() {
        return false;
    }
    let ls = line_start(&c, info.cursor_pos);
    let k = first_nonspace(&c, ls);
    if k < c.len() && k > info.cursor_pos {
        return false;
    }
    let position = if k < c.len() {
        info.cursor_pos - k
    } else {
        info.cursor_pos - ls
    };
    match position.checked_add(info.span) {
        None => false,
        Some(x) => x < usize::MAX - 10 && x + 8 != TERMINAL_WIDTH,
    }
}

} // verus!

verus! {

// ---- laws of the report layout ------------------------------------------------------

proof fn lemma_line_start_bounds(c: Seq<char>, pos: int)
    requires
        0 <= pos,
    ensures
        0 <= spec_line_start(c, pos) <= pos,
    decreases pos,
{
    if pos > 0 && !spec_is_eol(c[pos - 1]) {
        lemma_line_start_bounds(c, pos - 1);
    }
}

proof fn lemma_eol_from_bounds(c: Seq<char>, from: int)
    requires
        0 <= from <= c.len(),
    ensures
        from <= spec_eol_from(c, from) <= c.len(),
    decreases c.len() - from,
{
    if from < c.len() && !spec_is_eol(c[from]) {
        lemma_eol_from_bounds(c, from + 1);
    }
}

/// The first non-space of a stretch of the code is that of the code, cut
/// off at the stretch's end.
proof fn lemma_first_nonspace_sub(c: Seq<char>, ls: int, e: int, i: int)
    requires
        0 <= ls <= i <= e <= c.len(),
    ensures
        spec_first_nonspace(c.subrange(ls, e), i - ls) == (if spec_first_nonspace(c, i) < e {
            spec_first_nonspace(c, i)
        } else {
            e
        }) - ls,
    decreases e - i,
{
    let s = c.subrange(ls, e);
    if i < e {
        assert(s[i - ls] == c[i]);
        if c[i] == ' ' {
            lemma_first_nonspace_sub(c, ls, e, i + 1);
        }
    } else {
        lemma_first_nonspace_ge(c, i);
    }
}

proof fn lemma_first_nonspace_ge(c: Seq<char>, from: int)
    requires
        0 <= from,
    ensures
        spec_first_nonspace(c, from) >= from,
    decreases c.len() - from,
{
    if from < c.len() && c[from] == ' ' {
        lemma_first_nonspace_ge(c, from + 1);
    }
}

/// The column a report gives a place is that place's character in the line
/// it shows: counting from the first non-space of the line, the character
/// there is the one at the place.
pub proof fn law_position_points_at_place(c: Seq<char>, p: int)
    requires
        0 <= p < c.len(),
        !spec_is_eol(c[p]),
        position_defined(c, p),
    ensures
        0 <= spec_position_on_line(c, p) < spec_slice_code(c, p).len(),
        spec_slice_code(c, p)[spec_position_on_line(c, p)] == c[p],
{
    let ls = spec_line_start(c, p);
    let e = spec_eol_from(c, p);
    lemma_line_start_bounds(c, p);
    lemma_eol_from_bounds(c, p + 1);
    assert(e == spec_eol_from(c, p + 1));
    lemma_first_nonspace_sub(c, ls, e, ls);
    lemma_first_nonspace_ge(c, ls);
    let s = c.subrange(ls, e);
    assert(s[p - ls] == c[p]);
}

} // verus!

verus! {

/// The text from `pos` cut into pieces of `width` characters, the last
/// piece what remains (shorter than `width`, possibly nothing).
pub open spec fn pieces(text: Seq<char>, width: int, pos: int) -> Seq<Seq<char>>
    decreases text.len() - pos,
{
    if width <= 0 || pos + width > text.len() {
        seq![text.subrange(pos, text.len() as int)]
    } else {
        seq![text.subrange(pos, pos + width)] + pieces(text, width, pos + width)
    }
}

/// The pieces joined, with `sep` between each two.
pub open spec fn joined(ps: Seq<Seq<char>>, sep: Seq<char>) -> Seq<char>
    decreases ps.len(),
{
    if ps.len() <= 1 {
        if ps.len() == 1 {
            ps[0]
        } else {
            Seq::empty()
        }
    } else {
        ps[0] + sep + joined(ps.drop_first(), sep)
    }
}

/// The pieces one after the other.
pub open spec fn flattened(ps: Seq<Seq<char>>) -> Seq<char>
    decreases ps.len(),
{
    if ps.len() == 0 {
        Seq::empty()
    } else {
        ps[0] + flattened(ps.drop_first())
    }
}

/// Wrapping only puts separators between pieces of the text: the wrapped
/// text is the pieces joined by the separator, the pieces one after the
/// other are the text, every piece but the last has `width` characters
/// and the last fewer.
pub proof fn law_wrap_only_separates(text: Seq<char>, width: int, sep: Seq<char>, pos: int)
    requires
        width > 0,
        0 <= pos <= text.len(),
    ensures
        spec_wrap(text, width, sep, pos) == joined(pieces(text, width, pos), sep),
        flattened(pieces(text, width, pos)) == text.subrange(pos, text.len() as int),
        pieces(text, width, pos).len() >= 1,
        forall|i: int| 0 <= i < pieces(text, width, pos).len() - 1 ==> (#[trigger] pieces(text, width, pos)[i]).len() == width,
        pieces(text, width, pos).last().len() < width,
    decreases text.len() - pos,
{
    let ps = pieces(text, width, pos);
    if pos + width > text.len() {
        assert(flattened(ps.drop_first()) == Seq::<char>::empty());
        assert(flattened(ps) =~= text.subrange(pos, text.len() as int));
    } else {
        law_wrap_only_separates(text, width, sep, pos + width);
        let rest = pieces(text, width, pos + width);
        assert(ps.drop_first() =~= rest);
        assert(flattened(ps) =~= text.subrange(pos, text.len() as int));
        assert forall|i: int| 0 <= i < ps.len() - 1 implies (#[trigger] ps[i]).len() == width by {
            if i > 0 {
                assert(ps[i] == rest[i - 1]);
            }
        }
        assert(ps.last() == rest.last());
    }
}

} // verus!
