//! The parser's rules, stated over the views of elements and tokens.
//!
//! A statement is a run of elements. Each rule looks for its pattern in the
//! run and, where it finds it, replaces the matched elements by one new
//! element; the parser applies the first rule that matches, again and
//! again, until none does. A few rules also pull more tokens from the
//! stream. The functions here say what each rule gives, what one round of
//! the parser gives, and what the whole run gives.

use vstd::prelude::*;
use crate::coderef::CodeRef;
use crate::token::{TokenView, spec_matching_set};
use crate::element::{ElementView, made, wrap_token};
use crate::error::parser::ParserError;

verus! {

/// An element's view with its place in the code.
pub type ElemRef = CodeRef<ElementView>;

/// A token's view with its place in the code.
pub type TokRef = CodeRef<TokenView>;

/// What went wrong while parsing.
pub enum ParseFault {
    /// A general error, with its description.
    General(Seq<char>),
    /// A run that does not reduce to one statement: its line, where it
    /// starts and where it ends.
    NotStatement(int, int, int),
}

/// What applying a rule gives.
pub enum Outcome {
    /// The rule's pattern is not there; nothing changes.
    NoMatch,
    /// The rule applied: the new run of elements and the tokens left in the
    /// stream.
    Next(Seq<ElemRef>, Seq<TokRef>),
    /// The rule failed.
    Fail(ParseFault),
    /// The rule cannot handle this input and would stop the program.
    Panic,
}

/// The error reports the fault.
pub open spec fn fault_is(e: ParserError, f: ParseFault) -> bool {
    match f {
        ParseFault::General(d) => e matches ParserError::GEN(m) && m@ == d,
        ParseFault::NotStatement(line, start, end) => e matches ParserError::NOSTATEMENT(info)
            && info.line_number == line && info.cursor_pos == start && info.span == end - start
            && info.description@ == "can't reduce to a single statement"@,
    }
}

/// The error reports the fault, against the given code and file.
pub open spec fn fault_from(e: ParserError, f: ParseFault, code: Seq<char>, file: Seq<char>) -> bool {
    &&& fault_is(e, f)
    &&& (f is NotStatement ==> (e matches ParserError::NOSTATEMENT(info) && info.raw_code@ == code
        && info.file_name@ == file))
}

/// The result and the new run and stream are what the rule's outcome says.
pub open spec fn applied(
    o: Outcome,
    r: Result<bool, ParserError>,
    old_s: Seq<ElemRef>,
    new_s: Seq<ElemRef>,
    old_p: Seq<TokRef>,
    new_p: Seq<TokRef>,
) -> bool {
    match o {
        Outcome::NoMatch => r matches Ok(false) && new_s == old_s && new_p == old_p,
        Outcome::Next(s2, p2) => r matches Ok(true) && new_s == s2 && new_p == p2,
        Outcome::Fail(f) => r matches Err(e) && fault_is(e, f),
        Outcome::Panic => false,
    }
}

/// The result and the new run are what the outcome of a rule that does not
/// touch the stream says.
pub open spec fn applied_here(
    o: Outcome,
    r: Result<bool, ParserError>,
    old_s: Seq<ElemRef>,
    new_s: Seq<ElemRef>,
) -> bool {
    match o {
        Outcome::NoMatch => r matches Ok(false) && new_s == old_s,
        Outcome::Next(s2, _) => r matches Ok(true) && new_s == s2,
        Outcome::Fail(f) => r matches Err(e) && fault_is(e, f),
        Outcome::Panic => false,
    }
}

/// The description of the error `Element::create` gives.
pub open spec fn create_error() -> Seq<char> {
    "error making element::Element, element isn't a token"@
}

/// The run with the `w` elements from `i` replaced by `new`.
pub open spec fn splice(s: Seq<ElemRef>, i: int, w: int, new: ElemRef) -> Seq<ElemRef> {
    s.subrange(0, i) + seq![new] + s.subrange(i + w, s.len() as int)
}

/// The element is the wrapped token `t`.
pub open spec fn is_tok(e: ElemRef, t: TokenView) -> bool {
    e->item.matches_token(t)
}

// ---- statements that are recognised as a whole ---------------------------

/// `- ...` at the start of a run: a comment written as two minus signs.
/// The first minus sign and the third element become the identifiers and
/// the others the arguments; with exactly two elements this panics.
pub open spec fn rule_comment(s: Seq<ElemRef>) -> Outcome {
    if s.len() >= 2 && is_tok(s[0], TokenView::Minus) {
        if s.len() == 2 {
            Outcome::Panic
        } else if !s[2]->item.is_token() {
            Outcome::Fail(ParseFault::General(create_error()))
        } else {
            let rest = seq![s[1]] + s.subrange(3, s.len() as int);
            Outcome::Next(
                seq![
                    made(
                        seq![s[0], s[2]],
                        rest,
                        s[0]->code_start,
                        rest[rest.len() - 1]->code_end,
                        s[0]->line_number,
                    ),
                ],
                Seq::empty(),
            )
        }
    } else {
        Outcome::NoMatch
    }
}

/// `varlist = explist`, the whole run.
pub open spec fn rule_assignment(s: Seq<ElemRef>) -> Outcome {
    if s.len() == 3 && s[1]->item.is_token() && s[1]->item.id(0) == TokenView::Equal
        && s[0]->item.is_var_list() && s[2]->item.is_exp_list() {
        Outcome::Next(
            seq![
                made(
                    seq![s[1]],
                    seq![s[0], s[2]],
                    s[0]->code_start,
                    s[2]->code_end,
                    s[0]->line_number,
                ),
            ],
            Seq::empty(),
        )
    } else {
        Outcome::NoMatch
    }
}

/// `local namelist` or `local namelist = explist`, the whole run.
pub open spec fn rule_local(s: Seq<ElemRef>) -> Outcome {
    if s.len() == 2 && is_tok(s[0], TokenView::Local) && s[1]->item.is_name_list() {
        Outcome::Next(
            seq![made(seq![s[0]], seq![s[1]], s[0]->code_start, s[1]->code_end, s[0]->line_number)],
            Seq::empty(),
        )
    } else if s.len() == 4 && is_tok(s[0], TokenView::Local) && s[1]->item.is_name_list()
        && is_tok(s[2], TokenView::Equal) && s[3]->item.is_exp_list() {
        Outcome::Next(
            seq![
                made(
                    seq![s[0], s[2]],
                    seq![s[1], s[3]],
                    s[0]->code_start,
                    s[3]->code_end,
                    s[0]->line_number,
                ),
            ],
            Seq::empty(),
        )
    } else {
        Outcome::NoMatch
    }
}

/// `break`, `return` or `return explist`, the whole run. A lone `break` or
/// `return` is rebuilt as itself, so the rule applies to it again and again.
pub open spec fn rule_last_statement(s: Seq<ElemRef>) -> Outcome {
    if s.len() == 1 && (is_tok(s[0], TokenView::Break) || is_tok(s[0], TokenView::Return)) {
        Outcome::Next(
            seq![made(seq![s[0]], seq![], s[0]->code_start, s[0]->code_end, s[0]->line_number)],
            Seq::empty(),
        )
    } else if s.len() == 2 && is_tok(s[0], TokenView::Return) && s[1]->item.is_exp_list() {
        Outcome::Next(
            seq![made(seq![s[0]], seq![s[1]], s[0]->code_start, s[1]->code_end, s[0]->line_number)],
            Seq::empty(),
        )
    } else {
        Outcome::NoMatch
    }
}

// ---- patterns of a fixed width, found anywhere in the run ----------------

/// The patterns of a fixed number of elements.
#[derive(Clone, Copy)]
pub enum Window {
    /// `prefixexp . Name`
    DotName,
    /// `prefixexp [ exp ]`
    Index,
    /// `exp binop exp`
    Binop,
    /// `unop exp`
    Unop,
    /// `( exp )`
    Paren,
    /// `[ exp ] = exp`
    FieldIndex,
    /// `Name = exp`
    FieldName,
}

/// The number of elements a pattern spans.
pub open spec fn width(p: Window) -> int {
    match p {
        Window::DotName => 3,
        Window::Index => 4,
        Window::Binop => 3,
        Window::Unop => 2,
        Window::Paren => 3,
        Window::FieldIndex => 5,
        Window::FieldName => 3,
    }
}

/// The pattern stands at `i`.
pub open spec fn window_at(p: Window, s: Seq<ElemRef>, i: int) -> bool {
    match p {
        Window::DotName => s[i]->item.is_prefix_exp() && is_tok(s[i + 1], TokenView::Period)
            && s[i + 2]->item.is_name(),
        Window::Index => s[i]->item.is_prefix_exp() && is_tok(s[i + 1], TokenView::LeftBracket)
            && s[i + 2]->item.is_exp() && is_tok(s[i + 3], TokenView::RightBracket),
        Window::Binop => s[i]->item.is_exp() && s[i + 1]->item.is_binop_token()
            && s[i + 2]->item.is_exp(),
        Window::Unop => s[i]->item.is_unop_token() && s[i + 1]->item.is_exp(),
        Window::Paren => is_tok(s[i], TokenView::LeftParen) && s[i + 1]->item.is_exp() && is_tok(
            s[i + 2],
            TokenView::RightParen,
        ),
        Window::FieldIndex => is_tok(s[i], TokenView::LeftBracket) && s[i + 1]->item.is_exp()
            && is_tok(s[i + 2], TokenView::RightBracket) && is_tok(s[i + 3], TokenView::Equal)
            && s[i + 4]->item.is_exp(),
        Window::FieldName => s[i]->item.is_name() && is_tok(s[i + 1], TokenView::Equal)
            && s[i + 2]->item.is_exp(),
    }
}

/// The element a pattern at `i` becomes.
pub open spec fn window_built(p: Window, s: Seq<ElemRef>, i: int) -> ElemRef {
    match p {
        Window::DotName => made(
            seq![s[i + 1]],
            seq![s[i], s[i + 2]],
            s[i]->code_start,
            s[i + 2]->code_end,
            s[i]->line_number,
        ),
        Window::Index => made(
            seq![s[i + 1], s[i + 3]],
            seq![s[i], s[i + 2]],
            s[i]->code_start,
            s[i + 3]->code_end,
            s[i]->line_number,
        ),
        Window::Binop => made(
            seq![s[i + 1]],
            seq![s[i], s[i + 2]],
            s[i]->code_start,
            s[i + 2]->code_end,
            s[i]->line_number,
        ),
        Window::Unop => made(
            seq![s[i]],
            seq![s[i + 1]],
            s[i]->code_start,
            s[i + 1]->code_end,
            s[i]->line_number,
        ),
        Window::Paren => made(
            seq![s[i], s[i + 2]],
            seq![s[i + 1]],
            s[i]->code_start,
            s[i + 2]->code_end,
            s[i]->line_number,
        ),
        Window::FieldIndex => made(
            seq![s[i], s[i + 2], s[i + 3]],
            seq![s[i + 1], s[i + 4]],
            s[i]->code_start,
            s[i + 4]->code_end,
            s[i]->line_number,
        ),
        Window::FieldName => made(
            seq![s[i + 1]],
            seq![s[i], s[i + 2]],
            s[i]->code_start,
            s[i + 2]->code_end,
            s[i]->line_number,
        ),
    }
}

/// The first place at or after `i` where the pattern stands.
pub open spec fn window_from(p: Window, s: Seq<ElemRef>, i: int) -> Option<int>
    decreases s.len() - i,
{
    if i < 0 || i + width(p) > s.len() {
        None
    } else if window_at(p, s, i) {
        Some(i)
    } else {
        window_from(p, s, i + 1)
    }
}

/// The run with the first occurrence of the pattern reduced, if there is one.
pub open spec fn rule_window(p: Window, s: Seq<ElemRef>) -> Option<Seq<ElemRef>> {
    match window_from(p, s, 0) {
        Some(i) => Some(splice(s, i, width(p), window_built(p, s, i))),
        None => None,
    }
}

/// `prefixexp . Name`, else `prefixexp [ exp ]`.
pub open spec fn rule_var(s: Seq<ElemRef>) -> Option<Seq<ElemRef>> {
    match rule_window(Window::DotName, s) {
        Some(r) => Some(r),
        None => rule_window(Window::Index, s),
    }
}

/// `[ exp ] = exp`, else `Name = exp`.
pub open spec fn rule_field(s: Seq<ElemRef>) -> Option<Seq<ElemRef>> {
    match rule_window(Window::FieldIndex, s) {
        Some(r) => Some(r),
        None => rule_window(Window::FieldName, s),
    }
}

// ---- lists: items separated by commas ------------------------------------

/// The kinds of lists.
#[derive(Clone, Copy)]
pub enum ListKind {
    Exp,
    Var,
    Name,
    Field,
}

/// The element can be an item of the list.
pub open spec fn list_item(k: ListKind, e: ElemRef) -> bool {
    match k {
        ListKind::Exp => e->item.is_exp(),
        ListKind::Var => e->item.is_var(),
        ListKind::Name => e->item.is_name(),
        ListKind::Field => e->item.is_field(),
    }
}

/// The element separates items of the list: a comma, or for fields a comma
/// or a semicolon.
pub open spec fn list_sep(k: ListKind, e: ElemRef) -> bool {
    e->item.is_token() && (e->item.id(0) == TokenView::Comma || (k is Field && e->item.id(0)
        == TokenView::SemiColon))
}

/// The element at `j` continues the list started at `i`: a separator at
/// odd distances, an item at even ones.
pub open spec fn list_continues(k: ListKind, s: Seq<ElemRef>, i: int, j: int) -> bool {
    if (j - i) % 2 == 1 {
        list_sep(k, s[j])
    } else {
        list_item(k, s[j])
    }
}

/// The last place of the list started at `i`, looking from `j` on.
pub open spec fn list_end(k: ListKind, s: Seq<ElemRef>, i: int, j: int) -> int
    decreases s.len() - j,
{
    if j >= s.len() || j <= i {
        j - 1
    } else if list_continues(k, s, i, j) {
        list_end(k, s, i, j + 1)
    } else {
        j - 1
    }
}

/// A list worth reducing starts at `i`: an item, followed by more of the
/// list, ending on an item (fields may end on a separator).
pub open spec fn list_ok(k: ListKind, s: Seq<ElemRef>, i: int) -> bool {
    let e = list_end(k, s, i, i + 1);
    list_item(k, s[i]) && e != i && (k is Field || (e - i) % 2 == 0)
}

/// The first place at or after `i` where a list worth reducing starts.
pub open spec fn list_from(k: ListKind, s: Seq<ElemRef>, i: int) -> Option<int>
    decreases s.len() - i,
{
    if i < 0 || i >= s.len() {
        None
    } else if list_ok(k, s, i) {
        Some(i)
    } else {
        list_from(k, s, i + 1)
    }
}

/// The items of the list from `i` to `e`: the elements at even distances.
pub open spec fn list_members(s: Seq<ElemRef>, i: int, e: int) -> Seq<ElemRef> {
    Seq::new(((e - i) / 2 + 1) as nat, |k: int| s[i + 2 * k])
}

/// The run with the first list reduced to one element, if there is one.
pub open spec fn rule_list(k: ListKind, s: Seq<ElemRef>) -> Option<Seq<ElemRef>> {
    match list_from(k, s, 0) {
        Some(i) => {
            let e = list_end(k, s, i, i + 1);
            let m = list_members(s, i, e);
            Some(
                splice(
                    s,
                    i,
                    e - i + 1,
                    made(
                        seq![],
                        m,
                        m[0]->code_start,
                        m[m.len() - 1]->code_end,
                        m[0]->line_number,
                    ),
                ),
            )
        },
        None => None,
    }
}

// ---- table constructors: pulling tokens from the stream ------------------

/// How the closing token is written.
pub open spec fn closer_text(closer: TokenView) -> Seq<char> {
    match closer {
        TokenView::RightMoustache => "}"@,
        TokenView::RightParen => ")"@,
        TokenView::RightBracket => "]"@,
        _ => Seq::empty(),
    }
}

/// The nesting level after the token `t` when looking for `closer`.
pub open spec fn next_level(t: TokenView, closer: TokenView, level: int) -> int {
    if t == closer {
        level - 1
    } else if spec_matching_set(closer).contains(t) {
        level + 1
    } else {
        level
    }
}

/// How many tokens, from `k` on, are taken to reach `closer` (counted from
/// the start of the stream): with `nesting`, the closer that brings the
/// level to zero; without, the first closer. `None` when the stream runs out
/// first.
pub open spec fn until_count(
    pool: Seq<TokRef>,
    closer: TokenView,
    nesting: bool,
    k: int,
    level: int,
) -> Option<int>
    decreases pool.len() - k,
{
    if k < 0 || k >= pool.len() {
        None
    } else {
        let t = pool[k]->item;
        let done = if nesting {
            next_level(t, closer, level) == 0
        } else {
            t == closer
        };
        if done {
            Some(k + 1)
        } else {
            until_count(
                pool,
                closer,
                nesting,
                k + 1,
                if nesting {
                    next_level(t, closer, level)
                } else {
                    level
                },
            )
        }
    }
}

/// The tokens wrapped in elements, leaving out white space.
pub open spec fn wrap_non_ws(ts: Seq<TokRef>) -> Seq<ElemRef>
    decreases ts.len(),
{
    if ts.len() == 0 {
        seq![]
    } else {
        wrap_non_ws(ts.drop_last()) + if ts.last()->item is WhiteSpace {
            Seq::<ElemRef>::empty()
        } else {
            seq![wrap_token(ts.last())]
        }
    }
}

/// A semicolon placed just after the last element of the run.
pub open spec fn closing_semicolon(s: Seq<ElemRef>) -> ElemRef {
    let last = s[s.len() - 1];
    wrap_token(
        CodeRef::CodeRef {
            item: TokenView::SemiColon,
            code_start: last->code_end,
            code_end: (last->code_end + 1) as usize,
            line_number: last->line_number,
        },
    )
}

/// Taking tokens up to `closer` onto the end of the run: first a semicolon,
/// then the tokens (white space left out). Panics on an empty run, or when
/// the last element ends at the largest position.
pub open spec fn rule_until(
    s: Seq<ElemRef>,
    pool: Seq<TokRef>,
    closer: TokenView,
    nesting: bool,
) -> Outcome {
    if s.len() == 0 || s[s.len() - 1]->code_end + 1 > usize::MAX {
        Outcome::Panic
    } else {
        match until_count(pool, closer, nesting, 0, 1) {
            None => Outcome::Fail(
                ParseFault::General(
                    "ran out of tokens in the stream, looking for '"@ + closer_text(closer)
                        + "' but never found it?"@,
                ),
            ),
            Some(n) => Outcome::Next(
                s.push(closing_semicolon(s)) + wrap_non_ws(pool.subrange(0, n)),
                pool.subrange(n, pool.len() as int),
            ),
        }
    }
}

/// Reducing fields until none is left to reduce.
pub open spec fn fields_reduced(s: Seq<ElemRef>) -> Seq<ElemRef>
    decreases s.len(),
{
    match rule_field(s) {
        Some(r) => if r.len() < s.len() {
            fields_reduced(r)
        } else {
            r
        },
        None => s,
    }
}

/// The first place at or after `i` holding the token `t`.
pub open spec fn token_from(s: Seq<ElemRef>, t: TokenView, i: int) -> Option<int>
    decreases s.len() - i,
{
    if i < 0 || i >= s.len() {
        None
    } else if is_tok(s[i], t) {
        Some(i)
    } else {
        token_from(s, t, i + 1)
    }
}

/// `{ [fieldlist] }`: at the first `{`, the tokens up to the matching `}`
/// are taken from the stream, fields and a field list are reduced, and the
/// three elements from the `{` on become the table.
pub open spec fn rule_table(s: Seq<ElemRef>, pool: Seq<TokRef>) -> Outcome {
    match token_from(s, TokenView::LeftMoustache, 0) {
        None => Outcome::NoMatch,
        Some(i) => match rule_until(s, pool, TokenView::RightMoustache, true) {
            Outcome::Next(s1, pool1) => {
                let s2 = fields_reduced(s1);
                let s3 = match rule_list(ListKind::Field, s2) {
                    Some(r) => r,
                    None => s2,
                };
                if s3.len() < i {
                    Outcome::Panic
                } else if s3.len() - i != 3 {
                    Outcome::Fail(
                        ParseFault::General("error processing table constructor, errr!"@),
                    )
                } else if !s3[i]->item.is_token() || !s3[i + 2]->item.is_token() {
                    Outcome::Fail(ParseFault::General(create_error()))
                } else {
                    Outcome::Next(
                        s3.subrange(0, i) + seq![
                            made(
                                seq![s3[i], s3[i + 2]],
                                seq![s3[i + 1]],
                                s3[i]->code_start,
                                s3[i + 2]->code_end,
                                s3[i]->line_number,
                            ),
                        ],
                        pool1,
                    )
                }
            },
            other => other,
        },
    }
}

// ---- one round, and the whole run ----------------------------------------

/// A rule's outcome, with the stream left as it was.
pub open spec fn with_pool(o: Outcome, pool: Seq<TokRef>) -> Outcome {
    match o {
        Outcome::Next(s, _) => Outcome::Next(s, pool),
        other => other,
    }
}

/// A rule that only rewrites the run.
pub open spec fn pure_outcome(r: Option<Seq<ElemRef>>, pool: Seq<TokRef>) -> Outcome {
    match r {
        Some(s) => Outcome::Next(s, pool),
        None => Outcome::NoMatch,
    }
}

/// One round of the parser: the first rule, in the parser's order, whose
/// pattern is there.
pub open spec fn parse_step(s: Seq<ElemRef>, pool: Seq<TokRef>) -> Outcome {
    let r1 = with_pool(rule_comment(s), pool);
    let r2 = with_pool(rule_assignment(s), pool);
    let r3 = with_pool(rule_local(s), pool);
    let r4 = with_pool(rule_last_statement(s), pool);
    let r5 = pure_outcome(rule_list(ListKind::Var, s), pool);
    let r6 = pure_outcome(rule_var(s), pool);
    let r7 = pure_outcome(rule_list(ListKind::Name, s), pool);
    let r8 = pure_outcome(rule_window(Window::Binop, s), pool);
    let r9 = pure_outcome(rule_window(Window::Unop, s), pool);
    let r10 = pure_outcome(rule_list(ListKind::Exp, s), pool);
    let r11 = pure_outcome(rule_window(Window::Paren, s), pool);
    let r12 = rule_table(s, pool);
    if !(r1 is NoMatch) {
        r1
    } else if !(r2 is NoMatch) {
        r2
    } else if !(r3 is NoMatch) {
        r3
    } else if !(r4 is NoMatch) {
        r4
    } else if !(r5 is NoMatch) {
        r5
    } else if !(r6 is NoMatch) {
        r6
    } else if !(r7 is NoMatch) {
        r7
    } else if !(r8 is NoMatch) {
        r8
    } else if !(r9 is NoMatch) {
        r9
    } else if !(r10 is NoMatch) {
        r10
    } else if !(r11 is NoMatch) {
        r11
    } else {
        r12
    }
}

/// The parser run for at most `fuel` rounds: the final run and stream, or
/// the fault; `None` when it panics or needs more rounds.
pub open spec fn parse_run(s: Seq<ElemRef>, pool: Seq<TokRef>, fuel: nat) -> Option<
    Result<(Seq<ElemRef>, Seq<TokRef>), ParseFault>,
>
    decreases fuel,
{
    if fuel == 0 {
        None
    } else {
        match parse_step(s, pool) {
            Outcome::NoMatch => Some(Ok((s, pool))),
            Outcome::Next(s2, pool2) => parse_run(s2, pool2, (fuel - 1) as nat),
            Outcome::Fail(f) => Some(Err(f)),
            Outcome::Panic => None,
        }
    }
}

/// The parser comes to an end on the run, without panicking.
pub open spec fn parse_ends(s: Seq<ElemRef>, pool: Seq<TokRef>) -> bool {
    exists|fuel: nat| (#[trigger] parse_run(s, pool, fuel)) is Some
}

/// What the parser gives on the run, where it comes to an end.
pub open spec fn parse_outcome(s: Seq<ElemRef>, pool: Seq<TokRef>) -> Result<
    (Seq<ElemRef>, Seq<TokRef>),
    ParseFault,
> {
    parse_run(s, pool, choose|fuel: nat| (#[trigger] parse_run(s, pool, fuel)) is Some)->0
}

/// A run that comes to an end gives the same with more rounds.
pub proof fn lemma_parse_run_more(s: Seq<ElemRef>, pool: Seq<TokRef>, f: nat, g: nat)
    requires
        parse_run(s, pool, f) is Some,
        f <= g,
    ensures
        parse_run(s, pool, g) == parse_run(s, pool, f),
    decreases f,
{
    if f > 0 {
        match parse_step(s, pool) {
            Outcome::Next(s2, pool2) => {
                lemma_parse_run_more(s2, pool2, (f - 1) as nat, (g - 1) as nat);
            },
            _ => {},
        }
    }
}

/// The parser's own faults are general ones.
pub proof fn lemma_parse_run_general(s: Seq<ElemRef>, pool: Seq<TokRef>, f: nat)
    ensures
        parse_run(s, pool, f) matches Some(Err(fault)) ==> fault is General,
    decreases f,
{
    if f > 0 {
        match parse_step(s, pool) {
            Outcome::Next(s2, pool2) => {
                lemma_parse_run_general(s2, pool2, (f - 1) as nat);
            },
            _ => {},
        }
    }
}

/// Any number of rounds that brings the parser to an end gives its outcome.
pub proof fn lemma_parse_outcome(s: Seq<ElemRef>, pool: Seq<TokRef>, f: nat)
    requires
        parse_run(s, pool, f) is Some,
    ensures
        parse_ends(s, pool),
        parse_run(s, pool, f) == Some(parse_outcome(s, pool)),
{
    let g = choose|fuel: nat| (#[trigger] parse_run(s, pool, fuel)) is Some;
    if f <= g {
        lemma_parse_run_more(s, pool, f, g);
    } else {
        lemma_parse_run_more(s, pool, g, f);
    }
}

// ---- statements, and the whole stream ------------------------------------

/// The token is skipped between statements: an end of line, a semicolon or
/// white space.
pub open spec fn skippable(t: TokenView) -> bool {
    t is EOL || t is SemiColon || t is WhiteSpace
}

/// The token ends a statement: an end of line or a semicolon.
pub open spec fn separator(t: TokenView) -> bool {
    t is EOL || t is SemiColon
}

/// The first place at or after `k` holding a token that is not skipped, or
/// the end of the stream.
pub open spec fn first_content(ts: Seq<TokRef>, k: int) -> int
    decreases ts.len() - k,
{
    if k < 0 || k >= ts.len() {
        ts.len() as int
    } else if !skippable(ts[k]->item) {
        k
    } else {
        first_content(ts, k + 1)
    }
}

/// The first place at or after `k` holding a separator, or the end of the
/// stream.
pub open spec fn first_separator(ts: Seq<TokRef>, k: int) -> int
    decreases ts.len() - k,
{
    if k < 0 || k >= ts.len() {
        ts.len() as int
    } else if separator(ts[k]->item) {
        k
    } else {
        first_separator(ts, k + 1)
    }
}

/// The next statement of the stream and what is left of the stream: the
/// tokens from the first that is not skipped up to the next separator,
/// white space left out, the separator taken too. `None` (and nothing left)
/// when only skipped tokens remain.
pub open spec fn next_statement(ts: Seq<TokRef>) -> (Option<Seq<ElemRef>>, Seq<TokRef>) {
    let fc = first_content(ts, 0);
    if fc >= ts.len() {
        (None, Seq::empty())
    } else {
        let e = first_separator(ts, fc);
        (
            Some(wrap_non_ws(ts.subrange(fc, e))),
            if e < ts.len() {
                ts.subrange(e + 1, ts.len() as int)
            } else {
                Seq::empty()
            },
        )
    }
}

/// The "not a statement" fault for the run from `first` to `last`; `None`
/// where building the error panics (the run ends before it starts).
pub open spec fn not_statement(first: ElemRef, last: ElemRef) -> Option<ParseFault> {
    if last->code_end < first->code_start {
        None
    } else {
        Some(
            ParseFault::NotStatement(
                first->line_number as int,
                first->code_start as int,
                last->code_end as int,
            ),
        )
    }
}

/// Statement by statement, for at most `fuel` statements: the statements
/// found (after `acc`), or the fault; `None` when something panics or does
/// not come to an end, or more statements are needed.
pub open spec fn process_run(pool: Seq<TokRef>, acc: Seq<ElemRef>, fuel: nat) -> Option<
    Result<Seq<ElemRef>, ParseFault>,
>
    decreases fuel,
{
    if fuel == 0 {
        None
    } else {
        match next_statement(pool) {
            (None, _) => Some(Ok(acc)),
            (Some(stmt), rest) => if !parse_ends(stmt, rest) {
                None
            } else {
                match parse_outcome(stmt, rest) {
                    Err(f) => Some(Err(f)),
                    Ok((s2, p2)) => if s2.len() == 1 {
                        process_run(p2, acc.push(s2[0]), (fuel - 1) as nat)
                    } else if s2.len() == 0 {
                        Some(Err(ParseFault::General("parser found an empty statement?"@)))
                    } else {
                        match not_statement(s2[0], s2[s2.len() - 1]) {
                            Some(f) => Some(Err(f)),
                            None => None,
                        }
                    },
                }
            },
        }
    }
}

/// The statements of the stream can all be read, without panicking.
pub open spec fn process_ends(pool: Seq<TokRef>) -> bool {
    exists|fuel: nat| (#[trigger] process_run(pool, Seq::empty(), fuel)) is Some
}

/// The statements of the stream, or the fault, where they can be read.
pub open spec fn process_outcome(pool: Seq<TokRef>) -> Result<Seq<ElemRef>, ParseFault> {
    process_run(
        pool,
        Seq::empty(),
        choose|fuel: nat| (#[trigger] process_run(pool, Seq::empty(), fuel)) is Some,
    )->0
}

/// A run that comes to an end gives the same with more statements allowed.
pub proof fn lemma_process_run_more(pool: Seq<TokRef>, acc: Seq<ElemRef>, f: nat, g: nat)
    requires
        process_run(pool, acc, f) is Some,
        f <= g,
    ensures
        process_run(pool, acc, g) == process_run(pool, acc, f),
    decreases f,
{
    if f > 0 {
        match next_statement(pool) {
            (Some(stmt), rest) => {
                if parse_ends(stmt, rest) {
                    match parse_outcome(stmt, rest) {
                        Ok((s2, p2)) => {
                            if s2.len() == 1 {
                                lemma_process_run_more(p2, acc.push(s2[0]), (f - 1) as nat, (g - 1) as nat);
                            }
                        },
                        _ => {},
                    }
                }
            },
            _ => {},
        }
    }
}

/// Any number of statements that brings the reading to an end gives its
/// outcome.
pub proof fn lemma_process_outcome(pool: Seq<TokRef>, f: nat)
    requires
        process_run(pool, Seq::empty(), f) is Some,
    ensures
        process_ends(pool),
        process_run(pool, Seq::empty(), f) == Some(process_outcome(pool)),
{
    let g = choose|fuel: nat| (#[trigger] process_run(pool, Seq::empty(), fuel)) is Some;
    if f <= g {
        lemma_process_run_more(pool, Seq::empty(), f, g);
    } else {
        lemma_process_run_more(pool, Seq::empty(), g, f);
    }
}

/// The first place before the last element holding an element that is not a
/// statement.
pub open spec fn first_non_statement(w: Seq<ElemRef>, i: int) -> Option<int>
    decreases w.len() - i,
{
    if i < 0 || i >= w.len() - 1 {
        None
    } else if !w[i]->item.is_statement() {
        Some(i)
    } else {
        first_non_statement(w, i + 1)
    }
}

/// The block made of the statements: all but the last must be statements,
/// the last a statement or a last statement. `None` where building the error
/// panics.
pub open spec fn block_outcome(w: Seq<ElemRef>) -> Option<Result<ElemRef, ParseFault>> {
    if w.len() == 0 {
        Some(Err(ParseFault::General("parser found empty `working_phrase`?"@)))
    } else {
        match first_non_statement(w, 0) {
            Some(i) => match not_statement(w[i], w[i]) {
                Some(f) => Some(Err(f)),
                None => None,
            },
            None => {
                let last = w[w.len() - 1];
                if !(last->item.is_statement() || last->item.is_last_statement()) {
                    match not_statement(last, last) {
                        Some(f) => Some(Err(f)),
                        None => None,
                    }
                } else {
                    Some(
                        Ok(
                            made(
                                seq![],
                                w,
                                w[0]->code_start,
                                last->code_end,
                                w[0]->line_number,
                            ),
                        ),
                    )
                }
            },
        }
    }
}

/// The whole stream can be parsed without panicking or running forever.
pub open spec fn parser_ends(pool: Seq<TokRef>) -> bool {
    &&& process_ends(pool)
    &&& (process_outcome(pool) matches Ok(w) ==> block_outcome(w) is Some)
}

/// What parsing the whole stream gives: the block, or the fault.
pub open spec fn parser_outcome(pool: Seq<TokRef>) -> Result<ElemRef, ParseFault> {
    match process_outcome(pool) {
        Ok(w) => block_outcome(w)->0,
        Err(f) => Err(f),
    }
}


// ---- reading with a bound on the rounds ----------------------------------

/// Statement by statement as `process_run`, each statement parsed in at most
/// `fuel` rounds and at most `fuel` statements read: the statements found
/// (after `acc`), or the fault; `None` when the bound is reached or something
/// would panic.
pub open spec fn process_within(pool: Seq<TokRef>, acc: Seq<ElemRef>, fuel: nat) -> Option<
    Result<Seq<ElemRef>, ParseFault>,
>
    decreases fuel,
{
    if fuel == 0 {
        None
    } else {
        match next_statement(pool) {
            (None, _) => Some(Ok(acc)),
            (Some(stmt), rest) => match parse_run(stmt, rest, fuel) {
                None => None,
                Some(Err(f)) => Some(Err(f)),
                Some(Ok((s2, p2))) => if s2.len() == 1 {
                    process_within(p2, acc.push(s2[0]), (fuel - 1) as nat)
                } else if s2.len() == 0 {
                    Some(Err(ParseFault::General("parser found an empty statement?"@)))
                } else {
                    match not_statement(s2[0], s2[s2.len() - 1]) {
                        Some(f) => Some(Err(f)),
                        None => None,
                    }
                },
            },
        }
    }
}

/// Parsing the whole stream with the bound `fuel` on the rounds: the block or
/// the fault, or `None` when the bound is reached or something would panic.
pub open spec fn parser_within(pool: Seq<TokRef>, fuel: nat) -> Option<Result<ElemRef, ParseFault>> {
    match process_within(pool, Seq::empty(), fuel) {
        None => None,
        Some(Err(f)) => Some(Err(f)),
        Some(Ok(w)) => block_outcome(w),
    }
}

/// What a bounded reading gives, the unbounded one gives too.
proof fn lemma_within_run(pool: Seq<TokRef>, acc: Seq<ElemRef>, f: nat)
    requires
        process_within(pool, acc, f) is Some,
    ensures
        process_run(pool, acc, f) == process_within(pool, acc, f),
    decreases f,
{
    match next_statement(pool) {
        (Some(stmt), rest) => {
            lemma_parse_outcome(stmt, rest, f);
            match parse_run(stmt, rest, f) {
                Some(Ok((s2, p2))) => {
                    if s2.len() == 1 {
                        lemma_within_run(p2, acc.push(s2[0]), (f - 1) as nat);
                    }
                },
                _ => {},
            }
        },
        _ => {},
    }
}

/// A bounded reading that answers gives the same with a larger bound.
proof fn lemma_within_more(pool: Seq<TokRef>, acc: Seq<ElemRef>, f: nat, g: nat)
    requires
        process_within(pool, acc, f) is Some,
        f <= g,
    ensures
        process_within(pool, acc, g) == process_within(pool, acc, f),
    decreases f,
{
    match next_statement(pool) {
        (Some(stmt), rest) => {
            lemma_parse_run_more(stmt, rest, f, g);
            match parse_run(stmt, rest, f) {
                Some(Ok((s2, p2))) => {
                    if s2.len() == 1 {
                        lemma_within_more(p2, acc.push(s2[0]), (f - 1) as nat, (g - 1) as nat);
                    }
                },
                _ => {},
            }
        },
        _ => {},
    }
}

/// A reading that comes to an end does so within some bound.
proof fn lemma_within_exists(pool: Seq<TokRef>, acc: Seq<ElemRef>, g: nat) -> (f: nat)
    requires
        process_run(pool, acc, g) is Some,
    ensures
        process_within(pool, acc, f) == process_run(pool, acc, g),
    decreases g,
{
    match next_statement(pool) {
        (None, _) => 1,
        (Some(stmt), rest) => {
            let h = choose|fuel: nat| (#[trigger] parse_run(stmt, rest, fuel)) is Some;
            lemma_parse_outcome(stmt, rest, h);
            match parse_outcome(stmt, rest) {
                Ok((s2, p2)) => {
                    if s2.len() == 1 {
                        let f1 = lemma_within_exists(p2, acc.push(s2[0]), (g - 1) as nat);
                        let f = if h > f1 + 1 { h } else { f1 + 1 };
                        lemma_parse_run_more(stmt, rest, h, f);
                        lemma_within_more(p2, acc.push(s2[0]), f1, (f - 1) as nat);
                        f
                    } else {
                        let f = if h > 1 { h } else { 1 };
                        lemma_parse_run_more(stmt, rest, h, f);
                        f
                    }
                },
                Err(_) => {
                    let f = if h > 1 { h } else { 1 };
                    lemma_parse_run_more(stmt, rest, h, f);
                    f
                },
            }
        },
    }
}

/// Where parsing with a bound on the rounds answers, the stream can be parsed
/// without panicking or running forever, and the answer is what parsing it
/// gives.
pub proof fn lemma_within_outcome(pool: Seq<TokRef>, f: nat)
    requires
        parser_within(pool, f) is Some,
    ensures
        parser_ends(pool),
        parser_within(pool, f) == Some(parser_outcome(pool)),
{
    lemma_within_run(pool, Seq::empty(), f);
    lemma_process_outcome(pool, f);
}

/// Every stream that can be parsed without panicking or running forever is
/// parsed within some bound on the rounds, to the same block or fault.
pub proof fn law_parser_ends_within(pool: Seq<TokRef>)
    requires
        parser_ends(pool),
    ensures
        exists|f: nat| #[trigger] parser_within(pool, f) == Some(parser_outcome(pool)),
{
    let g = choose|fuel: nat| (#[trigger] process_run(pool, Seq::empty(), fuel)) is Some;
    lemma_process_outcome(pool, g);
    let f = lemma_within_exists(pool, Seq::empty(), g);
    assert(parser_within(pool, f) == Some(parser_outcome(pool)));
}

} // verus!
