//! The parser: reduces the scanner's tokens, statement by statement, to
//! elements, and the statements to one block.

use vstd::prelude::*;
use crate::coderef::CodeRef;
use crate::token::{Token, TokenView, CodeToken};
use crate::element::{Element, ElementView, CodeElement, views, made, lemma_view};
use crate::error::parser::ParserError;
use crate::error::codeinfo::CodeInformation;
use crate::parsespec::{
    ElemRef, TokRef, ParseFault, Outcome, Window, ListKind, width, window_at, window_built,
    window_from, rule_window, splice, list_item, list_sep, list_continues, list_end, list_ok,
    list_from, list_members, rule_list, rule_var, rule_field, rule_comment, rule_assignment,
    rule_local, rule_last_statement, applied, applied_here, is_tok, rule_until, until_count, next_level,
    wrap_non_ws, closing_semicolon, closer_text, fault_is, rule_table, token_from, fields_reduced,
    parse_step, parse_run, parse_ends, parse_outcome, lemma_parse_outcome, with_pool, pure_outcome,
    skippable, separator, first_content, first_separator, next_statement, process_run, process_ends,
    process_outcome, lemma_process_outcome, first_non_statement, block_outcome, not_statement,
    parser_ends, parser_outcome, fault_from, process_within, parser_within, lemma_within_outcome,
};
use crate::scanner::Scanner;
use crate::scanner::token_views;
use crate::token::spec_matching_set;
use crate::text::push_str;

verus! {

/// Parses the tokens of a scanner; `blocks` holds the result.
pub struct Parser<'a> {
    pub file_name: String,
    pub raw_code: &'a str,
    pub blocks: Option<CodeElement>,
}

impl<'a> CodeInformation for Parser<'a> {
    /// One character is underlined.
    open spec fn spec_item_span(&self) -> nat {
        1
    }

    /// No description is given.
    open spec fn spec_description(&self) -> Seq<char> {
        Seq::empty()
    }

    fn item_span(&self) -> (r: usize) {
        1
    }

    fn description(&self) -> (r: String) {
        String::new()
    }

    open spec fn spec_raw_code(&self) -> Seq<char> {
        self.raw_code@
    }

    open spec fn spec_cursor_pos(&self) -> nat {
        0
    }

    open spec fn spec_file_name(&self) -> Seq<char> {
        self.file_name@
    }

    open spec fn spec_line_number(&self) -> nat {
        0
    }

    fn raw_code(&self) -> (r: String) {
        self.raw_code.to_owned()
    }

    fn cursor_pos(&self) -> (r: usize) {
        0
    }

    fn file_name(&self) -> (r: String) {
        self.file_name.clone()
    }

    fn line_number(&self) -> (r: usize) {
        0
    }
}

/// The view of each element is its view in the run.
proof fn lemma_views(s: Seq<CodeElement>)
    ensures
        views(s).len() == s.len(),
        forall|k: int| 0 <= k < s.len() ==> #[trigger] views(s)[k] == s[k]@,
{
}

/// The views of short runs.
proof fn lemma_views_small(a: CodeElement, b: CodeElement, c: CodeElement)
    ensures
        views(seq![a]) == seq![a@],
        views(seq![a, b]) == seq![a@, b@],
        views(seq![a, b, c]) == seq![a@, b@, c@],
{
    assert(views(seq![a]) =~= seq![a@]);
    assert(views(seq![a, b]) =~= seq![a@, b@]);
    assert(views(seq![a, b, c]) =~= seq![a@, b@, c@]);
}

/// The pattern stands at `i` of the run.
fn window_matches(elements: &Vec<CodeElement>, p: Window, i: usize) -> (r: bool)
    requires
        i + width(p) <= elements@.len(),
    ensures
        r == window_at(p, views(elements@), i as int),
{
    let n = elements.len();
    proof {
        lemma_views(elements@);
    }
    match p {
        Window::DotName => {
            let (j, k) = (i + 1, i + 2);
            elements[i].i().is_prefix_exp() && elements[j].i().matches_token(Token::Period)
                && elements[k].i().is_name()
        },
        Window::Index => elements[i].i().is_prefix_exp() && elements[i + 1].i().matches_token(
            Token::LeftBracket,
        ) && elements[i + 2].i().is_exp() && elements[i + 3].i().matches_token(Token::RightBracket),
        Window::Binop => elements[i].i().is_exp() && elements[i + 1].i().is_binop_token()
            && elements[i + 2].i().is_exp(),
        Window::Unop => elements[i].i().is_unop_token() && elements[i + 1].i().is_exp(),
        Window::Paren => elements[i].i().matches_token(Token::LeftParen) && elements[i
            + 1].i().is_exp() && elements[i + 2].i().matches_token(Token::RightParen),
        Window::FieldIndex => elements[i].i().matches_token(Token::LeftBracket) && elements[i
            + 1].i().is_exp() && elements[i + 2].i().matches_token(Token::RightBracket)
            && elements[i + 3].i().matches_token(Token::Equal) && elements[i + 4].i().is_exp(),
        Window::FieldName => elements[i].i().is_name() && elements[i + 1].i().matches_token(
            Token::Equal,
        ) && elements[i + 2].i().is_exp(),
    }
}

/// A vector of one element.
fn one(a: CodeElement) -> (r: Vec<CodeElement>)
    ensures
        r@ == seq![a],
{
    let mut v: Vec<CodeElement> = Vec::new();
    v.push(a);
    v
}

/// A vector of two elements.
fn two(a: CodeElement, b: CodeElement) -> (r: Vec<CodeElement>)
    ensures
        r@ == seq![a, b],
{
    let mut v: Vec<CodeElement> = Vec::new();
    v.push(a);
    v.push(b);
    v
}

/// A vector of three elements.
fn three(a: CodeElement, b: CodeElement, c: CodeElement) -> (r: Vec<CodeElement>)
    ensures
        r@ == seq![a, b, c],
{
    let mut v: Vec<CodeElement> = Vec::new();
    v.push(a);
    v.push(b);
    v.push(c);
    v
}

/// The element made of the tokens that `ids` wrap and the arguments `els`,
/// placed from `code_start` to `code_end` on `line_number`.
fn build(
    ids: Vec<CodeElement>,
    els: Vec<CodeElement>,
    code_start: usize,
    code_end: usize,
    line_number: usize,
) -> (r: Result<CodeElement, ParserError>)
    ensures
        r is Ok <==> (forall|k: int| 0 <= k < ids@.len() ==> (#[trigger] ids@[k])->item@.is_token()),
        r matches Ok(e) ==> e@ == made(views(ids@), views(els@), code_start, code_end, line_number),
        r matches Err(err) ==> err matches ParserError::GEN(d) && d@ == crate::parsespec::create_error(),
{
    let ghost vi = views(ids@);
    let ghost ve = views(els@);
    proof {
        lemma_views(ids@);
    }
    match Element::create(ids, els) {
        Ok(item) => {
            let r = CodeRef::CodeRef { item, code_start, code_end, line_number };
            Ok(r)
        },
        Err(e) => Err(e),
    }
}

/// Takes `w` elements out of the run at `i`, in order.
fn take_out(elements: &mut Vec<CodeElement>, i: usize, w: usize) -> (r: Vec<CodeElement>)
    requires
        i + w <= old(elements)@.len(),
    ensures
        r@ == old(elements)@.subrange(i as int, i + w),
        final(elements)@ == old(elements)@.subrange(0, i as int) + old(elements)@.subrange(
            i + w,
            old(elements)@.len() as int,
        ),
{
    let ghost s0 = elements@;
    let mut taken: Vec<CodeElement> = Vec::new();
    let mut k: usize = 0;
    while k < w
        invariant
            k <= w,
            i + w <= s0.len(),
            taken@ == s0.subrange(i as int, i + k),
            elements@ == s0.subrange(0, i as int) + s0.subrange(i + k, s0.len() as int),
        decreases w - k,
    {
        let e = elements.remove(i);
        taken.push(e);
        proof {
            assert(taken@ =~= s0.subrange(i as int, i + k + 1));
            assert(elements@ =~= s0.subrange(0, i as int) + s0.subrange(i + k + 1, s0.len() as int));
        }
        k = k + 1;
    }
    taken
}

/// The element a pattern becomes, made from the elements it spans.
fn build_window(p: Window, taken: Vec<CodeElement>) -> (r: Result<CodeElement, ParserError>)
    requires
        taken@.len() == width(p),
        window_at(p, views(taken@), 0),
    ensures
        r matches Ok(e) && e@ == window_built(p, views(taken@), 0),
{
    let ghost s = views(taken@);
    proof {
        lemma_views(taken@);
    }
    let mut t = taken;
    match p {
        Window::DotName => {
            let prefix = t.remove(0);
            let period = t.remove(0);
            let name = t.remove(0);
            let (cs, ce, ln) = (prefix.code_start(), name.code_end(), prefix.line_number());
            proof { lemma_views_small(period, prefix, name); lemma_views_small(prefix, name, name); }
            build(one(period), two(prefix, name), cs, ce, ln)
        },
        Window::Index => {
            let prefix = t.remove(0);
            let left = t.remove(0);
            let exp = t.remove(0);
            let right = t.remove(0);
            let (cs, ce, ln) = (prefix.code_start(), right.code_end(), prefix.line_number());
            proof { lemma_views_small(left, right, right); lemma_views_small(prefix, exp, exp); }
            build(two(left, right), two(prefix, exp), cs, ce, ln)
        },
        Window::Binop => {
            let exp1 = t.remove(0);
            let op = t.remove(0);
            let exp2 = t.remove(0);
            let (cs, ce, ln) = (exp1.code_start(), exp2.code_end(), exp1.line_number());
            proof { lemma_views_small(op, op, op); lemma_views_small(exp1, exp2, exp2); }
            build(one(op), two(exp1, exp2), cs, ce, ln)
        },
        Window::Unop => {
            let op = t.remove(0);
            let exp = t.remove(0);
            let (cs, ce, ln) = (op.code_start(), exp.code_end(), op.line_number());
            proof { lemma_views_small(op, op, op); lemma_views_small(exp, exp, exp); }
            build(one(op), one(exp), cs, ce, ln)
        },
        Window::Paren => {
            let left = t.remove(0);
            let exp = t.remove(0);
            let right = t.remove(0);
            let (cs, ce, ln) = (left.code_start(), right.code_end(), left.line_number());
            proof { lemma_views_small(left, right, right); lemma_views_small(exp, exp, exp); }
            build(two(left, right), one(exp), cs, ce, ln)
        },
        Window::FieldIndex => {
            let left = t.remove(0);
            let exp1 = t.remove(0);
            let right = t.remove(0);
            let op = t.remove(0);
            let exp2 = t.remove(0);
            let (cs, ce, ln) = (left.code_start(), exp2.code_end(), left.line_number());
            proof { lemma_views_small(left, right, op); lemma_views_small(exp1, exp2, exp2); }
            build(three(left, right, op), two(exp1, exp2), cs, ce, ln)
        },
        Window::FieldName => {
            let name = t.remove(0);
            let op = t.remove(0);
            let exp = t.remove(0);
            let (cs, ce, ln) = (name.code_start(), exp.code_end(), name.line_number());
            proof { lemma_views_small(op, op, op); lemma_views_small(name, exp, exp); }
            build(one(op), two(name, exp), cs, ce, ln)
        },
    }
}

/// Reduces the first occurrence of the pattern, if there is one.
fn reduce_window(elements: &mut Vec<CodeElement>, p: Window) -> (r: Result<bool, ParserError>)
    ensures
        match rule_window(p, views(old(elements)@)) {
            Some(s2) => r matches Ok(true) && views(final(elements)@) == s2,
            None => r matches Ok(false) && final(elements)@ == old(elements)@,
        },
{
    let ghost s0 = views(elements@);
    let n = elements.len();
    let w: usize = match p {
        Window::DotName => 3,
        Window::Index => 4,
        Window::Binop => 3,
        Window::Unop => 2,
        Window::Paren => 3,
        Window::FieldIndex => 5,
        Window::FieldName => 3,
    };
    proof {
        lemma_views(elements@);
    }
    if n < w {
        return Ok(false);
    }
    let mut i: usize = 0;
    while i <= n - w
        invariant
            n == elements@.len(),
            w == width(p),
            w <= n,
            s0 == views(elements@),
            elements@ == old(elements)@,
            s0.len() == n,
            window_from(p, s0, 0) == window_from(p, s0, i as int),
        decreases n + 1 - i,
    {
        if window_matches(elements, p, i) {
            assert(window_from(p, s0, i as int) == Some(i as int));
            let ghost old_s = elements@;
            let taken = take_out(elements, i, w);
            proof {
                lemma_views(taken@);
                lemma_views(old_s);
                assert(views(taken@) =~= s0.subrange(i as int, i + w));
                assert(window_at(p, views(taken@), 0));
            }
            let new = match build_window(p, taken) {
                Ok(e) => e,
                Err(e) => {
                    return Err(e);
                },
            };
            proof {
                assert(window_built(p, views(taken@), 0) == window_built(p, s0, i as int));
            }
            elements.insert(i, new);
            proof {
                lemma_views(elements@);
                assert(views(elements@) =~= splice(s0, i as int, w as int, window_built(p, s0, i as int)));
            }
            return Ok(true);
        }
        assert(window_from(p, s0, i as int) == window_from(p, s0, i + 1));
        i = i + 1;
    }
    assert(window_from(p, s0, i as int) is None);
    Ok(false)
}

/// The element can be an item of the list.
fn list_item_exec(e: &CodeElement, k: ListKind) -> (r: bool)
    ensures
        r == list_item(k, e@),
{
    match k {
        ListKind::Exp => e.i().is_exp(),
        ListKind::Var => e.i().is_var(),
        ListKind::Name => e.i().is_name(),
        ListKind::Field => e.i().is_field(),
    }
}

/// The element separates items of the list.
fn list_sep_exec(e: &CodeElement, k: ListKind) -> (r: bool)
    ensures
        r == list_sep(k, e@),
{
    proof {
        lemma_view(&e->item);
    }
    match e.i().get_token() {
        Some(token) => {
            let is_field = match k {
                ListKind::Field => true,
                _ => false,
            };
            token.i().same_token(&Token::Comma) || (is_field && token.i().same_token(
                &Token::SemiColon,
            ))
        },
        None => false,
    }
}

/// Reduces the first list worth reducing, if there is one.
fn reduce_list(elements: &mut Vec<CodeElement>, k: ListKind) -> (r: Result<bool, ParserError>)
    ensures
        match rule_list(k, views(old(elements)@)) {
            Some(s2) => r matches Ok(true) && views(final(elements)@) == s2,
            None => r matches Ok(false) && final(elements)@ == old(elements)@,
        },
{
    let ghost s0 = views(elements@);
    let n = elements.len();
    proof {
        lemma_views(elements@);
    }
    let is_field = match k {
        ListKind::Field => true,
        _ => false,
    };
    let mut i: usize = 0;
    while i < n
        invariant
            n == elements@.len(),
            s0 == views(elements@),
            elements@ == old(elements)@,
            s0.len() == n,
            is_field == (k is Field),
            i <= n,
            list_from(k, s0, 0) == list_from(k, s0, i as int),
        decreases n - i,
    {
        proof {
            lemma_views(elements@);
        }
        if list_item_exec(&elements[i], k) {
            let mut j: usize = i + 1;
            let mut going = true;
            while going && j < n
                invariant
                    n == elements@.len(),
                    s0 == views(elements@),
                    s0.len() == n,
                    i < j <= n,
                    going ==> list_end(k, s0, i as int, i + 1) == list_end(k, s0, i as int, j as int),
                    !going ==> list_end(k, s0, i as int, i + 1) == j - 1,
                decreases n - j, if going { 1int } else { 0int },
            {
                proof {
                    lemma_views(elements@);
                }
                let cont = if (j - i) % 2 == 1 {
                    list_sep_exec(&elements[j], k)
                } else {
                    list_item_exec(&elements[j], k)
                };
                assert(cont == list_continues(k, s0, i as int, j as int));
                if cont {
                    j = j + 1;
                } else {
                    going = false;
                }
            }
            let ending = j - 1;
            assert(ending == list_end(k, s0, i as int, i + 1));
            if ending != i && (is_field || (ending - i) % 2 == 0) {
                assert(list_ok(k, s0, i as int));
                assert(list_from(k, s0, i as int) == Some(i as int));
                let ghost m = list_members(s0, i as int, ending as int);
                let mut exps: Vec<CodeElement> = Vec::new();
                let mut cc: usize = 0;
                while cc < ending - i + 1
                    invariant
                        i <= ending < n,
                        s0.len() == n,
                        cc <= ending - i + 1,
                        m == list_members(s0, i as int, ending as int),
                        views(elements@) == s0.subrange(0, i as int) + s0.subrange(i + cc, n as int),
                        exps@.len() == (cc + 1) / 2,
                        forall|q: int| 0 <= q < exps@.len() ==> #[trigger] exps@[q]@ == s0[i + 2 * q],
                    decreases ending - i + 1 - cc,
                {
                    let ghost before = elements@;
                    proof {
                        lemma_views(before);
                        assert(views(before)[i as int] == s0[i + cc]);
                    }
                    let token = elements.remove(i);
                    proof {
                        lemma_views(elements@);
                        assert(token@ == s0[i + cc]);
                        assert(forall|q: int| 0 <= q < elements@.len() ==> #[trigger] views(elements@)[q] == views(before)[if q < i { q } else { q + 1 }]);
                        assert(views(elements@) =~= s0.subrange(0, i as int) + s0.subrange(i + cc + 1, n as int));
                    }
                    if cc % 2 == 0 {
                        exps.push(token);
                    }
                    cc = cc + 1;
                }
                if exps.len() == 0 {
                    return Err(ParserError::general("expression list was found, but parsed as empty??"));
                }
                let ghost exps_view = views(exps@);
                proof {
                    lemma_views(exps@);
                    assert(views(exps@) =~= m);
                }
                let code_start = exps[0].code_start();
                let line_number = exps[0].line_number();
                let code_end = exps[exps.len() - 1].code_end();
                let new = match build(Vec::new(), exps, code_start, code_end, line_number) {
                    Ok(e) => e,
                    Err(e) => {
                        return Err(e);
                    },
                };
                proof {
                    assert(views(Seq::<CodeElement>::empty()) =~= Seq::<ElemRef>::empty());
                }
                let ghost before_insert = elements@;
                proof {
                    lemma_views(before_insert);
                    assert(code_start == m[0]->code_start);
                    assert(code_end == m[m.len() - 1]->code_end);
                    assert(new@ == made(seq![], m, m[0]->code_start, m[m.len() - 1]->code_end, m[0]->line_number));
                }
                elements.insert(i, new);
                proof {
                    lemma_views(elements@);
                    assert(views(before_insert) =~= s0.subrange(0, i as int) + s0.subrange(ending + 1, n as int));
                    assert(elements@ == before_insert.insert(i as int, new));
                    assert(views(elements@) =~= views(before_insert).insert(i as int, new@));
                    assert(views(elements@) =~= crate::parsespec::splice(
                        s0,
                        i as int,
                        ending - i + 1,
                        made(seq![], m, m[0]->code_start, m[m.len() - 1]->code_end, m[0]->line_number),
                    ));
                }
                return Ok(true);
            }
        }
        assert(!list_ok(k, s0, i as int));
        assert(list_from(k, s0, i as int) == list_from(k, s0, i + 1));
        i = i + 1;
    }
    assert(list_from(k, s0, i as int) is None);
    Ok(false)
}

/// Puts the element at the front of the run and states the result.
proof fn lemma_front(before: Seq<CodeElement>, after: Seq<CodeElement>, new: CodeElement)
    requires
        after == before.insert(0, new),
    ensures
        views(after) == seq![new@] + views(before),
{
    lemma_views(before);
    lemma_views(after);
    assert(views(after) =~= seq![new@] + views(before));
}

impl<'a> Parser<'a> {
    /// `- ...` at the start of the statement (a comment written as two minus
    /// signs; see `rule_comment`).
    fn process_comment(elements: &mut Vec<CodeElement>) -> (r: Result<bool, ParserError>)
        requires
            !(rule_comment(views(old(elements)@)) is Panic),
        ensures
            applied_here(rule_comment(views(old(elements)@)), r, views(old(elements)@), views(final(elements)@)),
    {
        let ghost s = views(elements@);
        proof {
            lemma_views(elements@);
        }
        if elements.len() >= 2 {
            if elements[0].i().matches_token(Token::Minus) && elements[0].i().matches_token(
                Token::Minus,
            ) {
                let minus1 = elements.remove(0);
                let minus2 = elements.remove(1);
                let code_start: usize = minus1.code_start();
                let line_number: usize = minus1.line_number();
                let code_end: usize = elements[elements.len() - 1].code_end();
                let n = elements.len();
                let rest = take_out(elements, 0, n);
                proof {
                    lemma_views(rest@);
                    assert(views(rest@) =~= seq![s[1]] + s.subrange(3, s.len() as int));
                    lemma_views_small(minus1, minus2, minus2);
                }
                let new = build(two(minus1, minus2), rest, code_start, code_end, line_number)?;
                let ghost before = elements@;
                elements.insert(0, new);
                proof {
                    lemma_front(before, elements@, new);
                    assert(before =~= Seq::<CodeElement>::empty());
                    lemma_views(before);
                    assert(views(elements@) =~= seq![new@]);
                }
                return Ok(true);
            }
        }
        Ok(false)
    }

    /// `varlist = explist`, the whole statement.
    fn process_statement_assignment(statement: &mut Vec<CodeElement>) -> (r: Result<
        bool,
        ParserError,
    >)
        ensures
            applied_here(rule_assignment(views(old(statement)@)), r, views(old(statement)@), views(final(statement)@)),
    {
        let ghost s = views(statement@);
        proof {
            lemma_views(statement@);
        }
        if statement.len() == 3 {
            proof {
                lemma_view(&statement@[1]->item);
            }
            if let Some(token) = statement[1].i().get_token() {
                if token.i().same_token(&Token::Equal) && statement[0].i().is_var_list()
                    && statement[2].i().is_exp_list() {
                    let vars = statement.remove(0);
                    let op = statement.remove(0);
                    let exp = statement.remove(0);
                    let code_start = vars.code_start();
                    let code_end = exp.code_end();
                    let line_number = vars.line_number();
                    proof {
                        lemma_views_small(op, op, op);
                        lemma_views_small(vars, exp, exp);
                    }
                    let new = build(one(op), two(vars, exp), code_start, code_end, line_number)?;
                    let ghost before = statement@;
                    statement.insert(0, new);
                    proof {
                        lemma_front(before, statement@, new);
                        lemma_views(before);
                        assert(views(statement@) =~= seq![new@]);
                    }
                    return Ok(true);
                }
            }
        }
        Ok(false)
    }

    /// `local namelist [= explist]`, the whole statement.
    fn process_statement_local_assignment(elements: &mut Vec<CodeElement>) -> (r: Result<
        bool,
        ParserError,
    >)
        ensures
            applied_here(rule_local(views(old(elements)@)), r, views(old(elements)@), views(final(elements)@)),
    {
        let ghost s = views(elements@);
        proof {
            lemma_views(elements@);
        }
        if elements.len() == 2 {
            if elements[0].i().matches_token(Token::Local) && elements[1].i().is_name_list() {
                let local = elements.remove(0);
                let name_list = elements.remove(0);
                let code_start = local.code_start();
                let code_end = name_list.code_end();
                let line_number = local.line_number();
                proof {
                    lemma_views_small(local, local, local);
                    lemma_views_small(name_list, name_list, name_list);
                }
                let new = build(one(local), one(name_list), code_start, code_end, line_number)?;
                let ghost before = elements@;
                elements.insert(0, new);
                proof {
                    lemma_front(before, elements@, new);
                    lemma_views(before);
                    assert(views(elements@) =~= seq![new@]);
                }
                return Ok(true);
            }
        }
        if elements.len() == 4 {
            if elements[0].i().matches_token(Token::Local) && elements[1].i().is_name_list()
                && elements[2].i().matches_token(Token::Equal) && elements[3].i().is_exp_list() {
                let local = elements.remove(0);
                let name_list = elements.remove(0);
                let eq = elements.remove(0);
                let exp_list = elements.remove(0);
                let code_start = local.code_start();
                let code_end = exp_list.code_end();
                let line_number = local.line_number();
                proof {
                    lemma_views_small(local, eq, eq);
                    lemma_views_small(name_list, exp_list, exp_list);
                }
                let new = build(two(local, eq), two(name_list, exp_list), code_start, code_end, line_number)?;
                let ghost before = elements@;
                elements.insert(0, new);
                proof {
                    lemma_front(before, elements@, new);
                    lemma_views(before);
                    assert(views(elements@) =~= seq![new@]);
                }
                return Ok(true);
            }
        }
        Ok(false)
    }

    /// `break`, `return` or `return explist`, the whole statement.
    fn process_last_statement(elements: &mut Vec<CodeElement>) -> (r: Result<bool, ParserError>)
        ensures
            applied_here(rule_last_statement(views(old(elements)@)), r, views(old(elements)@), views(final(elements)@)),
    {
        let ghost s = views(elements@);
        proof {
            lemma_views(elements@);
        }
        if elements.len() == 1 {
            if elements[0].i().matches_token(Token::Break) || elements[0].i().matches_token(
                Token::Return,
            ) {
                let removed_token = elements.remove(0);
                let code_start = removed_token.code_start();
                let code_end = removed_token.code_end();
                let line_number = removed_token.line_number();
                proof {
                    lemma_views_small(removed_token, removed_token, removed_token);
                    assert(views(Seq::<CodeElement>::empty()) =~= Seq::<ElemRef>::empty());
                }
                let new = build(one(removed_token), Vec::new(), code_start, code_end, line_number)?;
                let ghost before = elements@;
                elements.insert(0, new);
                proof {
                    lemma_front(before, elements@, new);
                    lemma_views(before);
                    assert(views(elements@) =~= seq![new@]);
                }
                return Ok(true);
            }
        }
        if elements.len() == 2 {
            if elements[0].i().matches_token(Token::Return) && elements[1].i().is_exp_list() {
                let return_token = elements.remove(0);
                let exp_list = elements.remove(0);
                let code_start = return_token.code_start();
                let code_end = exp_list.code_end();
                let line_number = return_token.line_number();
                proof {
                    lemma_views_small(return_token, return_token, return_token);
                    lemma_views_small(exp_list, exp_list, exp_list);
                }
                let new = build(one(return_token), one(exp_list), code_start, code_end, line_number)?;
                let ghost before = elements@;
                elements.insert(0, new);
                proof {
                    lemma_front(before, elements@, new);
                    lemma_views(before);
                    assert(views(elements@) =~= seq![new@]);
                }
                return Ok(true);
            }
        }
        Ok(false)
    }

    /// exp list: `{exp ,} exp`.
    fn process_exp_list(elements: &mut Vec<CodeElement>) -> (r: Result<bool, ParserError>)
        ensures
            match rule_list(ListKind::Exp, views(old(elements)@)) {
                Some(s2) => r matches Ok(true) && views(final(elements)@) == s2,
                None => r matches Ok(false) && final(elements)@ == old(elements)@,
            },
    {
        reduce_list(elements, ListKind::Exp)
    }

    /// var list: `{var ,} var`.
    fn process_var_list(elements: &mut Vec<CodeElement>) -> (r: Result<bool, ParserError>)
        ensures
            match rule_list(ListKind::Var, views(old(elements)@)) {
                Some(s2) => r matches Ok(true) && views(final(elements)@) == s2,
                None => r matches Ok(false) && final(elements)@ == old(elements)@,
            },
    {
        reduce_list(elements, ListKind::Var)
    }

    /// name list: `{Name ,} Name`.
    fn process_name_list(elements: &mut Vec<CodeElement>) -> (r: Result<bool, ParserError>)
        ensures
            match rule_list(ListKind::Name, views(old(elements)@)) {
                Some(s2) => r matches Ok(true) && views(final(elements)@) == s2,
                None => r matches Ok(false) && final(elements)@ == old(elements)@,
            },
    {
        reduce_list(elements, ListKind::Name)
    }

    /// field list: `field {sep field} [sep]`, where a separator is `,` or `;`.
    fn process_field_list(elements: &mut Vec<CodeElement>) -> (r: Result<bool, ParserError>)
        ensures
            match rule_list(ListKind::Field, views(old(elements)@)) {
                Some(s2) => r matches Ok(true) && views(final(elements)@) == s2,
                None => r matches Ok(false) && final(elements)@ == old(elements)@,
            },
    {
        reduce_list(elements, ListKind::Field)
    }

    /// var: `prefixexp . Name`, else `prefixexp [ exp ]`.
    fn process_var(elements: &mut Vec<CodeElement>) -> (r: Result<bool, ParserError>)
        ensures
            match rule_var(views(old(elements)@)) {
                Some(s2) => r matches Ok(true) && views(final(elements)@) == s2,
                None => r matches Ok(false) && final(elements)@ == old(elements)@,
            },
    {
        if reduce_window(elements, Window::DotName)? {
            return Ok(true);
        }
        reduce_window(elements, Window::Index)
    }

    /// `( exp )`.
    fn process_prefix_exp(statement: &mut Vec<CodeElement>) -> (r: Result<bool, ParserError>)
        ensures
            match rule_window(Window::Paren, views(old(statement)@)) {
                Some(s2) => r matches Ok(true) && views(final(statement)@) == s2,
                None => r matches Ok(false) && final(statement)@ == old(statement)@,
            },
    {
        reduce_window(statement, Window::Paren)
    }

    /// `exp binop exp`.
    fn process_binop(statement: &mut Vec<CodeElement>) -> (r: Result<bool, ParserError>)
        ensures
            match rule_window(Window::Binop, views(old(statement)@)) {
                Some(s2) => r matches Ok(true) && views(final(statement)@) == s2,
                None => r matches Ok(false) && final(statement)@ == old(statement)@,
            },
    {
        reduce_window(statement, Window::Binop)
    }

    /// `unop exp`.
    fn process_unop(statement: &mut Vec<CodeElement>) -> (r: Result<bool, ParserError>)
        ensures
            match rule_window(Window::Unop, views(old(statement)@)) {
                Some(s2) => r matches Ok(true) && views(final(statement)@) == s2,
                None => r matches Ok(false) && final(statement)@ == old(statement)@,
            },
    {
        reduce_window(statement, Window::Unop)
    }

    /// field: `[ exp ] = exp`, else `Name = exp`.
    fn process_field(elements: &mut Vec<CodeElement>) -> (r: Result<bool, ParserError>)
        ensures
            match rule_field(views(old(elements)@)) {
                Some(s2) => r matches Ok(true) && views(final(elements)@) == s2,
                None => r matches Ok(false) && final(elements)@ == old(elements)@,
            },
    {
        if reduce_window(elements, Window::FieldIndex)? {
            return Ok(true);
        }
        reduce_window(elements, Window::FieldName)
    }
}

/// The view of each token is its view in the stream.
proof fn lemma_token_views(ts: Seq<CodeToken>)
    ensures
        token_views(ts).len() == ts.len(),
        forall|k: int| 0 <= k < ts.len() ==> #[trigger] token_views(ts)[k] == ts[k]@,
{
}

/// How the closing token is written (empty for tokens that close nothing).
fn closer_str(t: &Token) -> (r: &'static str)
    ensures
        r@ == closer_text(t@),
{
    proof {
        reveal_strlit("}");
        reveal_strlit(")");
        reveal_strlit("]");
        reveal_strlit("");
    }
    match t {
        Token::RightMoustache => "}",
        Token::RightParen => ")",
        Token::RightBracket => "]",
        _ => "",
    }
}

/// The wrapped tokens, white space left out, of a stream extended by one.
proof fn lemma_wrap_non_ws_push(ts: Seq<TokRef>, k: int)
    requires
        0 <= k < ts.len(),
    ensures
        wrap_non_ws(ts.subrange(0, k + 1)) == wrap_non_ws(ts.subrange(0, k)) + if ts[k]->item is WhiteSpace {
            Seq::<ElemRef>::empty()
        } else {
            seq![crate::element::wrap_token(ts[k])]
        },
{
    assert(ts.subrange(0, k + 1).drop_last() =~= ts.subrange(0, k));
}

impl<'a> Parser<'a> {
    /// Takes tokens from the stream onto the end of the run, after a
    /// semicolon, up to the token `token` (with `nesting`, the one that
    /// closes the first; see `rule_until`).
    fn get_tokens_until_token(
        &mut self,
        elements: &mut Vec<CodeElement>,
        token_pool: &mut Vec<CodeToken>,
        token: Token,
        nesting: bool,
    ) -> (r: Result<(), ParserError>)
        requires
            !(rule_until(views(old(elements)@), token_views(old(token_pool)@), token@, nesting) is Panic),
            old(token_pool)@.len() < usize::MAX,
        ensures
            *final(self) == *old(self),
            final(token_pool)@.len() <= old(token_pool)@.len(),
            match rule_until(views(old(elements)@), token_views(old(token_pool)@), token@, nesting) {
                Outcome::Next(s2, p2) => r is Ok && views(final(elements)@) == s2 && token_views(
                    final(token_pool)@,
                ) == p2,
                Outcome::Fail(f) => r matches Err(e) && fault_is(e, f),
                _ => false,
            },
    {
        let ghost s0 = views(elements@);
        let ghost p0 = token_views(token_pool@);
        proof {
            lemma_views(elements@);
        }
        let n0 = elements.len();
        let code_start = elements[n0 - 1].code_end();
        let line_number = elements[n0 - 1].line_number();
        let code_end = code_start + 1;
        let semi = Element::codeelement_from_token(
            CodeRef::CodeRef { item: Token::SemiColon, code_start, code_end, line_number },
        );
        elements.push(semi);
        proof {
            lemma_views(elements@);
            assert(views(elements@) =~= s0.push(closing_semicolon(s0)) + wrap_non_ws(p0.subrange(0, 0)));
        }
        let openers = token.matching_set();
        proof {
            lemma_token_views(token_pool@);
            assert(token_views(token_pool@) =~= p0.subrange(0, p0.len() as int));
        }
        let mut nest_level: usize = 1;
        let mut k: usize = 0;
        let ghost total = token_pool@.len();
        loop
            invariant
                total == p0.len(),
                total < usize::MAX,
                s0 == views(old(elements)@),
                p0 == token_views(old(token_pool)@),
                k <= total,
                token_views(token_pool@) == p0.subrange(k as int, total as int),
                views(elements@) == s0.push(closing_semicolon(s0)) + wrap_non_ws(p0.subrange(0, k as int)),
                1 <= nest_level <= k + 1,
                until_count(p0, token@, nesting, 0, 1) == until_count(p0, token@, nesting, k as int, nest_level as int),
                openers@.len() == spec_matching_set(token@).len(),
                forall|q: int| 0 <= q < openers@.len() ==> #[trigger] openers@[q]@ == spec_matching_set(token@)[q],
                rule_until(s0, p0, token@, nesting) == (match until_count(p0, token@, nesting, 0, 1) {
                    None => Outcome::Fail(
                        ParseFault::General(
                            "ran out of tokens in the stream, looking for '"@ + closer_text(token@)
                                + "' but never found it?"@,
                        ),
                    ),
                    Some(n) => Outcome::Next(
                        s0.push(closing_semicolon(s0)) + wrap_non_ws(p0.subrange(0, n)),
                        p0.subrange(n, p0.len() as int),
                    ),
                }),
                *self == *old(self),
            decreases total - k,
        {
            proof {
                lemma_token_views(token_pool@);
            }
            if token_pool.len() == 0 {
                assert(k == total);
                assert(until_count(p0, token@, nesting, k as int, nest_level as int) is None);
                let mut message = "ran out of tokens in the stream, looking for '".to_owned();
                push_str(&mut message, closer_str(&token));
                push_str(&mut message, "' but never found it?");
                assert(message@ == "ran out of tokens in the stream, looking for '"@ + closer_text(token@)
                    + "' but never found it?"@);
                return Err(ParserError::general(message.as_str()));
            }
            let ghost pool_before = token_pool@;
            let popped_token = token_pool.remove(0);
            proof {
                lemma_token_views(pool_before);
                lemma_token_views(token_pool@);
                assert(token_views(pool_before)[0] == p0[k as int]);
                assert(popped_token@ == p0[k as int]);
                assert(token_views(token_pool@) =~= token_views(pool_before).subrange(1, pool_before.len() as int));
                assert(pool_before.len() == total - k);
                assert(token_views(token_pool@) =~= p0.subrange(k + 1, total as int));
            }
            let ghost level_before = nest_level as int;
            let done = if nesting {
                if popped_token.i().same_token(&token) {
                    nest_level = nest_level - 1;
                } else {
                    if openers.len() == 1 && popped_token.i().same_token(&openers[0]) {
                        nest_level = nest_level + 1;
                    }
                    proof {
                        let set = spec_matching_set(token@);
                        if set.len() == 1 && set[0] == popped_token@->item {
                            assert(set.contains(popped_token@->item));
                        }
                        if set.contains(popped_token@->item) {
                            assert(set.len() == 1 && set[0] == popped_token@->item);
                        }
                    }
                }
                nest_level == 0
            } else {
                popped_token.i().same_token(&token)
            };
            proof {
                if nesting {
                    assert(nest_level == next_level(popped_token@->item, token@, level_before));
                }
                lemma_wrap_non_ws_push(p0, k as int);
            }
            let ghost elements_before = elements@;
            let is_ws = match popped_token.i() {
                Token::WhiteSpace => true,
                _ => false,
            };
            if !is_ws {
                let e = Element::codeelement_from_token(popped_token);
                elements.push(e);
            }
            proof {
                lemma_views(elements_before);
                lemma_views(elements@);
                if !is_ws {
                    assert(views(elements@) =~= views(elements_before).push(crate::element::wrap_token(p0[k as int])));
                } else {
                    assert(p0[k as int]->item is WhiteSpace);
                    assert(views(elements@) =~= views(elements_before));
                }
                assert(views(elements@) =~= s0.push(closing_semicolon(s0)) + wrap_non_ws(p0.subrange(0, k + 1)));
            }
            k = k + 1;
            if done {
                proof {
                    lemma_token_views(token_pool@);
                }
                return Ok(());
            }
        }
    }
}

/// The first token not skipped lies between `k` and the end.
proof fn lemma_first_content_bounds(ts: Seq<TokRef>, k: int)
    requires
        0 <= k <= ts.len(),
    ensures
        k <= first_content(ts, k) <= ts.len(),
    decreases ts.len() - k,
{
    if k < ts.len() && skippable(ts[k]->item) {
        lemma_first_content_bounds(ts, k + 1);
    }
}

/// Wrapping a range of the stream extended by one token.
proof fn lemma_wrap_non_ws_range(ts: Seq<TokRef>, a: int, k: int)
    requires
        0 <= a <= k < ts.len(),
    ensures
        wrap_non_ws(ts.subrange(a, k + 1)) == wrap_non_ws(ts.subrange(a, k)) + if ts[k]->item is WhiteSpace {
            Seq::<ElemRef>::empty()
        } else {
            seq![crate::element::wrap_token(ts[k])]
        },
{
    assert(ts.subrange(a, k + 1).drop_last() =~= ts.subrange(a, k));
}

/// Where a pattern is found, it fits in the run.
proof fn lemma_window_from(p: Window, s: Seq<ElemRef>, i: int)
    ensures
        window_from(p, s, i) matches Some(j) ==> i <= j && 0 <= j && j + width(p) <= s.len(),
    decreases s.len() - i,
{
    if !(i < 0 || i + width(p) > s.len()) && !window_at(p, s, i) {
        lemma_window_from(p, s, i + 1);
    }
}

/// Reducing `exp binop exp` keeps the operands in the order of the code:
/// the new expression stands where the left operand stood, holds the left
/// operand and then the right one, spans from the start of the left operand
/// to the end of the right one, and the rest of the run is untouched.
pub proof fn law_binop_operands_in_order(s: Seq<ElemRef>, i: int)
    requires
        window_from(Window::Binop, s, 0) == Some(i),
    ensures
        rule_window(Window::Binop, s) matches Some(s2) && s2.len() == s.len() - 2
            && s2[i]->item.elements == seq![s[i], s[i + 2]]
            && s2[i]->item.identifiers.len() == 1
            && s2[i]->code_start == s[i]->code_start && s2[i]->code_end == s[i + 2]->code_end
            && s2[i]->line_number == s[i]->line_number
            && s2.subrange(0, i) == s.subrange(0, i)
            && s2.subrange(i + 1, s2.len() as int) == s.subrange(i + 3, s.len() as int),
{
    lemma_window_from(Window::Binop, s, 0);
    let s2 = rule_window(Window::Binop, s)->0;
    assert(s2.subrange(0, i) =~= s.subrange(0, i));
    assert(s2.subrange(i + 1, s2.len() as int) =~= s.subrange(i + 3, s.len() as int));
}

/// The run's elements from `i` up to `j` start in the order of the code.
pub open spec fn starts_in_order(s: Seq<ElemRef>, i: int, j: int) -> bool {
    forall|k: int, l: int|
        i <= k < l < j ==> (#[trigger] s[k])->code_start < (#[trigger] s[l])->code_start
}

/// Every pattern builds an element that spans its window, from the start of
/// its first element to the end of its last, and whose elements are taken
/// from the window in the order of the code: where the window's elements
/// start in order, so do the built element's.
pub proof fn law_window_keeps_code_order(p: Window, s: Seq<ElemRef>, i: int)
    requires
        0 <= i,
        i + width(p) <= s.len(),
        window_at(p, s, i),
    ensures
        window_built(p, s, i)->code_start == s[i]->code_start,
        window_built(p, s, i)->code_end == s[i + width(p) - 1]->code_end,
        forall|k: int|
            0 <= k < window_built(p, s, i)->item.elements.len() ==> exists|m: int|
                i <= m < i + width(p) && #[trigger] window_built(p, s, i)->item.elements[k] == s[m],
        starts_in_order(s, i, i + width(p)) ==> forall|k: int, l: int|
            0 <= k < l < window_built(p, s, i)->item.elements.len() ==> (#[trigger] window_built(
                p,
                s,
                i,
            )->item.elements[k])->code_start < (#[trigger] window_built(
                p,
                s,
                i,
            )->item.elements[l])->code_start,
{
    let e = window_built(p, s, i)->item.elements;
    assert forall|k: int| 0 <= k < e.len() implies exists|m: int|
        i <= m < i + width(p) && #[trigger] e[k] == s[m] by {
        match p {
            Window::DotName | Window::Binop | Window::FieldName | Window::Index => {
                if k == 0 {
                    assert(e[k] == s[i]);
                } else {
                    assert(e[k] == s[i + 2]);
                }
            },
            Window::Unop => {
                assert(e[k] == s[i + 1]);
            },
            Window::Paren => {
                assert(e[k] == s[i + 1]);
            },
            Window::FieldIndex => {
                if k == 0 {
                    assert(e[k] == s[i + 1]);
                } else {
                    assert(e[k] == s[i + 4]);
                }
            },
        }
    }
    if starts_in_order(s, i, i + width(p)) {
        assert forall|k: int, l: int| 0 <= k < l < e.len() implies (#[trigger] e[k])->code_start
            < (#[trigger] e[l])->code_start by {
            match p {
                Window::DotName | Window::Binop | Window::FieldName | Window::Index => {
                    assert(s[i]->code_start < s[i + 2]->code_start);
                },
                Window::FieldIndex => {
                    assert(s[i + 1]->code_start < s[i + 4]->code_start);
                },
                _ => {},
            }
        }
    }
}

/// Reducing a field makes the run shorter.
proof fn lemma_rule_field_shorter(s: Seq<ElemRef>)
    ensures
        rule_field(s) matches Some(r) ==> r.len() < s.len(),
{
    lemma_window_from(Window::FieldIndex, s, 0);
    lemma_window_from(Window::FieldName, s, 0);
}

impl<'a> Parser<'a> {
    /// `{ [fieldlist] }` (see `rule_table`).
    fn process_table_constructor(
        &mut self,
        elements: &mut Vec<CodeElement>,
        token_pool: &mut Vec<CodeToken>,
    ) -> (r: Option<Result<bool, ParserError>>)
        requires
            old(token_pool)@.len() < usize::MAX,
        ensures
            *final(self) == *old(self),
            final(token_pool)@.len() <= old(token_pool)@.len(),
            match rule_table(views(old(elements)@), token_views(old(token_pool)@)) {
                Outcome::Panic => r is None,
                o => r matches Some(rr) && applied(
                    o,
                    rr,
                    views(old(elements)@),
                    views(final(elements)@),
                    token_views(old(token_pool)@),
                    token_views(final(token_pool)@),
                ),
            },
    {
        let ghost s0 = views(elements@);
        let ghost p0 = token_views(token_pool@);
        let n = elements.len();
        proof {
            lemma_views(elements@);
        }
        let mut i: usize = 0;
        while i < n
            invariant
                n == elements@.len(),
                s0 == views(elements@),
                s0 == views(old(elements)@),
                p0 == token_views(token_pool@),
                p0 == token_views(old(token_pool)@),
                s0.len() == n,
                i <= n,
                token_from(s0, TokenView::LeftMoustache, 0) == token_from(s0, TokenView::LeftMoustache, i as int),
                *self == *old(self),
                token_pool@.len() < usize::MAX,
            decreases n - i,
        {
            proof {
                lemma_views(elements@);
            }
            if elements[i].i().matches_token(Token::LeftMoustache) {
                assert(token_from(s0, TokenView::LeftMoustache, i as int) == Some(i as int));
                if elements[n - 1].code_end() == usize::MAX {
                    return None;
                }
                if let Err(e) = self.get_tokens_until_token(elements, token_pool, Token::RightMoustache, true) {
                    return Some(Err(e));
                }
                let ghost s1 = views(elements@);
                let ghost pool1 = token_views(token_pool@);
                assert(rule_until(s0, p0, TokenView::RightMoustache, true) == Outcome::Next(s1, pool1));
                let mut going = true;
                while going
                    invariant
                        fields_reduced(s1) == if going {
                            fields_reduced(views(elements@))
                        } else {
                            views(elements@)
                        },
                    decreases elements@.len(), if going { 1int } else { 0int },
                {
                    let ghost before = views(elements@);
                    proof {
                        lemma_rule_field_shorter(before);
                    }
                    match Parser::process_field(elements) {
                        Err(e) => {
                            return Some(Err(e));
                        },
                        Ok(true) => {
                            proof {
                                lemma_views(elements@);
                            }
                        },
                        Ok(false) => {
                            going = false;
                        },
                    }
                }
                let ghost s2 = views(elements@);
                assert(s2 == fields_reduced(s1));
                if let Err(e) = Parser::process_field_list(elements) {
                    return Some(Err(e));
                }
                proof {
                    lemma_views(elements@);
                    assert(views(elements@) == match crate::parsespec::rule_list(ListKind::Field, s2) {
                        Some(r) => r,
                        None => s2,
                    });
                }
                if elements.len() < i {
                    return None;
                }
                if elements.len() - i != 3 {
                    return Some(Err(ParserError::general("error processing table constructor, errr!")));
                }
                let ghost s3 = elements@;
                let left = elements.remove(i);
                let fields = elements.remove(i);
                let last = elements.len() - 1;
                let right = elements.remove(last);
                let code_start = left.code_start();
                let code_end = right.code_end();
                let line_number = left.line_number();
                proof {
                    lemma_views_small(left, right, right);
                    lemma_views_small(fields, fields, fields);
                }
                let new = match build(two(left, right), one(fields), code_start, code_end, line_number) {
                    Ok(new) => new,
                    Err(e) => {
                        return Some(Err(e));
                    },
                };
                let ghost before = elements@;
                elements.insert(i, new);
                proof {
                    lemma_views(s3);
                    lemma_views(before);
                    lemma_views(elements@);
                    assert(before =~= s3.subrange(0, i as int));
                    assert(views(elements@) =~= views(s3).subrange(0, i as int) + seq![new@]);
                }
                return Some(Ok(true));
            }
            assert(token_from(s0, TokenView::LeftMoustache, i as int) == token_from(s0, TokenView::LeftMoustache, i + 1));
            i = i + 1;
        }
        assert(token_from(s0, TokenView::LeftMoustache, i as int) is None);
        Some(Ok(false))
    }
}

impl<'a> Parser<'a> {
    /// One round: the first rule, in order, that applies (see `parse_step`);
    /// `None` where that rule would panic.
    fn parse_one(&mut self, elements: &mut Vec<CodeElement>, token_pool: &mut Vec<CodeToken>) -> (r:
        Option<Result<bool, ParserError>>)
        requires
            old(token_pool)@.len() < usize::MAX,
        ensures
            *final(self) == *old(self),
            final(token_pool)@.len() <= old(token_pool)@.len(),
            match parse_step(views(old(elements)@), token_views(old(token_pool)@)) {
                Outcome::Panic => r is None,
                o => r matches Some(rr) && applied(
                    o,
                    rr,
                    views(old(elements)@),
                    views(final(elements)@),
                    token_views(old(token_pool)@),
                    token_views(final(token_pool)@),
                ),
            },
    {
        proof {
            lemma_views(elements@);
        }
        if elements.len() == 2 && elements[0].i().matches_token(Token::Minus) {
            return None;
        }
        match Parser::process_comment(elements) {
            Ok(false) => {},
            other => {
                return Some(other);
            },
        }
        match Parser::process_statement_assignment(elements) {
            Ok(false) => {},
            other => {
                return Some(other);
            },
        }
        match Parser::process_statement_local_assignment(elements) {
            Ok(false) => {},
            other => {
                return Some(other);
            },
        }
        match Parser::process_last_statement(elements) {
            Ok(false) => {},
            other => {
                return Some(other);
            },
        }
        match Parser::process_var_list(elements) {
            Ok(false) => {},
            other => {
                return Some(other);
            },
        }
        match Parser::process_var(elements) {
            Ok(false) => {},
            other => {
                return Some(other);
            },
        }
        match Parser::process_name_list(elements) {
            Ok(false) => {},
            other => {
                return Some(other);
            },
        }
        match Parser::process_binop(elements) {
            Ok(false) => {},
            other => {
                return Some(other);
            },
        }
        match Parser::process_unop(elements) {
            Ok(false) => {},
            other => {
                return Some(other);
            },
        }
        match Parser::process_exp_list(elements) {
            Ok(false) => {},
            other => {
                return Some(other);
            },
        }
        match Parser::process_prefix_exp(elements) {
            Ok(false) => {},
            other => {
                return Some(other);
            },
        }
        self.process_table_constructor(elements, token_pool)
    }

    /// Applies the rules to the statement until none applies (see
    /// `parse_outcome`).
    fn parse(&mut self, elements: &mut Vec<CodeElement>, token_pool: &mut Vec<CodeToken>) -> (r:
        Result<(), ParserError>)
        requires
            parse_ends(views(old(elements)@), token_views(old(token_pool)@)),
            old(token_pool)@.len() < usize::MAX,
        ensures
            *final(self) == *old(self),
            final(token_pool)@.len() <= old(token_pool)@.len(),
            match parse_outcome(views(old(elements)@), token_views(old(token_pool)@)) {
                Ok((s, p)) => r is Ok && views(final(elements)@) == s && token_views(final(token_pool)@) == p,
                Err(f) => r matches Err(e) && fault_is(e, f),
            },
    {
        let ghost s0 = views(elements@);
        let ghost p0 = token_views(token_pool@);
        let ghost mut fuel: nat = choose|fuel: nat| (#[trigger] parse_run(s0, p0, fuel)) is Some;
        proof {
            lemma_parse_outcome(s0, p0, fuel);
        }
        loop
            invariant
                *self == *old(self),
                parse_run(views(elements@), token_views(token_pool@), fuel) == Some(parse_outcome(s0, p0)),
                s0 == views(old(elements)@),
                p0 == token_views(old(token_pool)@),
                token_pool@.len() <= old(token_pool)@.len(),
                old(token_pool)@.len() < usize::MAX,
            decreases fuel,
        {
            let ghost s = views(elements@);
            let ghost p = token_views(token_pool@);
            assert(fuel > 0);
            assert(!(parse_step(s, p) is Panic));
            match self.parse_one(elements, token_pool) {
                Some(Ok(true)) => {},
                Some(Ok(false)) => {
                    return Ok(());
                },
                Some(Err(e)) => {
                    return Err(e);
                },
                None => {
                    assert(false);
                    return Ok(());
                },
            }
            proof {
                fuel = (fuel - 1) as nat;
            }
        }
    }
}

impl<'a> Parser<'a> {
    /// Applies the rules to the statement for at most `rounds` rounds (see
    /// `parse_run`): `None` when that is not enough, or a rule would panic.
    fn parse_within(
        &mut self,
        elements: &mut Vec<CodeElement>,
        token_pool: &mut Vec<CodeToken>,
        rounds: usize,
    ) -> (r: Option<Result<(), ParserError>>)
        requires
            old(token_pool)@.len() < usize::MAX,
        ensures
            *final(self) == *old(self),
            final(token_pool)@.len() <= old(token_pool)@.len(),
            match parse_run(views(old(elements)@), token_views(old(token_pool)@), rounds as nat) {
                None => r is None,
                Some(Ok((s, p))) => r matches Some(Ok(())) && views(final(elements)@) == s
                    && token_views(final(token_pool)@) == p,
                Some(Err(f)) => r matches Some(Err(e)) && fault_is(e, f),
            },
    {
        let ghost s0 = views(elements@);
        let ghost p0 = token_views(token_pool@);
        let mut left = rounds;
        loop
            invariant
                *self == *old(self),
                parse_run(views(elements@), token_views(token_pool@), left as nat) == parse_run(
                    s0,
                    p0,
                    rounds as nat,
                ),
                s0 == views(old(elements)@),
                p0 == token_views(old(token_pool)@),
                token_pool@.len() <= old(token_pool)@.len(),
                old(token_pool)@.len() < usize::MAX,
            decreases left,
        {
            if left == 0 {
                return None;
            }
            match self.parse_one(elements, token_pool) {
                Some(Ok(true)) => {},
                Some(Ok(false)) => {
                    return Some(Ok(()));
                },
                Some(Err(e)) => {
                    return Some(Err(e));
                },
                None => {
                    return None;
                },
            }
            left = left - 1;
        }
    }
}

/// Where no element before `i` fails to be a statement, all of them from
/// `i` on (but the last) are statements.
proof fn lemma_first_non_statement(w: Seq<ElemRef>, i: int)
    requires
        0 <= i,
        first_non_statement(w, i) is None,
    ensures
        forall|j: int| i <= j < w.len() - 1 ==> (#[trigger] w[j])->item.is_statement(),
    decreases w.len() - i,
{
    if i < w.len() - 1 {
        lemma_first_non_statement(w, i + 1);
    }
}

/// A block that the statements make up is a block of the grammar.
pub proof fn lemma_block_is_block(w: Seq<ElemRef>, b: ElemRef)
    requires
        block_outcome(w) == Some(Ok::<ElemRef, ParseFault>(b)),
    ensures
        b->item.is_block(),
{
    lemma_first_non_statement(w, 0);
    assert(b->item.elements == w);
    assert(b->item.identifiers =~= Seq::<TokRef>::empty());
    assert(b->item.is_chunk());
}

impl<'a> Parser<'a> {
    /// The next statement of the stream (see `next_statement`).
    fn get_next_statement(tokens: &mut Vec<CodeToken>) -> (r: Option<Vec<CodeElement>>)
        ensures
            (match r {
                Some(v) => Some(views(v@)),
                None => None,
            }, token_views(final(tokens)@)) == next_statement(token_views(old(tokens)@)),
            final(tokens)@.len() <= old(tokens)@.len(),
    {
        let ghost p0 = token_views(tokens@);
        let ghost n = p0.len() as int;
        let ghost fc = first_content(p0, 0);
        let mut phrase: Vec<CodeElement> = Vec::new();
        let ghost mut k: int = 0;
        proof {
            lemma_token_views(tokens@);
            assert(token_views(tokens@) =~= p0.subrange(0, n));
            lemma_first_content_bounds(p0, 0);
        }
        loop
            invariant_except_break
                token_views(tokens@) == p0.subrange(k, n),
                phrase@.len() == 0 ==> first_content(p0, 0) == first_content(p0, k),
                phrase@.len() > 0 ==> fc < k && first_separator(p0, fc) == first_separator(p0, k)
                    && views(phrase@) == wrap_non_ws(p0.subrange(fc, k)),
            invariant
                0 <= k <= n,
                0 <= fc <= n,
                tokens@.len() <= n,
                n == old(tokens)@.len(),
                n == p0.len(),
                p0 == token_views(old(tokens)@),
                fc == first_content(p0, 0),
            ensures
                (if phrase@.len() == 0 {
                    None
                } else {
                    Some(views(phrase@))
                }, token_views(tokens@)) == next_statement(p0),
            decreases n - k,
        {
            proof {
                lemma_token_views(tokens@);
            }
            if tokens.len() == 0 {
                proof {
                    assert(k == n);
                    if phrase@.len() > 0 {
                        assert(p0.subrange(fc, k) =~= p0.subrange(fc, n));
                    }
                    assert(token_views(tokens@) =~= Seq::<TokRef>::empty());
                }
                break;
            }
            let ghost before = tokens@;
            let token = tokens.remove(0);
            proof {
                lemma_token_views(before);
                lemma_token_views(tokens@);
                assert(token_views(before)[0] == p0[k]);
                assert(token@ == p0[k]);
                assert(token_views(tokens@) =~= token_views(before).subrange(1, before.len() as int));
                assert(before.len() == n - k);
                assert(token_views(tokens@) =~= p0.subrange(k + 1, n));
            }
            let is_sep = match token.i() {
                Token::EOL | Token::SemiColon => true,
                _ => false,
            };
            let is_ws = match token.i() {
                Token::WhiteSpace => true,
                _ => false,
            };
            assert(is_sep == separator(p0[k]->item));
            assert((is_sep || is_ws) == skippable(p0[k]->item));
            if is_sep && phrase.len() > 0 {
                proof {
                    assert(first_separator(p0, k) == k);
                    k = k + 1;
                }
                assert((if phrase@.len() == 0 {
                    None
                } else {
                    Some(views(phrase@))
                }, token_views(tokens@)) == next_statement(p0));
                break;
            } else if is_sep || is_ws {
                proof {
                    if phrase@.len() > 0 {
                        lemma_wrap_non_ws_push(p0, k);
                        assert(p0.subrange(fc, k + 1) =~= p0.subrange(0, k + 1).subrange(fc, k + 1));
                        lemma_wrap_non_ws_range(p0, fc, k);
                    }
                    k = k + 1;
                }
            } else {
                let ghost phrase_before = phrase@;
                let e = Element::codeelement_from_token(token);
                phrase.push(e);
                proof {
                    lemma_views(phrase_before);
                    lemma_views(phrase@);
                    if phrase_before.len() == 0 {
                        assert(first_content(p0, k) == k);
                        assert(fc == k);
                        lemma_wrap_non_ws_range(p0, fc, k);
                        assert(p0.subrange(fc, fc) =~= Seq::<TokRef>::empty());
                        assert(views(phrase@) =~= wrap_non_ws(p0.subrange(fc, k + 1)));
                    } else {
                        lemma_wrap_non_ws_range(p0, fc, k);
                        assert(views(phrase@) =~= wrap_non_ws(p0.subrange(fc, k + 1)));
                    }
                    k = k + 1;
                }
            }
        }
        proof {
            lemma_views(phrase@);
        }
        if phrase.len() == 0 {
            None
        } else {
            Some(phrase)
        }
    }
}

impl<'a> Parser<'a> {
    /// Builds the block out of the statements (see `block_outcome`).
    fn process_block(&self, working_phrase: Vec<CodeElement>) -> (r: Result<CodeElement, ParserError>)
        requires
            block_outcome(views(working_phrase@)) is Some,
        ensures
            match block_outcome(views(working_phrase@)) {
                Some(Ok(b)) => r matches Ok(e) && e@ == b,
                Some(Err(f)) => r matches Err(e) && fault_from(e, f, self.raw_code@, self.file_name@),
                None => false,
            },
    {
        let ghost w = views(working_phrase@);
        proof {
            lemma_views(working_phrase@);
        }
        if working_phrase.len() == 0 {
            return Err(ParserError::general("parser found empty `working_phrase`?"));
        }
        let n = working_phrase.len();
        let mut i: usize = 0;
        while i < n - 1
            invariant
                n == working_phrase@.len(),
                n > 0,
                w == views(working_phrase@),
                i <= n - 1,
                first_non_statement(w, 0) == first_non_statement(w, i as int),
                block_outcome(w) is Some,
            decreases n - 1 - i,
        {
            proof {
                lemma_views(working_phrase@);
            }
            if !working_phrase[i].i().is_statement() {
                assert(first_non_statement(w, i as int) == Some(i as int));
                return Err(
                    ParserError::not_a_statement(
                        &self,
                        working_phrase[i].line_number(),
                        working_phrase[i].code_start(),
                        working_phrase[i].code_end(),
                    ),
                );
            }
            i = i + 1;
        }
        assert(first_non_statement(w, i as int) is None);
        if !(working_phrase[n - 1].i().is_statement() || working_phrase[n - 1].i().is_last_statement()) {
            let pos = n - 1;
            return Err(
                ParserError::not_a_statement(
                    &self,
                    working_phrase[pos].line_number(),
                    working_phrase[pos].code_start(),
                    working_phrase[pos].code_end(),
                ),
            );
        }
        let code_start: usize = working_phrase[0].code_start();
        let line_number: usize = working_phrase[0].line_number();
        let code_end: usize = working_phrase[n - 1].code_end();
        proof {
            assert(views(Seq::<CodeElement>::empty()) =~= Seq::<ElemRef>::empty());
        }
        build(Vec::new(), working_phrase, code_start, code_end, line_number)
    }

    /// Building the block of these statements would panic (see
    /// `block_outcome`).
    fn block_halts(working_phrase: &Vec<CodeElement>) -> (r: bool)
        ensures
            r == (block_outcome(views(working_phrase@)) is None),
    {
        let ghost w = views(working_phrase@);
        proof {
            lemma_views(working_phrase@);
        }
        let n = working_phrase.len();
        if n == 0 {
            return false;
        }
        let mut i: usize = 0;
        while i < n - 1
            invariant
                n == working_phrase@.len(),
                n > 0,
                w == views(working_phrase@),
                i <= n - 1,
                first_non_statement(w, 0) == first_non_statement(w, i as int),
            decreases n - 1 - i,
        {
            proof {
                lemma_views(working_phrase@);
            }
            if !working_phrase[i].i().is_statement() {
                assert(first_non_statement(w, i as int) == Some(i as int));
                return working_phrase[i].code_end() < working_phrase[i].code_start();
            }
            i = i + 1;
        }
        assert(first_non_statement(w, i as int) is None);
        if !(working_phrase[n - 1].i().is_statement() || working_phrase[n - 1].i().is_last_statement()) {
            return working_phrase[n - 1].code_end() < working_phrase[n - 1].code_start();
        }
        false
    }

    /// Reads the stream statement by statement and builds the block, with
    /// the bound `rounds` on the statements and on the rounds of each (see
    /// `parser_within`): `None` when that is not enough, or something would
    /// panic.
    fn process_within(&mut self, tokens: Vec<CodeToken>, rounds: usize) -> (r: Option<
        Result<CodeElement, ParserError>,
    >)
        requires
            tokens@.len() < usize::MAX,
        ensures
            *final(self) == *old(self),
            match parser_within(token_views(tokens@), rounds as nat) {
                None => r is None,
                Some(Ok(b)) => r matches Some(Ok(e)) && e@ == b,
                Some(Err(f)) => r matches Some(Err(e)) && fault_from(e, f, old(self).raw_code@, old(self).file_name@),
            },
    {
        let ghost p0 = token_views(tokens@);
        let mut stream = tokens;
        let mut working_phrase: Vec<CodeElement> = Vec::new();
        let mut left = rounds;
        proof {
            lemma_views(working_phrase@);
            assert(views(working_phrase@) =~= Seq::<ElemRef>::empty());
        }
        loop
            invariant
                *self == *old(self),
                process_within(token_views(stream@), views(working_phrase@), left as nat)
                    == process_within(p0, Seq::empty(), rounds as nat),
                p0 == token_views(tokens@),
                stream@.len() < usize::MAX,
            ensures
                process_within(p0, Seq::empty(), rounds as nat) == Some(
                    Ok::<Seq<ElemRef>, ParseFault>(views(working_phrase@)),
                ),
            decreases left,
        {
            if left == 0 {
                return None;
            }
            match Parser::get_next_statement(&mut stream) {
                None => {
                    break;
                },
                Some(mut statement) => {
                    proof {
                        lemma_token_views(stream@);
                    }
                    proof {
                        crate::parsespec::lemma_parse_run_general(
                            views(statement@),
                            token_views(stream@),
                            left as nat,
                        );
                    }
                    match self.parse_within(&mut statement, &mut stream, left) {
                        None => {
                            return None;
                        },
                        Some(Err(e)) => {
                            return Some(Err(e));
                        },
                        Some(Ok(())) => {},
                    }
                    proof {
                        lemma_views(statement@);
                    }
                    if statement.len() == 1 {
                        let ghost wb = working_phrase@;
                        let ghost acc = views(working_phrase@);
                        working_phrase.push(statement.remove(0));
                        proof {
                            lemma_views(wb);
                            lemma_views(working_phrase@);
                            assert(views(working_phrase@) =~= acc.push(views(statement@.insert(0, working_phrase@[wb.len() as int]))[0]));
                        }
                    } else if statement.len() == 0 {
                        return Some(Err(ParserError::general("parser found an empty statement?")));
                    } else {
                        let last = statement.len() - 1;
                        if statement[last].code_end() < statement[0].code_start() {
                            return None;
                        }
                        return Some(
                            Err(
                                ParserError::not_a_statement(
                                    &*self,
                                    statement[0].line_number(),
                                    statement[0].code_start(),
                                    statement[last].code_end(),
                                ),
                            ),
                        );
                    }
                },
            }
            left = left - 1;
        }
        if Parser::block_halts(&working_phrase) {
            return None;
        }
        Some(self.process_block(working_phrase))
    }

    /// Reads the stream statement by statement, then builds the block (see
    /// `parser_outcome`).
    fn process(&mut self, tokens: Vec<CodeToken>) -> (r: Result<CodeElement, ParserError>)
        requires
            parser_ends(token_views(tokens@)),
            tokens@.len() < usize::MAX,
        ensures
            *final(self) == *old(self),
            match parser_outcome(token_views(tokens@)) {
                Ok(b) => r matches Ok(e) && e@ == b,
                Err(f) => r matches Err(e) && fault_from(e, f, old(self).raw_code@, old(self).file_name@),
            },
    {
        let ghost p0 = token_views(tokens@);
        let mut stream = tokens;
        let mut working_phrase: Vec<CodeElement> = Vec::new();
        let ghost mut fuel: nat = choose|fuel: nat| (#[trigger] process_run(p0, Seq::empty(), fuel)) is Some;
        proof {
            lemma_process_outcome(p0, fuel);
            lemma_views(working_phrase@);
            assert(views(working_phrase@) =~= Seq::<ElemRef>::empty());
        }
        loop
            invariant
                *self == *old(self),
                process_run(token_views(stream@), views(working_phrase@), fuel) == Some(process_outcome(p0)),
                parser_ends(p0),
                p0 == token_views(tokens@),
                stream@.len() < usize::MAX,
            ensures
                process_outcome(p0) == Ok::<Seq<ElemRef>, ParseFault>(views(working_phrase@)),
            decreases fuel,
        {
            let ghost pool = token_views(stream@);
            let ghost acc = views(working_phrase@);
            assert(fuel > 0);
            let ghost before_len = stream@.len();
            match Parser::get_next_statement(&mut stream) {
                None => {
                    break;
                },
                Some(mut statement) => {
                    proof {
                        lemma_token_views(stream@);
                    }
                    assert(stream@.len() < usize::MAX);
                    proof {
                        let st = views(statement@);
                        let rest = token_views(stream@);
                        let g = choose|fuel: nat| (#[trigger] parse_run(st, rest, fuel)) is Some;
                        crate::parsespec::lemma_parse_run_general(st, rest, g);
                    }
                    self.parse(&mut statement, &mut stream)?;
                    proof {
                        lemma_views(statement@);
                    }
                    if statement.len() == 1 {
                        let ghost wb = working_phrase@;
                        working_phrase.push(statement.remove(0));
                        proof {
                            lemma_views(wb);
                            lemma_views(working_phrase@);
                            assert(views(working_phrase@) =~= acc.push(views(statement@.insert(0, working_phrase@[wb.len() as int]))[0]));
                            fuel = (fuel - 1) as nat;
                        }
                    } else if statement.len() == 0 {
                        return Err(ParserError::general("parser found an empty statement?"));
                    } else {
                        let last = statement.len() - 1;
                        return Err(
                            ParserError::not_a_statement(
                                &*self,
                                statement[0].line_number(),
                                statement[0].code_start(),
                                statement[last].code_end(),
                            ),
                        );
                    }
                },
            }
        }
        self.process_block(working_phrase)
    }

    /// Parses the scanner's tokens into one block. The file name and the
    /// code are the scanner's. The stream must be one that parsing brings
    /// to an end without panicking; `from_scanner_within` takes any stream.
    pub fn from_scanner(scanner: Scanner<'a>) -> (r: Result<Parser<'a>, ParserError>)
        requires
            parser_ends(scanner.spec_tokens()),
            scanner.spec_tokens().len() < usize::MAX,
        ensures
            match parser_outcome(scanner.spec_tokens()) {
                Ok(b) => r matches Ok(p) && p.blocks matches Some(e) && e@ == b && p.file_name@
                    == scanner.spec_file_name() && p.raw_code@ == scanner.spec_raw_code(),
                Err(f) => r matches Err(e) && fault_from(e, f, scanner.spec_raw_code(), scanner.spec_file_name()),
            },
            r matches Ok(p) ==> p.blocks matches Some(e) && e@->item.is_block(),
    {
        let (file_name, raw_code, tokens) = scanner.into_parts();
        proof {
            lemma_token_views(tokens@);
        }
        let mut parser = Parser { file_name, raw_code, blocks: None };
        let blocks = parser.process(tokens)?;
        proof {
            let w = process_outcome(scanner.spec_tokens());
            if let Ok(w) = w {
                lemma_block_is_block(w, blocks@);
            }
        }
        parser.blocks = Some(blocks);
        Ok(parser)
    }

    /// Parses the scanner's tokens into one block, as `from_scanner`, with
    /// the bound `rounds` on the statements and on the rounds spent on each:
    /// `None` when that is not enough, or the tokens are such that parsing
    /// them would panic. Every stream that `from_scanner` can parse is parsed
    /// here for some bound (see `law_parser_ends_within`).
    pub fn from_scanner_within(scanner: Scanner<'a>, rounds: usize) -> (r: Option<
        Result<Parser<'a>, ParserError>,
    >)
        requires
            scanner.spec_tokens().len() < usize::MAX,
        ensures
            match parser_within(scanner.spec_tokens(), rounds as nat) {
                None => r is None,
                Some(Ok(b)) => r matches Some(Ok(p)) && p.blocks matches Some(e) && e@ == b
                    && p.file_name@ == scanner.spec_file_name() && p.raw_code@
                    == scanner.spec_raw_code(),
                Some(Err(f)) => r matches Some(Err(e)) && fault_from(
                    e,
                    f,
                    scanner.spec_raw_code(),
                    scanner.spec_file_name(),
                ),
            },
            r is Some ==> parser_ends(scanner.spec_tokens()) && parser_within(
                scanner.spec_tokens(),
                rounds as nat,
            ) == Some(parser_outcome(scanner.spec_tokens())),
            r matches Some(Ok(p)) ==> p.blocks matches Some(e) && e@->item.is_block(),
    {
        let (file_name, raw_code, tokens) = scanner.into_parts();
        proof {
            lemma_token_views(tokens@);
        }
        let mut parser = Parser { file_name, raw_code, blocks: None };
        let blocks = match parser.process_within(tokens, rounds) {
            None => {
                return None;
            },
            Some(Err(e)) => {
                proof {
                    lemma_within_outcome(scanner.spec_tokens(), rounds as nat);
                }
                return Some(Err(e));
            },
            Some(Ok(b)) => b,
        };
        proof {
            lemma_within_outcome(scanner.spec_tokens(), rounds as nat);
            let w = process_outcome(scanner.spec_tokens());
            if let Ok(w) = w {
                lemma_block_is_block(w, blocks@);
            }
        }
        parser.blocks = Some(blocks);
        Some(Ok(parser))
    }
}

} // verus!
