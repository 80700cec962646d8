//! A one-pass grammar over syntax elements of its own: names become
//! variables, literal tokens and operators become expressions, commas join
//! variables and expressions into lists, `varlist = explist` becomes an
//! assignment and a run of statements becomes a chunk.

use vstd::prelude::*;
use crate::codewrap::{CodeWrap, CodeWrappable};
use crate::token::{Token, TokenView, spec_is_binop, spec_is_unop, spec_same_type};
use crate::syntaxerror::{SyntaxError, is_general, span_fits};
use crate::token::spec_token_text;
use crate::text::push_str;

verus! {

/// A piece of the grammar.
pub enum SyntaxElement {
    /// A token, as it came.
    Token(Token),
    Block(Box<SyntaxElement>),
    Chunk(Vec<Box<SyntaxElement>>),
    Var(Box<SyntaxElement>),
    VarList(Vec<Box<SyntaxElement>>),
    NameList(Vec<Box<SyntaxElement>>),
    Exp(Box<SyntaxElement>),
    ExpList(Vec<Box<SyntaxElement>>),
    /// Left expression, operator, right expression.
    Binop(Box<SyntaxElement>, Box<SyntaxElement>, Box<SyntaxElement>),
    /// Operator, expression.
    Unop(Box<SyntaxElement>, Box<SyntaxElement>),
    /// Variables, expressions.
    StatementAssign(Box<SyntaxElement>, Box<SyntaxElement>),
    LastStatReturn(Option<Box<SyntaxElement>>),
    LastStat,
}

impl CodeWrappable for SyntaxElement {}

/// A syntax element with the span of code it was made from.
pub type Wrapped = CodeWrap<SyntaxElement>;

/// The element in the run at `i`.
pub open spec fn at(s: Seq<Wrapped>, i: int) -> SyntaxElement {
    *s[i].spec_item()
}

/// The element is a token of the given kind and text.
pub open spec fn is_token(e: SyntaxElement, t: TokenView) -> bool {
    e matches SyntaxElement::Token(tok) && tok@ == t
}

/// The element is a statement: an assignment.
pub open spec fn spec_is_statement(e: SyntaxElement) -> bool {
    e is StatementAssign
}

/// The element is a last statement: a `return` or a `break`.
pub open spec fn spec_is_last_statement(e: SyntaxElement) -> bool {
    e is LastStatReturn || e is LastStat
}

/// The run with the `w` elements from `i` replaced by `new`.
pub open spec fn spliced(s: Seq<Wrapped>, i: int, w: int, new: Wrapped) -> Seq<Wrapped> {
    s.subrange(0, i) + seq![new] + s.subrange(i + w, s.len() as int)
}

/// The error at `i` of the run: a general error over its span.
pub open spec fn error_at(e: SyntaxError, s: Seq<Wrapped>, i: int, description: Seq<char>) -> bool {
    is_general(e, s[i].spec_start() as int, s[i].spec_end() as int, description)
}

/// The element at `i` has a span that a general error can cover.
pub open spec fn span_fits_at(s: Seq<Wrapped>, i: int) -> bool {
    span_fits(s[i].spec_start() as int, s[i].spec_end() as int)
}

/// How an element is shown: tokens as they are written, operations in
/// prefix form in parentheses, lists tagged with their kind, a chunk one
/// statement to a line.
pub open spec fn display(e: SyntaxElement) -> Seq<char>
    decreases e, 1int, 0int,
{
    match e {
        SyntaxElement::Token(t) => spec_token_text(t@),
        SyntaxElement::Binop(left, op, right) => "("@ + display(*op) + " "@ + display(*left) + " "@
            + display(*right) + ")"@,
        SyntaxElement::Unop(op, exp) => "("@ + display(*op) + " "@ + display(*exp) + ")"@,
        SyntaxElement::Var(item) => display(*item),
        SyntaxElement::VarList(list) => "<Var "@ + display_list(e, list@.len() as int, ", "@) + ">"@,
        SyntaxElement::NameList(list) => "<Name "@ + display_list(e, list@.len() as int, ", "@) + ">"@,
        SyntaxElement::Exp(item) => display(*item),
        SyntaxElement::ExpList(list) => "<Exp "@ + display_list(e, list@.len() as int, ", "@) + ">"@,
        SyntaxElement::StatementAssign(left, right) => "(= "@ + display(*left) + " "@ + display(*right)
            + ")"@,
        SyntaxElement::Block(chunk) => display(*chunk),
        SyntaxElement::Chunk(statements) => display_list(e, statements@.len() as int, "\n"@),
        _ => "SyntaxElement not defined!!"@,
    }
}

/// The first `n` items of the element's list, each followed by the
/// divider.
pub open spec fn display_list(e: SyntaxElement, n: int, divider: Seq<char>) -> Seq<char>
    decreases e, 0int, n,
{
    match e {
        SyntaxElement::VarList(l) | SyntaxElement::NameList(l) | SyntaxElement::ExpList(l)
        | SyntaxElement::Chunk(l) => if n <= 0 || n > l@.len() {
            Seq::empty()
        } else {
            display_list(e, n - 1, divider) + display(*l@[n - 1]) + divider
        },
        _ => Seq::empty(),
    }
}

impl SyntaxElement {
    /// How the element is shown (see `display`).
    pub fn to_display_string(&self) -> (r: String)
        ensures
            r@ == display(*self),
        decreases self, 1int, 0int,
    {
        let mut s = String::new();
        match self {
            SyntaxElement::Token(token) => {
                return token.text();
            },
            SyntaxElement::Binop(left, op, right) => {
                push_str(&mut s, "(");
                push_str(&mut s, op.to_display_string().as_str());
                push_str(&mut s, " ");
                push_str(&mut s, left.to_display_string().as_str());
                push_str(&mut s, " ");
                push_str(&mut s, right.to_display_string().as_str());
                push_str(&mut s, ")");
            },
            SyntaxElement::Unop(op, exp) => {
                push_str(&mut s, "(");
                push_str(&mut s, op.to_display_string().as_str());
                push_str(&mut s, " ");
                push_str(&mut s, exp.to_display_string().as_str());
                push_str(&mut s, ")");
            },
            SyntaxElement::Var(item) | SyntaxElement::Exp(item) | SyntaxElement::Block(item) => {
                return item.to_display_string();
            },
            SyntaxElement::VarList(_) => {
                push_str(&mut s, "<Var ");
                push_str(&mut s, self.list_to_string(", ").as_str());
                push_str(&mut s, ">");
            },
            SyntaxElement::NameList(_) => {
                push_str(&mut s, "<Name ");
                push_str(&mut s, self.list_to_string(", ").as_str());
                push_str(&mut s, ">");
            },
            SyntaxElement::ExpList(_) => {
                push_str(&mut s, "<Exp ");
                push_str(&mut s, self.list_to_string(", ").as_str());
                push_str(&mut s, ">");
            },
            SyntaxElement::StatementAssign(left, right) => {
                push_str(&mut s, "(= ");
                push_str(&mut s, left.to_display_string().as_str());
                push_str(&mut s, " ");
                push_str(&mut s, right.to_display_string().as_str());
                push_str(&mut s, ")");
            },
            SyntaxElement::Chunk(_) => {
                return self.list_to_string("\n");
            },
            _ => {
                push_str(&mut s, "SyntaxElement not defined!!");
            },
        }
        s
    }

    /// The items of the element's list, each followed by the divider.
    fn list_to_string(&self, divider: &str) -> (r: String)
        ensures
            r@ == display_list(*self, match *self {
                SyntaxElement::VarList(l) | SyntaxElement::NameList(l) | SyntaxElement::ExpList(l)
                | SyntaxElement::Chunk(l) => l@.len() as int,
                _ => 0int,
            }, divider@),
        decreases self, 0int, 0int,
    {
        let mut string = String::new();
        match self {
            SyntaxElement::VarList(list) | SyntaxElement::NameList(list) | SyntaxElement::ExpList(list)
            | SyntaxElement::Chunk(list) => {
                let mut i: usize = 0;
                while i < list.len()
                    invariant
                        i <= list@.len(),
                        string@ == display_list(*self, i as int, divider@),
                        match *self {
                            SyntaxElement::VarList(l) | SyntaxElement::NameList(l)
                            | SyntaxElement::ExpList(l) | SyntaxElement::Chunk(l) => l == *list,
                            _ => false,
                        },
                    decreases list@.len() - i,
                {
                    push_str(&mut string, list[i].to_display_string().as_str());
                    push_str(&mut string, divider);
                    i = i + 1;
                }
            },
            _ => {},
        }
        string
    }

    fn is_exp(&self) -> (r: bool)
        ensures
            r == (*self is Exp),
    {
        match self {
            SyntaxElement::Exp(_) => true,
            _ => false,
        }
    }

    fn is_exp_list(&self) -> (r: bool)
        ensures
            r == (*self is ExpList),
    {
        match self {
            SyntaxElement::ExpList(_) => true,
            _ => false,
        }
    }

    fn is_var_list(&self) -> (r: bool)
        ensures
            r == (*self is VarList),
    {
        match self {
            SyntaxElement::VarList(_) => true,
            _ => false,
        }
    }

    fn is_statement(&self) -> (r: bool)
        ensures
            r == spec_is_statement(*self),
    {
        match self {
            SyntaxElement::StatementAssign(_, _) => true,
            _ => false,
        }
    }

    fn is_last_statement(&self) -> (r: bool)
        ensures
            r == spec_is_last_statement(*self),
    {
        match self {
            SyntaxElement::LastStatReturn(_) | SyntaxElement::LastStat => true,
            _ => false,
        }
    }

    fn is_token_of(&self, t: &Token) -> (r: bool)
        ensures
            r == is_token(*self, t@),
    {
        match self {
            SyntaxElement::Token(tok) => tok.same_token(t),
            _ => false,
        }
    }
}

// ---- chunks ------------------------------------------------------------------

/// The first place before the last element holding something that is not
/// a statement.
pub open spec fn first_non_statement(s: Seq<Wrapped>, i: int) -> Option<int>
    decreases s.len() - i,
{
    if i < 0 || i >= s.len() - 1 {
        None
    } else if !spec_is_statement(at(s, i)) {
        Some(i)
    } else {
        first_non_statement(s, i + 1)
    }
}

/// Where a chunk cannot be made of the run: the first element before the
/// last that is no statement, or else the last element where it is
/// neither a statement nor a last statement.
pub open spec fn chunk_fault(s: Seq<Wrapped>) -> Option<int> {
    match first_non_statement(s, 0) {
        Some(i) => Some(i),
        None => if spec_is_statement(at(s, s.len() - 1)) || spec_is_last_statement(
            at(s, s.len() - 1),
        ) {
            None
        } else {
            Some(s.len() - 1)
        },
    }
}

/// The chunk holds exactly the elements of the run, in order, and spans
/// from the first one's start to the last one's end (0 for a run of one).
pub open spec fn is_chunk_of(w: Wrapped, s: Seq<Wrapped>) -> bool {
    &&& w.spec_start() == s[0].spec_start()
    &&& w.spec_end() == if s.len() > 1 {
        s[s.len() - 1].spec_end()
    } else {
        0usize
    }
    &&& match *w.spec_item() {
        SyntaxElement::Chunk(list) => list@.len() == s.len() && forall|k: int|
            0 <= k < s.len() ==> *(#[trigger] list@[k]) == at(s, k),
        _ => false,
    }
}

/// Makes a chunk out of a run of statements, the last of which may be a
/// last statement: the run becomes the one chunk, or an error names the
/// first element that does not fit and the run stays as it was.
pub fn process_statements_to_chunk(elements: &mut Vec<Wrapped>) -> (r: Result<bool, SyntaxError>)
    requires
        old(elements)@.len() > 0,
        chunk_fault(old(elements)@) matches Some(i) ==> span_fits_at(old(elements)@, i),
    ensures
        match chunk_fault(old(elements)@) {
            Some(i) => final(elements)@ == old(elements)@ && (r matches Err(e) && error_at(
                e,
                old(elements)@,
                i,
                if i == old(elements)@.len() - 1 {
                    "last line must be a statement"@
                } else {
                    "must be a statement"@
                },
            )),
            None => r == Ok::<bool, SyntaxError>(true) && final(elements)@.len() == 1 && is_chunk_of(
                final(elements)@[0],
                old(elements)@,
            ),
        },
{
    let ghost s0 = elements@;
    let n = elements.len();
    let mut i: usize = 0;
    while i + 1 < n
        invariant
            n == elements@.len(),
            n > 0,
            s0 == elements@,
            s0 == old(elements)@,
            i <= n - 1,
            first_non_statement(s0, 0) == first_non_statement(s0, i as int),
            chunk_fault(s0) matches Some(j) ==> span_fits_at(s0, j),
        decreases n - 1 - i,
    {
        if !elements[i].item().is_statement() {
            assert(first_non_statement(s0, i as int) == Some(i as int));
            return Err(SyntaxError::general(elements[i].start(), elements[i].end(), "must be a statement"));
        }
        i = i + 1;
    }
    assert(first_non_statement(s0, i as int) is None);
    if elements[n - 1].item().is_statement() || elements[n - 1].item().is_last_statement() {
        let mut new_list: Vec<Box<SyntaxElement>> = Vec::new();
        let mut start: Option<usize> = None;
        let mut end: usize = 0;
        while elements.len() > 0
            invariant
                new_list@.len() + elements@.len() == n,
                n == s0.len(),
                n > 0,
                elements@ == s0.subrange(new_list@.len() as int, n as int),
                forall|k: int| 0 <= k < new_list@.len() ==> *(#[trigger] new_list@[k]) == at(s0, k),
                new_list@.len() == 0 ==> start is None,
                new_list@.len() > 0 ==> start == Some(s0[0].spec_start()),
                end == if new_list@.len() > 1 {
                    s0[new_list@.len() - 1].spec_end()
                } else {
                    0usize
                },
            decreases elements@.len(),
        {
            let ghost k = new_list@.len() as int;
            let CodeWrap::CodeWrap(item, s, e) = elements.remove(0);
            assert(elements@ =~= s0.subrange(k + 1, n as int));
            if start.is_none() {
                start = Some(s);
            } else {
                end = e;
            }
            new_list.push(Box::new(item));
        }
        if let Some(start) = start {
            elements.insert(0, CodeWrap::CodeWrap(SyntaxElement::Chunk(new_list), start, end));
            return Ok(true);
        }
        Ok(false)
    } else {
        Err(SyntaxError::general(elements[n - 1].start(), elements[n - 1].end(), "last line must be a statement"))
    }
}

// ---- variables ---------------------------------------------------------------

/// The first name token at or after `i`.
pub open spec fn first_name(s: Seq<Wrapped>, i: int) -> Option<int>
    decreases s.len() - i,
{
    if i < 0 || i >= s.len() {
        None
    } else if at(s, i) matches SyntaxElement::Token(tok) && tok@ is Identifier {
        Some(i)
    } else {
        first_name(s, i + 1)
    }
}

/// Wraps the first name token as a variable; whether one was found.
pub fn process_var(elements: &mut Vec<Wrapped>) -> (r: Result<bool, SyntaxError>)
    ensures
        match first_name(old(elements)@, 0) {
            Some(i) => r == Ok::<bool, SyntaxError>(true) && final(elements)@ == spliced(
                old(elements)@,
                i,
                1,
                CodeWrap::CodeWrap(
                    SyntaxElement::Var(Box::new(at(old(elements)@, i))),
                    old(elements)@[i].spec_start(),
                    old(elements)@[i].spec_end(),
                ),
            ),
            None => r == Ok::<bool, SyntaxError>(false) && final(elements)@ == old(elements)@,
        },
{
    let ghost s0 = elements@;
    let n = elements.len();
    let mut i: usize = 0;
    while i < n
        invariant
            n == elements@.len(),
            s0 == elements@,
            s0 == old(elements)@,
            i <= n,
            first_name(s0, 0) == first_name(s0, i as int),
        decreases n - i,
    {
        let found: bool = match elements[i].item() {
            SyntaxElement::Token(Token::Identifier(_)) => true,
            _ => false,
        };
        if found {
            assert(first_name(s0, i as int) == Some(i as int));
            let CodeWrap::CodeWrap(token, start, end) = elements.remove(i);
            elements.insert(i, CodeWrap::CodeWrap(SyntaxElement::Var(Box::new(token)), start, end));
            assert(elements@ =~= spliced(
                s0,
                i as int,
                1,
                CodeWrap::CodeWrap(
                    SyntaxElement::Var(Box::new(at(s0, i as int))),
                    s0[i as int].spec_start(),
                    s0[i as int].spec_end(),
                ),
            ));
            return Ok(true);
        }
        i = i + 1;
    }
    Ok(false)
}

// ---- statements --------------------------------------------------------------

/// `varlist = explist` stands at `i`.
pub open spec fn can_assign(s: Seq<Wrapped>, i: int) -> bool {
    at(s, i) is VarList && is_token(at(s, i + 1), TokenView::Equal) && at(s, i + 2) is ExpList
}

/// The assignment made of the three elements at `i`.
pub open spec fn assigned(s: Seq<Wrapped>, i: int) -> Wrapped {
    CodeWrap::CodeWrap(
        SyntaxElement::StatementAssign(Box::new(at(s, i)), Box::new(at(s, i + 2))),
        s[i].spec_start(),
        s[i + 2].spec_end(),
    )
}

/// One pass over the places from `i` up to (not including) `stop`, a bound
/// fixed before the pass: at each place where `varlist = explist` stands,
/// the three become an assignment, and the pass goes on at the next place.
/// `None` where the pass reaches a place whose three elements are no longer
/// all in the run.
pub open spec fn assign_pass(s: Seq<Wrapped>, i: int, stop: int) -> Option<Seq<Wrapped>>
    decreases stop - i,
{
    if i >= stop {
        Some(s)
    } else if i < 0 || i + 2 >= s.len() {
        None
    } else if can_assign(s, i) {
        assign_pass(spliced(s, i, 3, assigned(s, i)), i + 1, stop)
    } else {
        assign_pass(s, i + 1, stop)
    }
}

fn can_reduce_to_statement_assign(var_list: &Wrapped, op: &Wrapped, exp_list: &Wrapped) -> (r: bool)
    ensures
        r == (*var_list.spec_item() is VarList && is_token(*op.spec_item(), TokenView::Equal)
            && *exp_list.spec_item() is ExpList),
{
    match op {
        CodeWrap::CodeWrap(SyntaxElement::Token(Token::Equal), _, _) => {
            if var_list.item().is_var_list() && exp_list.item().is_exp_list() {
                return true;
            }
        },
        _ => {},
    }
    false
}

/// Makes assignments out of `varlist = explist` in one pass over the run
/// (see `assign_pass`); it always answers `false`. The pass fixes its last
/// place before it starts, so a run that shrinks under it would be read
/// past its end: `requires` leaves such runs out.
pub fn process_statement(elements: &mut Vec<Wrapped>) -> (r: Result<bool, SyntaxError>)
    requires
        old(elements)@.len() > 2 ==> assign_pass(old(elements)@, 0, old(elements)@.len() - 2) is Some,
    ensures
        r == Ok::<bool, SyntaxError>(false),
        old(elements)@.len() > 2 ==> assign_pass(old(elements)@, 0, old(elements)@.len() - 2)
            == Some(final(elements)@),
        old(elements)@.len() <= 2 ==> final(elements)@ == old(elements)@,
{
    let ghost s0 = elements@;
    if elements.len() > 2 {
        let n = elements.len();
        let stop = n - 2;
        let mut i: usize = 0;
        while i < stop
            invariant
                n == s0.len(),
                stop == n - 2,
                i <= stop,
                assign_pass(elements@, i as int, stop as int) == assign_pass(s0, 0, stop as int),
                assign_pass(s0, 0, stop as int) is Some,
            decreases stop - i,
        {
            let ghost s1 = elements@;
            assert(i + 2 < elements@.len());
            if can_reduce_to_statement_assign(&elements[i], &elements[i + 1], &elements[i + 2]) {
                let CodeWrap::CodeWrap(v_list, start, _) = elements.remove(i);
                elements.remove(i);
                let CodeWrap::CodeWrap(e_list, _, end) = elements.remove(i);
                let new_element = SyntaxElement::StatementAssign(Box::new(v_list), Box::new(e_list));
                elements.insert(i, CodeWrap::CodeWrap(new_element, start, end));
                assert(elements@ =~= spliced(s1, i as int, 3, assigned(s1, i as int)));
            }
            i = i + 1;
        }
    }
    Ok(false)
}

// ---- lists ---------------------------------------------------------------------

/// How a list scan ends: where the list stops, or a place after a comma
/// where an item was expected and something else stands.
pub enum Walk {
    End(int),
    Bad(int),
}

/// The element is an item of the list: an expression for expression lists,
/// a variable for variable lists.
pub open spec fn item_of(exp: bool, e: SyntaxElement) -> bool {
    if exp {
        e is Exp
    } else {
        e is Var
    }
}

/// The first item at or after `i`.
pub open spec fn list_first(exp: bool, s: Seq<Wrapped>, i: int) -> Option<int>
    decreases s.len() - i,
{
    if i < 0 || i >= s.len() {
        None
    } else if item_of(exp, at(s, i)) {
        Some(i)
    } else {
        list_first(exp, s, i + 1)
    }
}

/// Walking the list that starts at `st`, from `k` on: commas at odd
/// distances, items at even ones.
pub open spec fn list_walk(exp: bool, s: Seq<Wrapped>, st: int, k: int) -> Walk
    decreases s.len() - k,
{
    if k < 0 || k >= s.len() || k <= st {
        Walk::End(k)
    } else if (k - st) % 2 == 1 {
        if is_token(at(s, k), TokenView::Comma) {
            list_walk(exp, s, st, k + 1)
        } else {
            Walk::End(k)
        }
    } else if item_of(exp, at(s, k)) {
        list_walk(exp, s, st, k + 1)
    } else {
        Walk::Bad(k)
    }
}

/// The error given where an item is missing after a comma.
pub open spec fn list_message(exp: bool) -> Seq<char> {
    if exp {
        "expecting an expression after the comma"@
    } else {
        "var an expression after the comma"@
    }
}

/// The number of items in the list from `st` up to (not including) `e`.
pub open spec fn list_count(st: int, e: int) -> int {
    (e - st + 1) / 2
}

/// The list element holds the items of the list from `st` to `e`, and its
/// span is the first item's start to the last item's end (0 for a list of
/// one item).
pub open spec fn list_built(exp: bool, s: Seq<Wrapped>, st: int, e: int, w: Wrapped) -> bool {
    let n = list_count(st, e);
    let code_end = if n >= 2 {
        s[st + 2 * (n - 1)].spec_end()
    } else {
        0usize
    };
    &&& w.spec_start() == s[st].spec_start()
    &&& w.spec_end() == code_end
    &&& match *w.spec_item() {
        SyntaxElement::VarList(list) => !exp && list@.len() == n && forall|q: int|
            0 <= q < n ==> *(#[trigger] list@[q]) == at(s, st + 2 * q),
        SyntaxElement::ExpList(list) => exp && list@.len() == n && forall|q: int|
            0 <= q < n ==> *(#[trigger] list@[q]) == at(s, st + 2 * q),
        _ => false,
    }
}

/// The list from `st` up to `e` was reduced in `s` to give `t`.
pub open spec fn list_reduced(exp: bool, s: Seq<Wrapped>, st: int, e: int, t: Seq<Wrapped>) -> bool {
    &&& t.len() == s.len() - (e - st) + 1
    &&& t.subrange(0, st) == s.subrange(0, st)
    &&& t.subrange(st + 1, t.len() as int) == s.subrange(e, s.len() as int)
    &&& list_built(exp, s, st, e, t[st])
}

/// Where the first item is found, it is in the run and is an item.
pub proof fn lemma_list_first(exp: bool, s: Seq<Wrapped>, i: int)
    ensures
        list_first(exp, s, i) matches Some(j) ==> i <= j && 0 <= j < s.len() && item_of(exp, at(s, j)),
    decreases s.len() - i,
{
    if !(i < 0 || i >= s.len()) && !item_of(exp, at(s, i)) {
        lemma_list_first(exp, s, i + 1);
    }
}

fn item_exec(e: &SyntaxElement, exp: bool) -> (r: bool)
    ensures
        r == item_of(exp, *e),
{
    match e {
        SyntaxElement::Exp(_) => exp,
        SyntaxElement::Var(_) => !exp,
        _ => false,
    }
}

/// The answer of a list scan over `s`, and the run it leaves.
pub open spec fn list_outcome(exp: bool, s: Seq<Wrapped>, r: Result<bool, SyntaxError>, t: Seq<Wrapped>) -> bool {
    match list_first(exp, s, 0) {
        None => r == Ok::<bool, SyntaxError>(false) && t == s,
        Some(st) => match list_walk(exp, s, st, st + 1) {
            Walk::End(e) => r == Ok::<bool, SyntaxError>(true) && list_reduced(exp, s, st, e, t),
            Walk::Bad(b) => t == s && (r matches Err(err) && error_at(err, s, b, list_message(exp))),
        },
    }
}

/// The place where a list scan over `s` fails, if it does.
pub open spec fn list_fault(exp: bool, s: Seq<Wrapped>) -> Option<int> {
    match list_first(exp, s, 0) {
        Some(st) => match list_walk(exp, s, st, st + 1) {
            Walk::Bad(b) => Some(b),
            _ => None,
        },
        None => None,
    }
}

/// Finds the first item and the list that follows it (items joined by
/// commas), and reduces it to one list element; an error where a comma is
/// followed by something other than an item.
fn process_list(elements: &mut Vec<Wrapped>, exp: bool) -> (r: Result<bool, SyntaxError>)
    requires
        list_fault(exp, old(elements)@) matches Some(b) ==> span_fits_at(old(elements)@, b),
    ensures
        list_outcome(exp, old(elements)@, r, final(elements)@),
{
    let ghost s0 = elements@;
    let n = elements.len();
    let mut i: usize = 0;
    let mut start: Option<usize> = None;
    loop
        invariant
            n == elements@.len(),
            s0 == elements@,
            s0 == old(elements)@,
            i <= n,
            list_fault(exp, s0) matches Some(b) ==> span_fits_at(s0, b),
            start is None ==> list_first(exp, s0, 0) == list_first(exp, s0, i as int),
            start matches Some(st) ==> list_first(exp, s0, 0) == Some(st as int) && st < i
                && list_walk(exp, s0, st as int, st + 1) == list_walk(exp, s0, st as int, i as int),
        ensures
            start is None ==> list_first(exp, s0, 0) is None,
            start matches Some(st) ==> list_first(exp, s0, 0) == Some(st as int) && st < i
                && list_walk(exp, s0, st as int, st + 1) == Walk::End(i as int) && i <= n,
        decreases n - i,
    {
        if i >= n {
            break;
        }
        match start {
            None => {
                if item_exec(elements[i].item(), exp) {
                    start = Some(i);
                    proof {
                        lemma_list_first(exp, s0, i as int);
                    }
                }
            },
            Some(st) => {
                let factor = i - st;
                if factor % 2 == 1 {
                    if !elements[i].item().is_token_of(&Token::Comma) {
                        break;
                    }
                } else {
                    if !item_exec(elements[i].item(), exp) {
                        let msg = if exp {
                            "expecting an expression after the comma"
                        } else {
                            "var an expression after the comma"
                        };
                        return Err(SyntaxError::general(elements[i].start(), elements[i].end(), msg));
                    }
                }
            },
        }
        i = i + 1;
    }
    if let Some(st) = start {
        let mut code_start: Option<usize> = None;
        let mut code_end: usize = 0;
        let mut new_list: Vec<Box<SyntaxElement>> = Vec::new();
        let mut cc: usize = 0;
        while cc < i - st
            invariant
                st < i <= n,
                s0.len() == n,
                cc <= i - st,
                elements@ == s0.subrange(0, st as int) + s0.subrange(st + cc, n as int),
                new_list@.len() == (cc + 1) / 2,
                forall|q: int| 0 <= q < new_list@.len() ==> *(#[trigger] new_list@[q]) == at(s0, st + 2 * q),
                cc == 0 ==> code_start is None,
                cc > 0 ==> code_start == Some(s0[st as int].spec_start()),
                code_end == if new_list@.len() >= 2 {
                    s0[st + 2 * (new_list@.len() - 1)].spec_end()
                } else {
                    0usize
                },
            decreases i - st - cc,
        {
            let item = elements.remove(st);
            proof {
                assert(item == s0[st + cc]);
                assert(elements@ =~= s0.subrange(0, st as int) + s0.subrange(st + cc + 1, n as int));
            }
            if cc % 2 == 0 {
                let CodeWrap::CodeWrap(inside, s, e) = item;
                if code_start.is_none() {
                    code_start = Some(s);
                } else {
                    code_end = e;
                }
                new_list.push(Box::new(inside));
            }
            cc = cc + 1;
        }
        if let Some(code_start) = code_start {
            let list = if exp {
                SyntaxElement::ExpList(new_list)
            } else {
                SyntaxElement::VarList(new_list)
            };
            elements.insert(st, CodeWrap::CodeWrap(list, code_start, code_end));
            proof {
                assert(elements@.subrange(0, st as int) =~= s0.subrange(0, st as int));
                assert(elements@.subrange(st + 1, elements@.len() as int) =~= s0.subrange(i as int, n as int));
            }
            return Ok(true);
        }
    }
    Ok(false)
}

/// `var {, var}`: the first list of variables becomes one element (see
/// `list_outcome`).
pub fn process_var_list(elements: &mut Vec<Wrapped>) -> (r: Result<bool, SyntaxError>)
    requires
        list_fault(false, old(elements)@) matches Some(b) ==> span_fits_at(old(elements)@, b),
    ensures
        list_outcome(false, old(elements)@, r, final(elements)@),
{
    process_list(elements, false)
}

/// `exp {, exp}`: the first list of expressions becomes one element (see
/// `list_outcome`).
pub fn process_exp_list(elements: &mut Vec<Wrapped>) -> (r: Result<bool, SyntaxError>)
    requires
        list_fault(true, old(elements)@) matches Some(b) ==> span_fits_at(old(elements)@, b),
    ensures
        list_outcome(true, old(elements)@, r, final(elements)@),
{
    process_list(elements, true)
}

// ---- expressions ---------------------------------------------------------------

/// The first place at or after `i` holding a token of the same kind as `t`.
pub open spec fn kind_from(t: TokenView, s: Seq<Wrapped>, i: int) -> Option<int>
    decreases s.len() - i,
{
    if i < 0 || i >= s.len() {
        None
    } else if at(s, i) matches SyntaxElement::Token(tok) && spec_same_type(t, tok@) {
        Some(i)
    } else {
        kind_from(t, s, i + 1)
    }
}

/// The run with the first token of the same kind as `t` wrapped as an
/// expression, if there is one.
pub open spec fn token_rule(t: TokenView, s: Seq<Wrapped>) -> Option<Seq<Wrapped>> {
    match kind_from(t, s, 0) {
        Some(i) => Some(
            spliced(
                s,
                i,
                1,
                CodeWrap::CodeWrap(
                    SyntaxElement::Exp(Box::new(at(s, i))),
                    s[i].spec_start(),
                    s[i].spec_end(),
                ),
            ),
        ),
        None => None,
    }
}

/// `exp binop exp` stands at `i`.
pub open spec fn binop_at(s: Seq<Wrapped>, i: int) -> bool {
    &&& 0 <= i && i + 2 < s.len()
    &&& at(s, i) is Exp
    &&& at(s, i + 1) matches SyntaxElement::Token(t) && spec_is_binop(t@)
    &&& at(s, i + 2) is Exp
}

/// `unop exp` stands at `i`.
pub open spec fn unop_at(s: Seq<Wrapped>, i: int) -> bool {
    &&& 0 <= i && i + 1 < s.len()
    &&& at(s, i) matches SyntaxElement::Token(t) && spec_is_unop(t@)
    &&& at(s, i + 1) is Exp
}

/// The first place at or after `i` where `exp binop exp` (`binary`) or
/// `unop exp` stands.
pub open spec fn op_from(binary: bool, s: Seq<Wrapped>, i: int) -> Option<int>
    decreases s.len() - i,
{
    if i < 0 || i >= s.len() {
        None
    } else if (binary && binop_at(s, i)) || (!binary && unop_at(s, i)) {
        Some(i)
    } else {
        op_from(binary, s, i + 1)
    }
}

/// The run with the first `exp binop exp` (`binary`) or `unop exp` made one
/// expression, if there is one.
pub open spec fn op_rule(binary: bool, s: Seq<Wrapped>) -> Option<Seq<Wrapped>> {
    match op_from(binary, s, 0) {
        Some(i) => if binary {
            Some(
                spliced(
                    s,
                    i,
                    3,
                    CodeWrap::CodeWrap(
                        SyntaxElement::Exp(
                            Box::new(
                                SyntaxElement::Binop(
                                    Box::new(at(s, i)),
                                    Box::new(at(s, i + 1)),
                                    Box::new(at(s, i + 2)),
                                ),
                            ),
                        ),
                        s[i].spec_start(),
                        s[i + 2].spec_end(),
                    ),
                ),
            )
        } else {
            Some(
                spliced(
                    s,
                    i,
                    2,
                    CodeWrap::CodeWrap(
                        SyntaxElement::Exp(
                            Box::new(SyntaxElement::Unop(Box::new(at(s, i)), Box::new(at(s, i + 1)))),
                        ),
                        s[i].spec_start(),
                        s[i + 1].spec_end(),
                    ),
                ),
            )
        },
        None => None,
    }
}

/// The first of two steps that applies.
pub open spec fn first_of(a: Option<Seq<Wrapped>>, b: Option<Seq<Wrapped>>) -> Option<Seq<Wrapped>> {
    if a is Some {
        a
    } else {
        b
    }
}

/// One step of the expression rules, in the order they are tried: `nil`,
/// `false`, `true`, a number, `nil` again, `...`, `exp binop exp`,
/// `unop exp`.
pub open spec fn exp_step(s: Seq<Wrapped>) -> Option<Seq<Wrapped>> {
    first_of(
        token_rule(TokenView::Nil, s),
        first_of(
            token_rule(TokenView::False, s),
            first_of(
                token_rule(TokenView::True, s),
                first_of(
                    token_rule(TokenView::Number(Seq::empty()), s),
                    first_of(
                        token_rule(TokenView::Nil, s),
                        first_of(
                            token_rule(TokenView::TriplePeriod, s),
                            first_of(op_rule(true, s), op_rule(false, s)),
                        ),
                    ),
                ),
            ),
        ),
    )
}

/// Wraps the first token of the same kind as `check_token` as an
/// expression.
fn process_exp_single_token(elements: &mut Vec<Wrapped>, check_token: Token) -> (r: bool)
    ensures
        match token_rule(check_token@, old(elements)@) {
            Some(s2) => r && final(elements)@ == s2,
            None => !r && final(elements)@ == old(elements)@,
        },
{
    let ghost s0 = elements@;
    let n = elements.len();
    let mut i: usize = 0;
    while i < n
        invariant
            n == elements@.len(),
            s0 == elements@,
            s0 == old(elements)@,
            i <= n,
            kind_from(check_token@, s0, 0) == kind_from(check_token@, s0, i as int),
        decreases n - i,
    {
        let found: bool = match elements[i].item() {
            SyntaxElement::Token(token) => check_token.is_same_type(token),
            _ => false,
        };
        if found {
            assert(kind_from(check_token@, s0, i as int) == Some(i as int));
            let CodeWrap::CodeWrap(token, start, end) = elements.remove(i);
            elements.insert(i, CodeWrap::CodeWrap(SyntaxElement::Exp(Box::new(token)), start, end));
            assert(elements@ =~= spliced(
                s0,
                i as int,
                1,
                CodeWrap::CodeWrap(
                    SyntaxElement::Exp(Box::new(at(s0, i as int))),
                    s0[i as int].spec_start(),
                    s0[i as int].spec_end(),
                ),
            ));
            return true;
        }
        i = i + 1;
    }
    false
}

fn can_reduce_to_exp_binop(left: &Wrapped, op: &Wrapped, right: &Wrapped) -> (r: bool)
    ensures
        r == (*left.spec_item() is Exp && (*op.spec_item() matches SyntaxElement::Token(t)
            && spec_is_binop(t@)) && *right.spec_item() is Exp),
{
    if let SyntaxElement::Token(token) = op.item() {
        if token.is_binop() {
            return left.item().is_exp() && right.item().is_exp();
        }
        return false;
    }
    false
}

fn can_reduce_to_exp_unop(op: &Wrapped, right: &Wrapped) -> (r: bool)
    ensures
        r == ((*op.spec_item() matches SyntaxElement::Token(t) && spec_is_unop(t@))
            && *right.spec_item() is Exp),
{
    if let SyntaxElement::Token(token) = op.item() {
        if token.is_unop() {
            return right.item().is_exp();
        }
        return false;
    }
    false
}

/// Makes the first `exp binop exp` one expression.
fn process_exp_binop(elements: &mut Vec<Wrapped>) -> (r: bool)
    ensures
        match op_rule(true, old(elements)@) {
            Some(s2) => r && final(elements)@ == s2,
            None => !r && final(elements)@ == old(elements)@,
        },
{
    let ghost s0 = elements@;
    let n = elements.len();
    if n > 2 {
        let mut i: usize = 0;
        while i < n - 2
            invariant
                n == elements@.len(),
                n > 2,
                s0 == elements@,
                s0 == old(elements)@,
                i <= n - 2,
                op_from(true, s0, 0) == op_from(true, s0, i as int),
            decreases n - 2 - i,
        {
            if can_reduce_to_exp_binop(&elements[i], &elements[i + 1], &elements[i + 2]) {
                assert(op_from(true, s0, i as int) == Some(i as int));
                let CodeWrap::CodeWrap(left, start, _) = elements.remove(i);
                let CodeWrap::CodeWrap(op, _, _) = elements.remove(i);
                let CodeWrap::CodeWrap(right, _, end) = elements.remove(i);
                let new_op = SyntaxElement::Binop(Box::new(left), Box::new(op), Box::new(right));
                let new_exp = SyntaxElement::Exp(Box::new(new_op));
                elements.insert(i, CodeWrap::CodeWrap(new_exp, start, end));
                assert(elements@ =~= op_rule(true, s0)->0);
                return true;
            }
            i = i + 1;
        }
        assert(op_from(true, s0, i as int) is None) by {
            assert(!binop_at(s0, i as int) && !binop_at(s0, i + 1));
            assert(op_from(true, s0, i + 1) == op_from(true, s0, i + 2));
        }
    } else {
        assert(op_from(true, s0, 0) is None) by {
            lemma_op_from_none(true, s0, 0);
        }
    }
    false
}

/// Near the end of the run no operator can stand: `exp binop exp` needs
/// three elements, `unop exp` two.
pub proof fn lemma_op_from_none(binary: bool, s: Seq<Wrapped>, i: int)
    requires
        i >= 0,
        binary ==> i + 2 >= s.len(),
        !binary ==> i + 1 >= s.len(),
    ensures
        op_from(binary, s, i) is None,
    decreases s.len() - i,
{
    if i < s.len() {
        lemma_op_from_none(binary, s, i + 1);
    }
}

/// Makes the first `unop exp` one expression.
fn process_exp_unop(elements: &mut Vec<Wrapped>) -> (r: bool)
    ensures
        match op_rule(false, old(elements)@) {
            Some(s2) => r && final(elements)@ == s2,
            None => !r && final(elements)@ == old(elements)@,
        },
{
    let ghost s0 = elements@;
    let n = elements.len();
    if n > 1 {
        let mut i: usize = 0;
        while i < n - 1
            invariant
                n == elements@.len(),
                n > 1,
                s0 == elements@,
                s0 == old(elements)@,
                i <= n - 1,
                op_from(false, s0, 0) == op_from(false, s0, i as int),
            decreases n - 1 - i,
        {
            if can_reduce_to_exp_unop(&elements[i], &elements[i + 1]) {
                assert(op_from(false, s0, i as int) == Some(i as int));
                let CodeWrap::CodeWrap(op, start, _) = elements.remove(i);
                let CodeWrap::CodeWrap(right, _, end) = elements.remove(i);
                let new_op = SyntaxElement::Unop(Box::new(op), Box::new(right));
                let new_exp = SyntaxElement::Exp(Box::new(new_op));
                elements.insert(i, CodeWrap::CodeWrap(new_exp, start, end));
                assert(elements@ =~= op_rule(false, s0)->0);
                return true;
            }
            i = i + 1;
        }
        assert(op_from(false, s0, i as int) is None) by {
            lemma_op_from_none(false, s0, i as int);
        }
    } else {
        assert(op_from(false, s0, 0) is None) by {
            lemma_op_from_none(false, s0, 0);
        }
    }
    false
}

/// Tries the expression rules in order (see `exp_step`) and applies the
/// first one that fits; whether one did.
pub fn process_exp(elements: &mut Vec<Wrapped>) -> (r: Result<bool, SyntaxError>)
    ensures
        match exp_step(old(elements)@) {
            Some(s2) => r == Ok::<bool, SyntaxError>(true) && final(elements)@ == s2,
            None => r == Ok::<bool, SyntaxError>(false) && final(elements)@ == old(elements)@,
        },
{
    if process_exp_single_token(elements, Token::Nil) {
        return Ok(true);
    }
    if process_exp_single_token(elements, Token::False) {
        return Ok(true);
    }
    if process_exp_single_token(elements, Token::True) {
        return Ok(true);
    }
    if process_exp_single_token(elements, Token::Number(String::new())) {
        return Ok(true);
    }
    if process_exp_single_token(elements, Token::Nil) {
        return Ok(true);
    }
    if process_exp_single_token(elements, Token::TriplePeriod) {
        return Ok(true);
    }
    if process_exp_binop(elements) {
        return Ok(true);
    }
    if process_exp_unop(elements) {
        return Ok(true);
    }
    Ok(false)
}

} // verus!
