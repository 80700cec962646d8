//! Syntax rules: each looks for one piece of Lua's grammar in a run of
//! wrapped syntax elements and reduces it to one element.

pub mod element;
pub mod rules;
pub mod exp;
pub mod explist;
pub mod statement;
pub mod var;
pub mod varlist;
pub mod prefixexp;
pub mod field;
pub mod namelist;
pub mod laststatement;
pub mod tableconstructor;

use vstd::prelude::*;
use crate::codewrap::CodeWrap;
use crate::syntax::element::{SyntaxElement, spec_is_statement};

verus! {

/// A syntax element with the span of code it was made from.
pub type Wrapped = CodeWrap<SyntaxElement>;

/// What a syntax rule gives.
pub enum SyntaxResult {
    /// Something was reduced.
    Done,
    /// A new element to take the place of the run.
    Wrap(CodeWrap<SyntaxElement>),
    /// Nothing was reduced.
    Nothing,
    /// More input is needed.
    More,
    /// An error: where the code starts and ends, and a description.
    Error(usize, usize, String),
    /// A finished element.
    Finished(SyntaxElement),
    /// A table starts at this place of the run.
    TableConst(usize),
}

/// The run with the `w` elements from `i` replaced by `new`.
pub open spec fn replaced(s: Seq<Wrapped>, i: int, w: int, new: Wrapped) -> Seq<Wrapped> {
    s.subrange(0, i) + seq![new] + s.subrange(i + w, s.len() as int)
}

/// The element wraps exactly the items of the run, in order.
pub open spec fn holds_items(list: Seq<Box<SyntaxElement>>, items: Seq<Wrapped>) -> bool {
    list.len() == items.len() && forall|k: int|
        0 <= k < items.len() ==> *(#[trigger] list[k]) == *items[k].spec_item()
}

/// The element is a block whose chunk holds exactly the items of the run.
pub open spec fn is_block_of(e: SyntaxElement, items: Seq<Wrapped>) -> bool {
    match e {
        SyntaxElement::Block(b) => match *b {
            SyntaxElement::Chunk(list) => holds_items(list@, items),
            _ => false,
        },
        _ => false,
    }
}

/// The first place before the last element holding something that is not a
/// statement.
pub open spec fn first_non_statement(s: Seq<Wrapped>, i: int) -> Option<int>
    decreases s.len() - i,
{
    if i < 0 || i >= s.len() - 1 {
        None
    } else if !spec_is_statement(*s[i].spec_item()) {
        Some(i)
    } else {
        first_non_statement(s, i + 1)
    }
}

/// Takes the elements out of their wrappers, in order, emptying the run.
fn unwrap_all(elements: &mut Vec<Wrapped>) -> (r: Vec<Box<SyntaxElement>>)
    ensures
        holds_items(r@, old(elements)@),
        final(elements)@.len() == 0,
{
    let ghost s0 = elements@;
    let mut new_list: Vec<Box<SyntaxElement>> = Vec::new();
    while elements.len() > 0
        invariant
            new_list@.len() + elements@.len() == s0.len(),
            elements@ == s0.subrange(new_list@.len() as int, s0.len() as int),
            forall|k: int| 0 <= k < new_list@.len() ==> *(#[trigger] new_list@[k]) == *s0[k].spec_item(),
        decreases elements@.len(),
    {
        let CodeWrap::CodeWrap(element, _, _) = elements.remove(0);
        new_list.push(Box::new(element));
    }
    new_list
}

/// Makes a block out of a run of statements, the last of which may be a
/// last statement: a `Wrap` of the block over the whole span, or an error
/// at the first element that does not fit. The run is emptied on success
/// and left as it is otherwise.
pub fn final_compress(elements: &mut Vec<Wrapped>) -> (r: SyntaxResult)
    ensures
        old(elements)@.len() == 0 ==> (r matches SyntaxResult::Error(s, e, d) && s == 0 && e == 0
            && d@ == "No elements found to compress?"@),
        old(elements)@.len() > 0 ==> match first_non_statement(old(elements)@, 0) {
            Some(i) => r matches SyntaxResult::Error(s, e, d) && s == old(elements)@[i].spec_start()
                && e == old(elements)@[i].spec_end() && d@ == "Line isn't a statement, but must be one"@,
            None => {
                let last = old(elements)@[old(elements)@.len() - 1];
                if !(spec_is_statement(*last.spec_item()) || last.spec_item() is StatementLast) {
                    r matches SyntaxResult::Error(s, e, d) && s == last.spec_start() && e
                        == last.spec_end() && d@ == "Line isn't a statement, but must be one"@
                } else {
                    r matches SyntaxResult::Wrap(CodeWrap::CodeWrap(b, s, e)) && is_block_of(
                        b,
                        old(elements)@,
                    ) && s == old(elements)@[0].spec_start() && e == last.spec_end()
                }
            },
        },
        r is Error ==> final(elements)@ == old(elements)@,
        r is Wrap ==> final(elements)@.len() == 0,
{
    let ghost s0 = elements@;
    if elements.len() == 0 {
        return SyntaxResult::Error(0, 0, "No elements found to compress?".to_owned());
    }
    let n = elements.len();
    let mut i: usize = 0;
    while i < n - 1
        invariant
            n == elements@.len(),
            n > 0,
            s0 == elements@,
            i <= n - 1,
            first_non_statement(s0, 0) == first_non_statement(s0, i as int),
        decreases n - 1 - i,
    {
        if !elements[i].item().is_statement() {
            assert(first_non_statement(s0, i as int) == Some(i as int));
            return SyntaxResult::Error(
                elements[i].start(),
                elements[i].end(),
                "Line isn't a statement, but must be one".to_owned(),
            );
        }
        i = i + 1;
    }
    assert(first_non_statement(s0, i as int) is None);
    if !(elements[n - 1].item().is_statement() || elements[n - 1].item().is_last_statement()) {
        return SyntaxResult::Error(
            elements[n - 1].start(),
            elements[n - 1].end(),
            "Line isn't a statement, but must be one".to_owned(),
        );
    }
    let start = elements[0].start();
    let end = elements[n - 1].end();
    let statement_list = unwrap_all(elements);
    let chunk = SyntaxElement::Chunk(statement_list);
    let block = SyntaxElement::Block(Box::new(chunk));
    SyntaxResult::Wrap(CodeWrap::CodeWrap(block, start, end))
}

} // verus!
