//! namelist: `Name {, Name}`, made from a list of plain variables.

use vstd::prelude::*;
use crate::codewrap::CodeWrap;
use crate::syntax::{SyntaxResult, Wrapped, replaced};
use crate::syntax::element::{SyntaxElement, spec_is_name, display};
use crate::syntax::rules::at;
use crate::text::push_str;

verus! {

/// The first variable list at or after `i`.
pub open spec fn first_var_list(s: Seq<Wrapped>, i: int) -> Option<int>
    decreases s.len() - i,
{
    if i < 0 || i >= s.len() {
        None
    } else if at(s, i) is VarList {
        Some(i)
    } else {
        first_var_list(s, i + 1)
    }
}

/// The element is a variable that wraps a name.
pub open spec fn converts(e: SyntaxElement) -> bool {
    e matches SyntaxElement::Var(inside) && spec_is_name(*inside)
}

/// The first item at or after `k` that is not a variable wrapping a name.
pub open spec fn first_unconvertible(list: Seq<Box<SyntaxElement>>, k: int) -> Option<int>
    decreases list.len() - k,
{
    if k < 0 || k >= list.len() {
        None
    } else if !converts(*list[k]) {
        Some(k)
    } else {
        first_unconvertible(list, k + 1)
    }
}

/// The names that the variables wrap, in order.
pub open spec fn names_of(list: Seq<Box<SyntaxElement>>, names: Seq<Box<SyntaxElement>>) -> bool {
    names.len() == list.len() && forall|k: int|
        0 <= k < list.len() ==> (*(#[trigger] list[k]) matches SyntaxElement::Var(inside) && *names[k] == *inside)
}

/// `t` is `s` with the variable list at `i` replaced by a name list of the
/// names its variables wrap, over the same span.
pub open spec fn renamed(s: Seq<Wrapped>, i: int, list: Seq<Box<SyntaxElement>>, t: Seq<Wrapped>) -> bool {
    &&& t.len() == s.len()
    &&& t == replaced(s, i, 1, t[i])
    &&& t[i].spec_start() == s[i].spec_start()
    &&& t[i].spec_end() == s[i].spec_end()
    &&& (*t[i].spec_item() matches SyntaxElement::NameList(names) && names_of(list, names@))
}

/// Turns the first variable list into a name list. Where one of its items
/// is not a variable wrapping a name, the list is taken out of the run and
/// an error over its span names that item.
pub fn process(elements: &mut Vec<Wrapped>) -> (r: SyntaxResult)
    ensures
        match first_var_list(old(elements)@, 0) {
            None => r is Nothing && final(elements)@ == old(elements)@,
            Some(i) => match at(old(elements)@, i) {
                SyntaxElement::VarList(list) => match first_unconvertible(list@, 0) {
                    None => r is Done && renamed(old(elements)@, i, list@, final(elements)@),
                    Some(k) => final(elements)@ == old(elements)@.remove(i) && (r matches SyntaxResult::Error(
                        st,
                        en,
                        d,
                    ) && st == old(elements)@[i].spec_start() && en == old(elements)@[i].spec_end()
                        && d@ == "attempted to convert "@ + display(*list@[k]) + " to a name, but failed."@),
                },
                _ => false,
            },
        },
{
    let ghost s0 = elements@;
    let n = elements.len();
    let mut i: usize = 0;
    while i < n
        invariant
            n == elements@.len(),
            s0 == elements@,
            s0 == old(elements)@,
            i <= n,
            first_var_list(s0, 0) == first_var_list(s0, i as int),
        decreases n - i,
    {
        if elements[i].item().is_var_list() {
            assert(first_var_list(s0, i as int) == Some(i as int));
            let CodeWrap::CodeWrap(old_list, start, end) = elements.remove(i);
            let ghost rest = elements@;
            assert(rest =~= s0.remove(i as int));
            match old_list {
                SyntaxElement::VarList(list) => {
                    let ghost l0 = list@;
                    let mut list = list;
                    let mut new_list: Vec<Box<SyntaxElement>> = Vec::new();
                    while list.len() > 0
                        invariant
                            new_list@.len() + list@.len() == l0.len(),
                            list@ == l0.subrange(new_list@.len() as int, l0.len() as int),
                            first_unconvertible(l0, 0) == first_unconvertible(l0, new_list@.len() as int),
                            forall|k: int| 0 <= k < new_list@.len() ==> (*(#[trigger] l0[k]) matches SyntaxElement::Var(inside)
                                && *new_list@[k] == *inside),
                            elements@ == rest,
                            rest == s0.remove(i as int),
                            s0 == old(elements)@,
                            0 <= i < s0.len(),
                            first_var_list(s0, 0) == Some(i as int),
                            start == s0[i as int].spec_start(),
                            end == s0[i as int].spec_end(),
                            at(s0, i as int) matches SyntaxElement::VarList(list0) && list0@ == l0,
                        decreases list@.len(),
                    {
                        let ghost k = new_list@.len() as int;
                        let item = list.remove(0);
                        assert(list@ =~= l0.subrange(k + 1, l0.len() as int));
                        match (*item).convert_to_name() {
                            Ok(name) => {
                                new_list.push(Box::new(name));
                            },
                            Err(not_a_name) => {
                                assert(first_unconvertible(l0, k) == Some(k));
                                assert(not_a_name == *l0[k]);
                                let mut msg = "attempted to convert ".to_owned();
                                push_str(&mut msg, not_a_name.to_display_string().as_str());
                                push_str(&mut msg, " to a name, but failed.");
                                return SyntaxResult::Error(start, end, msg);
                            },
                        }
                    }
                    assert(first_unconvertible(l0, l0.len() as int) is None);
                    let namelist = SyntaxElement::NameList(new_list);
                    elements.insert(i, CodeWrap::CodeWrap(namelist, start, end));
                    assert(elements@ =~= replaced(s0, i as int, 1, elements@[i as int]));
                    return SyntaxResult::Done;
                },
                _ => {
                    return SyntaxResult::Error(
                        start,
                        end,
                        "we shouldn't be here, this should have been a varlist".to_owned(),
                    );
                },
            }
        }
        i = i + 1;
    }
    SyntaxResult::Nothing
}

} // verus!
