//! Recognising the text of a number as Rust's `f32` parser reads it.

use vstd::prelude::*;
use crate::scanspec::{spec_find, spec_all_digits, spec_is_digit, spec_is_mantissa, spec_is_exponent, spec_is_decimal, spec_lower, spec_lowered, spec_is_float_literal};

verus! {

/// The first index at or after `from` that holds `a` or `b`.
fn find(s: &Vec<char>, from: usize, a: char, b: char) -> (r: Option<usize>)
    requires
        from <= s.len(),
    ensures
        match r {
            Some(k) => spec_find(s@, from as int, a, b) == Some(k as int),
            None => spec_find(s@, from as int, a, b) is None,
        },
{
    let mut i = from;
    while i < s.len()
        invariant
            from <= i <= s.len(),
            spec_find(s@, from as int, a, b) == spec_find(s@, i as int, a, b),
        decreases s.len() - i,
    {
        if s[i] == a || s[i] == b {
            return Some(i);
        }
        i = i + 1;
    }
    None
}

/// The characters from `lo` to `hi` are all decimal digits.
fn all_digits(s: &Vec<char>, lo: usize, hi: usize) -> (r: bool)
    requires
        lo <= hi <= s.len(),
    ensures
        r == spec_all_digits(s@.subrange(lo as int, hi as int)),
{
    let mut i = lo;
    while i < hi
        invariant
            lo <= i <= hi <= s.len(),
            forall|j: int| lo <= j < i ==> spec_is_digit(#[trigger] s@[j]),
        decreases hi - i,
    {
        if !('0' <= s[i] && s[i] <= '9') {
            assert(!spec_is_digit(s@.subrange(lo as int, hi as int)[i - lo]));
            return false;
        }
        i = i + 1;
    }
    assert forall|j: int| 0 <= j < hi - lo implies spec_is_digit(
        #[trigger] s@.subrange(lo as int, hi as int)[j],
    ) by {
        assert(s@.subrange(lo as int, hi as int)[j] == s@[lo + j]);
    }
    true
}

/// The characters from `lo` to `hi` form a mantissa.
fn is_mantissa(s: &Vec<char>, lo: usize, hi: usize) -> (r: bool)
    requires
        lo <= hi <= s.len(),
    ensures
        r == spec_is_mantissa(s@.subrange(lo as int, hi as int)),
{
    let ghost m = s@.subrange(lo as int, hi as int);
    let mut i = lo;
    while i < hi
        invariant
            lo <= i <= hi <= s.len(),
            forall|j: int| lo <= j < i ==> s@[j] != '.',
            m == s@.subrange(lo as int, hi as int),
            spec_find(m, 0, '.', '.') == spec_find(m, i - lo, '.', '.'),
        decreases hi - i,
    {
        if s[i] == '.' {
            let before = all_digits(s, lo, i);
            let after = all_digits(s, i + 1, hi);
            assert(m.take(i - lo) =~= s@.subrange(lo as int, i as int));
            assert(m.skip(i - lo + 1) =~= s@.subrange(i + 1, hi as int));
            return before && after && (i > lo || hi > i + 1);
        }
        i = i + 1;
    }
    let r = all_digits(s, lo, hi);
    r && hi > lo
}

/// The characters from `lo` to `hi` form an exponent.
fn is_exponent(s: &Vec<char>, lo: usize, hi: usize) -> (r: bool)
    requires
        lo <= hi <= s.len(),
    ensures
        r == spec_is_exponent(s@.subrange(lo as int, hi as int)),
{
    let ghost t = s@.subrange(lo as int, hi as int);
    if lo < hi && (s[lo] == '+' || s[lo] == '-') {
        assert(t.drop_first() =~= s@.subrange(lo + 1, hi as int));
        hi > lo + 1 && all_digits(s, lo + 1, hi)
    } else {
        hi > lo && all_digits(s, lo, hi)
    }
}

/// The characters from `lo` to `hi` form a decimal number.
fn is_decimal(s: &Vec<char>, lo: usize, hi: usize) -> (r: bool)
    requires
        lo <= hi <= s.len(),
    ensures
        r == spec_is_decimal(s@.subrange(lo as int, hi as int)),
{
    let ghost d = s@.subrange(lo as int, hi as int);
    let mut i = lo;
    while i < hi
        invariant
            lo <= i <= hi <= s.len(),
            d == s@.subrange(lo as int, hi as int),
            spec_find(d, 0, 'e', 'E') == spec_find(d, i - lo, 'e', 'E'),
        decreases hi - i,
    {
        if s[i] == 'e' || s[i] == 'E' {
            assert(d.take(i - lo) =~= s@.subrange(lo as int, i as int));
            assert(d.skip(i - lo + 1) =~= s@.subrange(i + 1, hi as int));
            let m = is_mantissa(s, lo, i);
            let e = is_exponent(s, i + 1, hi);
            return m && e;
        }
        i = i + 1;
    }
    is_mantissa(s, lo, hi)
}

fn lower(c: char) -> (r: char)
    ensures
        r == spec_lower(c),
{
    if 'A' <= c && c <= 'Z' {
        ((c as u32) + 32) as u8 as char
    } else {
        c
    }
}

/// The characters from `lo` to `hi`, lowered, are exactly `word`.
fn lowered_equals(s: &Vec<char>, lo: usize, hi: usize, word: &[char]) -> (r: bool)
    requires
        lo <= hi <= s.len(),
    ensures
        r == (spec_lowered(s@.subrange(lo as int, hi as int)) == word@),
{
    let ghost b = s@.subrange(lo as int, hi as int);
    if hi - lo != word.len() {
        assert(spec_lowered(b).len() != word@.len());
        return false;
    }
    let mut i: usize = 0;
    while i < word.len()
        invariant
            lo <= hi <= s.len(),
            hi - lo == word@.len(),
            i <= word@.len(),
            b == s@.subrange(lo as int, hi as int),
            forall|j: int| 0 <= j < i ==> spec_lower(#[trigger] b[j]) == word@[j],
        decreases word.len() - i,
    {
        assert(b[i as int] == s@[lo + i]);
        if lower(s[lo + i]) != word[i] {
            assert(spec_lowered(b)[i as int] == spec_lower(b[i as int]));
            return false;
        }
        i = i + 1;
    }
    assert(spec_lowered(b) =~= word@);
    true
}

/// The text is read as a number by Rust's `f32` parser
/// (`spec_is_float_literal`).
pub fn is_float_literal(s: &Vec<char>) -> (r: bool)
    ensures
        r == spec_is_float_literal(s@),
{
    let lo: usize = if s.len() > 0 && (s[0] == '+' || s[0] == '-') {
        1
    } else {
        0
    };
    let hi = s.len();
    proof {
        let body = if s@.len() > 0 && (s@[0] == '+' || s@[0] == '-') {
            s@.drop_first()
        } else {
            s@
        };
        assert(body =~= s@.subrange(lo as int, hi as int));
    }
    lowered_equals(s, lo, hi, &['i', 'n', 'f']) || lowered_equals(
        s,
        lo,
        hi,
        &['i', 'n', 'f', 'i', 'n', 'i', 't', 'y'],
    ) || lowered_equals(s, lo, hi, &['n', 'a', 'n']) || is_decimal(s, lo, hi)
}

} // verus!
