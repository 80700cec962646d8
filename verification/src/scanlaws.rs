//! What holds of every scan: the tokens cover the code end to end, each at
//! least one character long, and each carries the line it starts on.

use vstd::prelude::*;
use crate::token::{TokenView, spec_token_text, spec_keyword};
use crate::coderef::CodeRef;
use crate::scanspec::{
    ScanFault, spec_peek, spec_run_end, spec_word_end, spec_number_end, spec_scan_number,
    spec_long_open, spec_long_open_from, lemma_long_open_from_end, spec_long_close,
    spec_long_body, spec_scan_long, spec_string_body, spec_scan_string, spec_line_end,
    spec_scan_comment, spec_scan_word, spec_next_token, spec_tokens_from, spec_tokens,
};
use crate::text::lemma_repeat_len;

verus! {

proof fn lemma_run_end(c: Seq<char>, pos: int, pat: Seq<char>)
    requires
        0 <= pos <= c.len(),
    ensures
        pos <= spec_run_end(c, pos, pat) <= c.len(),
    decreases c.len() - pos,
{
    if pat.len() > 0 && spec_peek(c, pos, pat) {
        lemma_run_end(c, pos + pat.len(), pat);
    }
}

proof fn lemma_word_end(c: Seq<char>, pos: int)
    requires
        0 <= pos <= c.len(),
    ensures
        pos <= spec_word_end(c, pos) <= c.len(),
    decreases c.len() - pos,
{
    if 0 <= pos < c.len() && crate::token::spec_is_word_char(c[pos], false) {
        lemma_word_end(c, pos + 1);
    }
}

proof fn lemma_number_end(c: Seq<char>, pos: int, dots: nat, exp: bool)
    requires
        0 <= pos <= c.len(),
    ensures
        pos <= spec_number_end(c, pos, dots, exp).0 <= c.len(),
    decreases c.len() - pos,
{
    if 0 <= pos < c.len() {
        let ch = c[pos];
        if crate::token::spec_is_number_char(ch) {
            lemma_number_end(c, pos + 1, if ch == '.' { dots + 1 } else { dots }, exp);
        } else if (ch == 'e' || ch == 'E') && !exp && dots == 0 {
            lemma_number_end(c, pos + 1, dots, true);
        } else if ch == '-' && exp {
            lemma_number_end(c, pos + 1, dots, exp);
        }
    }
}

proof fn lemma_long_body(c: Seq<char>, pos: int, level: nat, acc: Seq<char>)
    requires
        0 <= pos,
    ensures
        spec_long_body(c, pos, level, acc) matches Some((_, e)) ==> pos < e <= c.len(),
    decreases c.len() - pos,
{
    lemma_repeat_len('=', level);
    if 0 <= pos < c.len() && !(c[pos] == ']' && spec_peek(c, pos + 1, spec_long_close(level))) {
        lemma_long_body(c, pos + 1, level, acc.push(c[pos]));
    }
}

proof fn lemma_string_body(c: Seq<char>, pos: int, quote: Seq<char>, acc: Seq<char>)
    requires
        0 <= pos,
    ensures
        spec_string_body(c, pos, quote, acc) matches Some((_, e)) ==> pos < e <= c.len(),
    decreases c.len() - pos,
{
    if 0 <= pos < c.len() && seq![c[pos]] != quote {
        lemma_string_body(c, pos + 1, quote, acc.push(c[pos]));
    }
}

proof fn lemma_line_end(c: Seq<char>, pos: int)
    requires
        0 <= pos <= c.len(),
    ensures
        pos <= spec_line_end(c, pos) <= c.len(),
    decreases c.len() - pos,
{
    if 0 <= pos < c.len() && !crate::token::spec_is_eol(c[pos]) {
        lemma_line_end(c, pos + 1);
    }
}

proof fn lemma_long_open(c: Seq<char>, pos: int)
    requires
        1 <= pos <= c.len(),
    ensures
        spec_long_open(c, pos) matches Some((level, e)) ==> pos < e <= c.len(),
{
    let start = if c[pos - 1] == '[' {
        pos
    } else {
        pos + 1
    };
    lemma_long_open_from_end(c, start, 0);
}

proof fn lemma_scan_number(c: Seq<char>, pos: int, first: Seq<char>)
    requires
        0 <= pos <= c.len(),
    ensures
        spec_scan_number(c, pos, first) matches Ok(Some((_, e))) ==> pos <= e <= c.len(),
{
    if first.len() == 1 && crate::token::spec_is_number_char(first[0]) {
        let dots0: nat = if first[0] == '.' { 1 } else { 0 };
        lemma_number_end(c, pos, dots0, false);
    }
}

/// Every token the scanner reads is at least one character long and ends
/// within the code.
pub proof fn lemma_next_token_progress(c: Seq<char>, pos: int)
    requires
        0 <= pos < c.len(),
    ensures
        spec_next_token(c, pos) matches Ok((_, np)) ==> pos < np <= c.len(),
{
    let p = pos + 1;
    lemma_run_end(c, p, seq![' ']);
    lemma_word_end(c, p);
    lemma_scan_number(c, p, seq!['.']);
    lemma_scan_number(c, p, seq![c[pos]]);
    lemma_long_open(c, p);
    lemma_string_body(c, p, seq!['"'], seq![]);
    lemma_string_body(c, p, seq!['\''], seq![]);
    if let Some((level, q)) = spec_long_open(c, p) {
        lemma_long_body(c, q, level, seq![]);
    }
    if p + 1 <= c.len() {
        lemma_long_open(c, p + 1);
        lemma_line_end(c, p + 1);
        if let Some((level, q)) = spec_long_open(c, p + 1) {
            lemma_long_body(c, q, level, seq![]);
        }
    }
}

/// The tokens cover the code from `from` to `to` end to end: the first
/// starts at `from`, each ends where the next starts, the last ends at `to`,
/// and none is empty.
pub open spec fn tiles(ts: Seq<CodeRef<TokenView>>, from: int, to: int) -> bool {
    &&& ts.len() == 0 ==> from >= to
    &&& ts.len() > 0 ==> ts[0]->code_start == from && ts.last()->code_end == to
    &&& forall|i: int| 0 <= i < ts.len() - 1 ==> #[trigger] ts[i]->code_end == ts[i + 1]->code_start
    &&& forall|i: int| 0 <= i < ts.len() ==> #[trigger] ts[i]->code_start < ts[i]->code_end
}

/// How many end-of-line tokens there are.
pub open spec fn count_eol(ts: Seq<CodeRef<TokenView>>) -> nat
    decreases ts.len(),
{
    if ts.len() == 0 {
        0
    } else {
        count_eol(ts.drop_last()) + if ts.last()->item is EOL {
            1nat
        } else {
            0nat
        }
    }
}

/// Each token carries the line it starts on: the first line, plus one for
/// every end-of-line token before it.
pub open spec fn lines_counted(ts: Seq<CodeRef<TokenView>>, first_line: int) -> bool {
    forall|i: int| 0 <= i < ts.len() ==> #[trigger] ts[i]->line_number == first_line + count_eol(
        ts.take(i),
    )
}

proof fn lemma_count_eol_prepend(x: CodeRef<TokenView>, ts: Seq<CodeRef<TokenView>>)
    ensures
        count_eol(seq![x] + ts) == count_eol(ts) + if x->item is EOL {
            1nat
        } else {
            0nat
        },
    decreases ts.len(),
{
    if ts.len() > 0 {
        lemma_count_eol_prepend(x, ts.drop_last());
        assert((seq![x] + ts).drop_last() =~= seq![x] + ts.drop_last());
        assert((seq![x] + ts).last() == ts.last());
    } else {
        assert((seq![x] + ts).drop_last() =~= Seq::<CodeRef<TokenView>>::empty());
        assert((seq![x] + ts).last() == x);
        assert(count_eol(Seq::<CodeRef<TokenView>>::empty()) == 0);
        assert(seq![x] + ts =~= seq![x]);
    }
}

/// From any position, on success, the tokens cover the rest of the code end
/// to end, and each carries its line.
pub proof fn lemma_tokens_from(c: Seq<char>, pos: int, line: int)
    requires
        0 <= pos <= c.len(),
        c.len() + 1 < usize::MAX,
        0 <= line <= pos + 1,
    ensures
        spec_tokens_from(c, pos, line) matches Ok(ts) ==> tiles(ts, pos, c.len() as int)
            && lines_counted(ts, line),
    decreases c.len() - pos,
{
    if pos < c.len() {
        lemma_next_token_progress(c, pos);
        if let Ok((t, np)) = spec_next_token(c, pos) {
            let next_line = if t is EOL {
                line + 1
            } else {
                line
            };
            lemma_tokens_from(c, np, next_line);
            if let Ok(rest) = spec_tokens_from(c, np, next_line) {
                let x = CodeRef::CodeRef {
                    item: t,
                    code_start: pos as usize,
                    code_end: np as usize,
                    line_number: line as usize,
                };
                let ts = seq![x] + rest;
                assert forall|i: int| 0 <= i < ts.len() - 1 implies #[trigger] ts[i]->code_end
                    == ts[i + 1]->code_start by {
                    if i > 0 {
                        assert(ts[i] == rest[i - 1]);
                        assert(ts[i + 1] == rest[i]);
                    }
                }
                assert forall|i: int| 0 <= i < ts.len() implies #[trigger] ts[i]->code_start
                    < ts[i]->code_end by {
                    if i > 0 {
                        assert(ts[i] == rest[i - 1]);
                    }
                }
                assert forall|i: int| 0 <= i < ts.len() implies #[trigger] ts[i]->line_number
                    == line + count_eol(ts.take(i)) by {
                    if i == 0 {
                        assert(ts.take(0) =~= Seq::<CodeRef<TokenView>>::empty());
                    } else {
                        assert(ts[i] == rest[i - 1]);
                        assert(ts.take(i) =~= seq![x] + rest.take(i - 1));
                        lemma_count_eol_prepend(x, rest.take(i - 1));
                    }
                }
                if rest.len() > 0 {
                    assert(ts.last() == rest.last());
                }
            }
        }
    }
}

/// On success, the tokens of the code cover it end to end, none of them
/// empty, and each carries the line it starts on, lines counting from 1.
pub proof fn lemma_scan_tiles_code(c: Seq<char>)
    requires
        c.len() + 1 < usize::MAX,
    ensures
        spec_tokens(c) matches Ok(ts) ==> tiles(ts, 0, c.len() as int) && lines_counted(ts, 1),
{
    lemma_tokens_from(c, 0, 1);
}

} // verus!

verus! {

/// Tokens that tile the code start in order: each after the one before.
proof fn lemma_tiles_ordered(ts: Seq<CodeRef<TokenView>>, from: int, to: int, i: int, j: int)
    requires
        tiles(ts, from, to),
        0 <= i < j < ts.len(),
    ensures
        ts[i]->code_start < ts[j]->code_start,
    decreases j - i,
{
    assert(ts[j - 1]->code_end == ts[j]->code_start);
    assert(ts[j - 1]->code_start < ts[j - 1]->code_end);
    if i < j - 1 {
        lemma_tiles_ordered(ts, from, to, i, j - 1);
    }
}

/// On success, the tokens of the code come in source order: each starts
/// after the one before it, and each carries the line it starts on.
pub proof fn lemma_scan_in_order(c: Seq<char>)
    requires
        c.len() + 1 < usize::MAX,
    ensures
        spec_tokens(c) matches Ok(ts) ==> (forall|i: int, j: int|
            0 <= i < j < ts.len() ==> #[trigger] ts[i]->code_start < #[trigger] ts[j]->code_start)
            && lines_counted(ts, 1),
{
    lemma_scan_tiles_code(c);
    if let Ok(ts) = spec_tokens(c) {
        assert forall|i: int, j: int| 0 <= i < j < ts.len() implies #[trigger] ts[i]->code_start
            < #[trigger] ts[j]->code_start by {
            lemma_tiles_ordered(ts, 0, c.len() as int, i, j);
        }
    }
}

/// The token is written with its own characters wherever it stands: a
/// symbol, a keyword, a name or a number (not a string, a comment, white
/// space or an end of line, whose text the scanner rewrites).
pub open spec fn spelled_as_read(t: TokenView) -> bool {
    !(t is String || t is MultiLineString || t is Comment || t is WhiteSpace || t is EOL
        || t is EOF)
}

/// A keyword is written as the word that gave it.
proof fn lemma_keyword_text(word: Seq<char>)
    ensures
        spec_keyword(word) matches Some(k) ==> spec_token_text(k) == word,
{
    reveal_strlit("and");
    reveal_strlit("break");
    reveal_strlit("do");
    reveal_strlit("else");
    reveal_strlit("elseif");
    reveal_strlit("end");
    reveal_strlit("false");
    reveal_strlit("for");
    reveal_strlit("function");
    reveal_strlit("if");
    reveal_strlit("in");
    reveal_strlit("local");
    reveal_strlit("nil");
    reveal_strlit("not");
    reveal_strlit("or");
    reveal_strlit("repeat");
    reveal_strlit("return");
    reveal_strlit("then");
    reveal_strlit("true");
    reveal_strlit("until");
    reveal_strlit("while");
}

/// The token read at `pos` is the one whose text is the characters it spans:
/// `>=` gives `GreaterEqual` (not `>`), `==` gives `EqualEqual`, `and` gives
/// `And`, a name gives the name, and so on for every token that is written
/// with its own characters.
pub proof fn law_token_spans_its_text(c: Seq<char>, pos: int)
    requires
        0 <= pos < c.len(),
    ensures
        spec_next_token(c, pos) matches Ok((t, q)) ==> (spelled_as_read(t) ==> c.subrange(pos, q)
            == spec_token_text(t)),
{
    lemma_next_token_progress(c, pos);
    let ch = c[pos];
    let p = pos + 1;
    match spec_next_token(c, pos) {
        Ok((t, q)) => {
            if spelled_as_read(t) {
                if q == p {
                    assert(c.subrange(pos, q) =~= seq![ch]);
                } else if q == p + 1 {
                    assert(c.subrange(pos, q) =~= seq![ch, c[p]]);
                } else if q == p + 2 && ch == '.' && spec_peek(c, p, seq!['.', '.']) {
                    assert(c.subrange(pos, q) =~= seq![ch, c[p], c[p + 1]]);
                }
                reveal_strlit("+");
                reveal_strlit("-");
                reveal_strlit("*");
                reveal_strlit("/");
                reveal_strlit("%");
                reveal_strlit("^");
                reveal_strlit("#");
                reveal_strlit("<");
                reveal_strlit(">");
                reveal_strlit("=");
                reveal_strlit("(");
                reveal_strlit(")");
                reveal_strlit("{");
                reveal_strlit("}");
                reveal_strlit("[");
                reveal_strlit("]");
                reveal_strlit(";");
                reveal_strlit(":");
                reveal_strlit(",");
                reveal_strlit(".");
                reveal_strlit("..");
                reveal_strlit("==");
                reveal_strlit("~=");
                reveal_strlit(">=");
                reveal_strlit("<=");
                reveal_strlit("...");
                let word_end = spec_word_end(c, p);
                lemma_word_end(c, p);
                lemma_number_end(c, p, 1, false);
                lemma_number_end(c, p, 0, false);
                lemma_keyword_text(seq![ch] + c.subrange(p, word_end));
                assert(seq![ch] + c.subrange(p, word_end) =~= c.subrange(pos, word_end));
                let d0: nat = if ch == '.' { 1 } else { 0 };
                assert(seq![ch] + c.subrange(p, spec_number_end(c, p, d0, false).0) =~= c.subrange(
                    pos,
                    spec_number_end(c, p, d0, false).0,
                ));
                if p < c.len() {
                    assert(c.subrange(p, p + 1)[0] == c[p]);
                }
                if p + 1 < c.len() {
                    assert(c.subrange(p, p + 2)[1] == c[p + 1]);
                }
            }
        },
        Err(_) => {},
    }
}

} // verus!
