//! A session that takes code piece by piece: the code it was given, the
//! statements it ran, and the scope they ran in.

use vstd::prelude::*;
use crate::coderef::CodeRef;
use crate::elements::scope::Scope;
use crate::elements::statement::Statement;
use crate::error::scanner::ScannerError;
use crate::scanner::{scan, fault_reported, token_views};
use crate::scanspec::spec_tokens;
use crate::token::{Token, TokenView};

verus! {

/// A session.
pub struct Repl {
    code: String,
    statements: Vec<Statement>,
    scope: Scope,
}

/// The token opens a block: `function`, `if` and `do` open one that `end`
/// closes, `repeat` one that `until` closes. (`while` and `for` open theirs
/// with their `do`.)
pub open spec fn opens_block(t: TokenView) -> bool {
    t is Function || t is If || t is Do || t is Repeat
}

/// The token closes a block: `end` or `until`.
pub open spec fn closes_block(t: TokenView) -> bool {
    t is End || t is Until
}

/// The number of tokens that open a block.
pub open spec fn opened(ts: Seq<CodeRef<TokenView>>) -> nat
    decreases ts.len(),
{
    if ts.len() == 0 {
        0
    } else {
        opened(ts.drop_last()) + if opens_block(ts.last()->item) {
            1nat
        } else {
            0nat
        }
    }
}

/// The number of tokens that close a block.
pub open spec fn closed(ts: Seq<CodeRef<TokenView>>) -> nat
    decreases ts.len(),
{
    if ts.len() == 0 {
        0
    } else {
        closed(ts.drop_last()) + if closes_block(ts.last()->item) {
            1nat
        } else {
            0nat
        }
    }
}

impl Repl {
    /// The code given so far.
    pub closed spec fn spec_code(&self) -> Seq<char> {
        self.code@
    }

    /// The statements run so far.
    pub closed spec fn spec_statements(&self) -> Seq<Statement> {
        self.statements@
    }

    /// The scope the statements run in.
    pub closed spec fn spec_scope(&self) -> Scope {
        self.scope
    }

    /// A session that was given nothing yet, with an empty scope.
    pub fn new() -> (r: Repl)
        ensures
            r.spec_code() == Seq::<char>::empty(),
            r.spec_statements() == Seq::<Statement>::empty(),
            r.spec_scope().wf(),
            r.spec_scope().globals() == Seq::<(String, Statement)>::empty(),
            r.spec_scope().locals() == Seq::<Seq<(String, Statement)>>::empty(),
    {
        Repl { code: String::new(), statements: Vec::new(), scope: Scope::new() }
    }

    /// Whether the text is a complete statement, as far as blocks go: it
    /// scans, and it closes (with `end` or `until`) as many blocks as it
    /// opens (with `function`, `if`, `do` or `repeat`; a `while` or `for`
    /// loop opens with its `do`). An error where the text does not scan.
    pub fn check_for_complete_statement(text: &str) -> (r: Result<bool, ScannerError>)
        requires
            vstd::string::is_ascii(text),
            text@.len() + 1 < usize::MAX,
        ensures
            match spec_tokens(text@) {
                Ok(ts) => r == Ok::<bool, ScannerError>(opened(ts) == closed(ts)),
                Err((f, line)) => r matches Err(e) && fault_reported(e, f, line, text@, "buffer"@),
            },
    {
        let scanner = match scan(text) {
            Ok(s) => s,
            Err(e) => {
                return Err(e);
            },
        };
        let (_, _, tokens) = scanner.into_parts();
        let ghost views = token_views(tokens@);
        let mut opens: usize = 0;
        let mut closes: usize = 0;
        let mut i: usize = 0;
        while i < tokens.len()
            invariant
                i <= tokens@.len(),
                views == token_views(tokens@),
                opens == opened(views.take(i as int)),
                closes == closed(views.take(i as int)),
                opens <= i,
                closes <= i,
            decreases tokens@.len() - i,
        {
            assert(views.take(i + 1).drop_last() =~= views.take(i as int));
            assert(views.take(i + 1).last() == tokens@[i as int]@);
            match tokens[i].item() {
                Token::Function | Token::If | Token::Do | Token::Repeat => {
                    opens = opens + 1;
                },
                Token::End | Token::Until => {
                    closes = closes + 1;
                },
                _ => {},
            }
            i = i + 1;
        }
        assert(views.take(i as int) =~= views);
        Ok(opens == closes)
    }
}

} // verus!
