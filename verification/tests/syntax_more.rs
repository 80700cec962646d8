use deimos_core::codewrap::CodeWrap;
use deimos_core::language;
use deimos_core::syntax::element::SyntaxElement;
use deimos_core::syntax::field::process as field_process;
use deimos_core::syntax::laststatement::process as last_process;
use deimos_core::syntax::namelist::process as namelist_process;
use deimos_core::syntax::statement::doend;
use deimos_core::syntax::statement::localassignment::process as local_process;
use deimos_core::syntax::statement::whiledoend;
use deimos_core::syntax::tableconstructor::process as table_process;
use deimos_core::syntax::SyntaxResult;
use deimos_core::token::Token;

fn w(e: SyntaxElement, s: usize, t: usize) -> CodeWrap<SyntaxElement> {
    CodeWrap::CodeWrap(e, s, t)
}

fn tok(t: Token, s: usize) -> CodeWrap<SyntaxElement> {
    w(SyntaxElement::Token(t), s, s)
}

fn ident(n: &str) -> SyntaxElement {
    SyntaxElement::Token(Token::Identifier(String::from(n)))
}

fn num(n: &str) -> SyntaxElement {
    SyntaxElement::Exp(Box::new(SyntaxElement::Token(Token::Number(String::from(n)))))
}

fn show(c: &CodeWrap<SyntaxElement>) -> String {
    c.item().to_display_string()
}

#[test]
fn fields_of_each_kind() {
    // [1] = 2, a = 3, 4
    let mut run = vec![
        tok(Token::LeftBracket, 0),
        w(num("1"), 1, 1),
        tok(Token::RightBracket, 2),
        tok(Token::Equal, 3),
        w(num("2"), 4, 4),
        tok(Token::Comma, 5),
        w(SyntaxElement::Exp(Box::new(SyntaxElement::PrefixExp(Box::new(SyntaxElement::Var(Box::new(ident("a"))))))), 6, 6),
        tok(Token::Equal, 7),
        w(num("3"), 8, 8),
        tok(Token::Comma, 9),
        w(num("4"), 10, 10),
    ];
    assert!(field_process(&mut run));
    assert_eq!(run.len(), 5);
    assert_eq!(show(&run[0]), "(= 1 2)");
    assert_eq!(run[0].start(), 0);
    assert_eq!(run[0].end(), 4);
    assert_eq!(show(&run[2]), "(= a 3)");
    assert!(matches!(run[4].item(), SyntaxElement::Field(_)));
    // nothing more to do
    assert!(!field_process(&mut run));
}

#[test]
fn name_list_from_variables() {
    let list = SyntaxElement::VarList(vec![Box::new(SyntaxElement::Var(Box::new(ident("a")))), Box::new(SyntaxElement::Var(Box::new(ident("b"))))]);
    let mut run = vec![tok(Token::Local, 0), w(list, 6, 9)];
    assert!(matches!(namelist_process(&mut run), SyntaxResult::Done));
    assert_eq!(show(&run[1]), "<Name a, b, >");
    assert_eq!(run[1].start(), 6);
    assert_eq!(run[1].end(), 9);
    assert!(matches!(namelist_process(&mut run), SyntaxResult::Nothing));
}

#[test]
fn name_list_refuses_other_variables() {
    let inner = SyntaxElement::VarDot(Box::new(SyntaxElement::PrefixExp(Box::new(SyntaxElement::Var(Box::new(ident("t")))))), Box::new(ident("x")));
    let list = SyntaxElement::VarList(vec![Box::new(SyntaxElement::Var(Box::new(ident("a")))), Box::new(inner)]);
    let mut run = vec![w(list, 2, 7)];
    match namelist_process(&mut run) {
        SyntaxResult::Error(s, e, d) => {
            assert_eq!((s, e), (2, 7));
            assert_eq!(d, "attempted to convert t.x to a name, but failed.");
        },
        _ => panic!("an error was expected"),
    }
    // the list was taken out of the run
    assert_eq!(run.len(), 0);
}

#[test]
fn last_statements() {
    let mut run = vec![tok(Token::Break, 3)];
    assert!(last_process(&mut run));
    assert!(matches!(run[0].item(), SyntaxElement::StatementLastBreak));
    let mut run = vec![tok(Token::Return, 0)];
    assert!(last_process(&mut run));
    assert!(matches!(run[0].item(), SyntaxElement::StatementLastReturn(None)));
    let mut run = vec![tok(Token::Return, 0), w(num("1"), 7, 8)];
    assert!(last_process(&mut run));
    assert!(matches!(run[0].item(), SyntaxElement::StatementLastReturn(Some(_))));
    assert_eq!(run[0].end(), 8);
    let mut run = vec![tok(Token::Break, 0), tok(Token::Break, 1)];
    assert!(!last_process(&mut run));
    assert_eq!(run.len(), 2);
}

#[test]
fn local_assignments() {
    let names = || w(SyntaxElement::NameList(vec![Box::new(ident("a"))]), 6, 6);
    let mut run = vec![tok(Token::Local, 0), names(), tok(Token::Equal, 8), w(SyntaxElement::ExpList(vec![Box::new(num("1"))]), 10, 10)];
    assert!(local_process(&mut run));
    assert_eq!(run.len(), 1);
    assert_eq!(show(&run[0]), "(= local <Name a, > <Exp 1, >)");
    assert_eq!((run[0].start(), run[0].end()), (0, 10));
    let mut run = vec![tok(Token::Local, 0), names()];
    assert!(local_process(&mut run));
    assert_eq!(show(&run[0]), "(= local <Name a, >)");
    let mut run = vec![tok(Token::Local, 0), names(), tok(Token::Equal, 8)];
    assert!(!local_process(&mut run));
    assert_eq!(run.len(), 3);
}

#[test]
fn do_block_opens_and_closes() {
    let mut run = vec![tok(Token::Do, 4)];
    match doend::process(&mut run) {
        SyntaxResult::Wrap(CodeWrap::CodeWrap(SyntaxElement::StatementDoEnd(inner), 4, 4)) => {
            assert!(matches!(*inner, SyntaxElement::Empty));
        },
        _ => panic!("the block should open"),
    }
    assert_eq!(run.len(), 1);
    let assign = SyntaxElement::StatementAssign(Box::new(SyntaxElement::VarList(Vec::new())), Box::new(SyntaxElement::ExpList(Vec::new())));
    let mut stack = vec![w(assign, 0, 3)];
    match doend::finalize(&mut stack) {
        SyntaxResult::Finished(SyntaxElement::StatementDoEnd(block)) => assert!(block.is_block()),
        _ => panic!("the block should close"),
    }
    assert_eq!(stack.len(), 0);
    let mut stack = vec![tok(Token::Nil, 0)];
    assert!(matches!(doend::finalize(&mut stack), SyntaxResult::Error(0, 0, _)));
}

#[test]
fn while_block_opens() {
    let mut run = vec![tok(Token::While, 1), w(num("1"), 7, 7), tok(Token::Do, 9)];
    match whiledoend::process(&mut run) {
        SyntaxResult::Wrap(CodeWrap::CodeWrap(SyntaxElement::StatementWhile(_, body), 1, 1)) => {
            assert!(matches!(*body, SyntaxElement::Empty));
        },
        _ => panic!("the loop should open"),
    }
    assert_eq!(run.len(), 0);
    let mut run = vec![tok(Token::While, 1), tok(Token::Do, 9)];
    assert!(matches!(whiledoend::process(&mut run), SyntaxResult::Nothing));
    let mut stack: Vec<CodeWrap<SyntaxElement>> = Vec::new();
    assert!(matches!(whiledoend::finalize(Box::new(num("1")), &mut stack), SyntaxResult::Error(0, 0, _)));
}

#[test]
fn table_start() {
    let mut run = vec![tok(Token::Nil, 0), tok(Token::LeftMoustache, 1), tok(Token::LeftMoustache, 2)];
    assert!(matches!(table_process(&mut run), SyntaxResult::TableConst(1)));
    let mut run = vec![tok(Token::Nil, 0)];
    assert!(matches!(table_process(&mut run), SyntaxResult::Nothing));
}

#[test]
fn smallest_grammar_reduces_binary_operations() {
    let t = |t: Token, s: usize| CodeWrap::CodeWrap(language::SyntaxElement::Token(t), s, s + 1);
    let mut run = vec![t(Token::Number(String::from("1")), 0), t(Token::Star, 2), t(Token::Number(String::from("2")), 4)];
    assert!(language::SyntaxElement::reduce(&mut run));
    assert_eq!(run.len(), 1);
    assert_eq!(run[0].item().to_display_string(), "(* 1 2)");
    assert_eq!((run[0].start(), run[0].end()), (0, 5));
    // the sides are not checked
    let mut run = vec![t(Token::Plus, 0), t(Token::Minus, 1), t(Token::Plus, 2)];
    assert!(language::SyntaxElement::reduce(&mut run));
    let mut run = vec![t(Token::Plus, 0), t(Token::Comma, 1)];
    assert!(!language::SyntaxElement::reduce(&mut run));
}
