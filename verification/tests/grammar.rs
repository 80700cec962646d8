use deimos_core::codewrap::CodeWrap;
use deimos_core::grammar::{
    process_exp, process_exp_list, process_statement, process_statements_to_chunk, process_var,
    process_var_list, SyntaxElement,
};
use deimos_core::syntaxerror::SyntaxError;
use deimos_core::token::Token;

fn w(e: SyntaxElement, s: usize, t: usize) -> CodeWrap<SyntaxElement> {
    CodeWrap::CodeWrap(e, s, t)
}

fn tok(t: Token, s: usize) -> CodeWrap<SyntaxElement> {
    w(SyntaxElement::Token(t), s, s)
}

fn item(c: &CodeWrap<SyntaxElement>) -> &SyntaxElement {
    c.item()
}

fn show(c: &CodeWrap<SyntaxElement>) -> String {
    c.item().to_display_string()
}

fn description(e: &SyntaxError) -> (usize, usize, String) {
    match e {
        SyntaxError::GEN { info } => (info.pos, info.span, info.description.clone()),
    }
}

#[test]
fn names_become_variables() {
    let mut run = vec![tok(Token::Equal, 0), tok(Token::Identifier(String::from("a")), 2)];
    assert!(matches!(process_var(&mut run), Ok(true)));
    assert!(matches!(item(&run[1]), SyntaxElement::Var(_)));
    assert_eq!(run[1].start(), 2);
    assert!(matches!(process_var(&mut run), Ok(false)));
}

#[test]
fn literals_and_operators_become_expressions() {
    // 1 + 2
    let mut run = vec![
        tok(Token::Number(String::from("1")), 0),
        tok(Token::Plus, 2),
        tok(Token::Number(String::from("2")), 4),
    ];
    assert!(matches!(process_exp(&mut run), Ok(true)));
    assert!(matches!(process_exp(&mut run), Ok(true)));
    assert!(matches!(process_exp(&mut run), Ok(true)));
    assert_eq!(run.len(), 1);
    assert_eq!(show(&run[0]), "(+ 1 2)");
    assert_eq!(run[0].start(), 0);
    assert_eq!(run[0].end(), 4);
    assert!(matches!(process_exp(&mut run), Ok(false)));
}

#[test]
fn unary_operator() {
    let mut run = vec![tok(Token::Minus, 0), tok(Token::True, 1)];
    assert!(matches!(process_exp(&mut run), Ok(true)));
    assert!(matches!(process_exp(&mut run), Ok(true)));
    assert_eq!(run.len(), 1);
    assert_eq!(show(&run[0]), "(- true)");
}

#[test]
fn expression_lists() {
    let e = |t: &str, s: usize| w(SyntaxElement::Exp(Box::new(SyntaxElement::Token(Token::Number(String::from(t))))), s, s);
    let mut run = vec![e("1", 0), tok(Token::Comma, 1), e("2", 2), tok(Token::Comma, 3), e("3", 4)];
    assert!(matches!(process_exp_list(&mut run), Ok(true)));
    assert_eq!(run.len(), 1);
    assert_eq!(show(&run[0]), "<Exp 1, 2, 3, >");
    assert_eq!(run[0].start(), 0);
    assert_eq!(run[0].end(), 4);
}

#[test]
fn a_list_of_one_ends_at_zero() {
    let mut run = vec![w(SyntaxElement::Var(Box::new(SyntaxElement::Token(Token::Identifier(String::from("x"))))), 3, 5)];
    assert!(matches!(process_var_list(&mut run), Ok(true)));
    assert_eq!(run[0].start(), 3);
    assert_eq!(run[0].end(), 0);
    assert_eq!(show(&run[0]), "<Var x, >");
}

#[test]
fn missing_item_after_comma() {
    let v = w(SyntaxElement::Var(Box::new(SyntaxElement::Token(Token::Identifier(String::from("x"))))), 0, 0);
    let mut run = vec![v, tok(Token::Comma, 1), tok(Token::Equal, 3)];
    match process_var_list(&mut run) {
        Err(e) => {
            let (pos, span, d) = description(&e);
            assert_eq!(pos, 3);
            assert_eq!(span, 1);
            assert_eq!(d, "var an expression after the comma");
        },
        Ok(_) => panic!("an error was expected"),
    }
    assert_eq!(run.len(), 3);
}

#[test]
fn assignment_and_chunk() {
    let vl = w(SyntaxElement::VarList(Vec::new()), 0, 1);
    let el = w(SyntaxElement::ExpList(Vec::new()), 4, 6);
    let mut run = vec![vl, tok(Token::Equal, 2), el];
    assert!(matches!(process_statement(&mut run), Ok(false)));
    assert_eq!(run.len(), 1);
    assert!(matches!(item(&run[0]), SyntaxElement::StatementAssign(_, _)));
    assert_eq!(run[0].start(), 0);
    assert_eq!(run[0].end(), 6);
    let mut run2 = vec![run.remove(0), w(SyntaxElement::LastStat, 8, 12)];
    assert!(matches!(process_statements_to_chunk(&mut run2), Ok(true)));
    assert_eq!(run2.len(), 1);
    assert_eq!(run2[0].start(), 0);
    assert_eq!(run2[0].end(), 12);
    assert_eq!(show(&run2[0]), "(= <Var > <Exp >)\nSyntaxElement not defined!!\n");
}

#[test]
fn chunk_refuses_non_statements() {
    let mut run = vec![tok(Token::Nil, 0), w(SyntaxElement::LastStat, 2, 4)];
    match process_statements_to_chunk(&mut run) {
        Err(e) => assert_eq!(description(&e).2, "must be a statement"),
        Ok(_) => panic!("an error was expected"),
    }
    let mut run = vec![tok(Token::Nil, 0)];
    match process_statements_to_chunk(&mut run) {
        Err(e) => assert_eq!(description(&e).2, "last line must be a statement"),
        Ok(_) => panic!("an error was expected"),
    }
}
