use deimos_core::coderef::CodeRef;
use deimos_core::element::{CodeElement, Element};
use deimos_core::token::Token;

fn tok(t: Token) -> CodeRef<Token> {
    CodeRef::CodeRef { item: t, code_start: 0, code_end: 0, line_number: 1 }
}

fn tk(t: Token) -> CodeElement {
    Element::codeelement_from_token(tok(t))
}

fn made(ids: Vec<Token>, els: Vec<CodeElement>) -> Element {
    Element {
        identifiers: ids.into_iter().map(tok).collect(),
        elements: els.into_iter().map(Box::new).collect(),
    }
}

fn wrap(e: Element) -> CodeElement {
    CodeRef::CodeRef { item: e, code_start: 0, code_end: 0, line_number: 1 }
}

fn name(n: &str) -> CodeElement {
    tk(Token::Identifier(String::from(n)))
}

fn number(n: &str) -> CodeElement {
    tk(Token::Number(String::from(n)))
}

fn block() -> CodeElement {
    wrap(made(vec![], vec![tk(Token::Break)]))
}

#[test]
fn generic_for_is_a_statement() {
    let e = made(vec![Token::For, Token::In, Token::Do, Token::End], vec![name("k"), number("1"), block()]);
    assert!(e.is_statement());
    let wrong = made(vec![Token::For, Token::In, Token::End, Token::Do], vec![name("k"), number("1"), block()]);
    assert!(!wrong.is_statement());
}

#[test]
fn binary_operation_needs_two_expressions() {
    let good = made(vec![Token::Plus], vec![number("1"), number("2")]);
    assert!(good.is_exp());
    let bad = made(vec![Token::Plus], vec![number("1"), tk(Token::Comma)]);
    assert!(!bad.is_exp());
}

#[test]
fn method_call_is_a_function_call() {
    let args = wrap(made(vec![Token::LeftParen, Token::RightParen], vec![]));
    let e = made(vec![Token::Colon], vec![name("obj"), name("m"), args]);
    assert!(e.is_function_call());
    assert!(e.is_statement());
}
