use deimos_core::codewrap::CodeWrap;
use deimos_core::syntax::element::SyntaxElement;
use deimos_core::syntax::SyntaxResult;
use deimos_core::syntax::var::process as var_process;
use deimos_core::syntax::varlist::process as varlist_process;
use deimos_core::token::Token;

fn identifier(name: &str) -> CodeWrap<SyntaxElement> {
    CodeWrap::CodeWrap(SyntaxElement::Token(Token::Identifier(String::from(name))), 0, 0)
}

fn token(t: Token) -> CodeWrap<SyntaxElement> {
    CodeWrap::CodeWrap(SyntaxElement::Token(t), 0, 0)
}

fn number(text: &str) -> CodeWrap<SyntaxElement> {
    CodeWrap::CodeWrap(
        SyntaxElement::Exp(Box::new(SyntaxElement::Token(Token::Number(String::from(text))))),
        0,
        0,
    )
}

fn wrap_in(item: CodeWrap<SyntaxElement>, f: fn(Box<SyntaxElement>) -> SyntaxElement) -> CodeWrap<SyntaxElement> {
    let CodeWrap::CodeWrap(element, _, _) = item;
    CodeWrap::CodeWrap(f(Box::new(element)), 0, 0)
}

fn var(item: CodeWrap<SyntaxElement>) -> CodeWrap<SyntaxElement> {
    wrap_in(item, SyntaxElement::Var)
}

fn prefixexp(item: CodeWrap<SyntaxElement>) -> CodeWrap<SyntaxElement> {
    wrap_in(item, SyntaxElement::PrefixExp)
}

fn exp(item: CodeWrap<SyntaxElement>) -> CodeWrap<SyntaxElement> {
    wrap_in(item, SyntaxElement::Exp)
}

fn is_done(r: SyntaxResult) -> bool {
    matches!(r, SyntaxResult::Done)
}

#[test]
fn name() {
    let mut input_tokens = vec![identifier("bob"), identifier("bob"), identifier("bob")];
    // it should catch all of them the first time
    assert!(is_done(var_process(&mut input_tokens)));
    // there shouldn't be any other matches
    assert!(!is_done(var_process(&mut input_tokens)));
}

#[test]
fn prefixexp_exp() {
    let mut input_tokens = vec![
        prefixexp(var(identifier("bob"))),
        token(Token::LeftBracket),
        exp(number("1.0")),
        token(Token::RightBracket),
    ];
    assert!(is_done(var_process(&mut input_tokens)));
    assert_eq!(input_tokens.len(), 1);
    assert!(!is_done(var_process(&mut input_tokens)));
}

#[test]
fn prefixexp_dot_name() {
    let mut input_tokens = vec![
        prefixexp(var(identifier("bob"))),
        token(Token::Period),
        identifier("bob"),
    ];
    assert!(is_done(var_process(&mut input_tokens)));
    assert_eq!(input_tokens.len(), 1);
    assert!(!is_done(var_process(&mut input_tokens)));
}

#[test]
fn varlist() {
    let mut input_tokens = vec![
        var(identifier("bob")),
        token(Token::Comma),
        var(identifier("bob")),
        token(Token::Comma),
        var(identifier("bob")),
    ];
    assert!(is_done(varlist_process(&mut input_tokens)));
    assert!(!is_done(varlist_process(&mut input_tokens)));
}

#[test]
fn varlist_failed() {
    let mut input_tokens = vec![var(identifier("bob")), var(identifier("bob")), var(identifier("bob"))];
    // the first var becomes a list of one, so there are still three elements
    assert!(is_done(varlist_process(&mut input_tokens)));
    assert_eq!(input_tokens.len(), 3);
}
