use deimos_core::coderef::CodeRef;
use deimos_core::diagnostics::is_reportable;
use deimos_core::element::Element;
use deimos_core::error::is_displayable;
use deimos_core::error::scanner::ScannerError;
use deimos_core::scanner::scan;
use deimos_core::syntaxerror::SyntaxError;
use deimos_core::token::Token;

fn code_token(t: Token, start: usize) -> CodeRef<Token> {
    CodeRef::CodeRef { item: t, code_start: start, code_end: start + 1, line_number: 1 }
}

#[test]
fn scanner_error_report() {
    match scan("x = $") {
        Err(e) => {
            match &e {
                ScannerError::IC(info) => assert!(is_displayable(info)),
                _ => panic!("an unknown character was expected"),
            }
            assert_eq!(
                e.to_display_string(),
                "error: unknown character\n    --> buffer:1:6\n     |\n 1   |  x = $\n     |       ^ unknown character\n"
            );
        },
        Ok(_) => panic!("an error was expected"),
    }
}

#[test]
fn general_scanner_error_report() {
    assert_eq!(ScannerError::general("stuck").to_display_string(), "ERROR : stuck");
}

#[test]
fn syntax_error_without_code_cannot_be_reported() {
    match SyntaxError::general(3, 5, "oops") {
        SyntaxError::GEN { info } => {
            assert_eq!(info.pos, 3);
            assert_eq!(info.span, 3);
            assert!(!is_reportable(&info));
        },
    }
}

#[test]
fn element_display() {
    let mut e = Element::new();
    e.identifiers.push(code_token(Token::Identifier(String::from("x")), 0));
    assert_eq!(e.to_display_string(), "<x>");
    let inner = Element::codeelement_from_token(code_token(Token::Number(String::from("1")), 4));
    e.add_to_elements(inner);
    assert_eq!(e.to_display_string(), "<x,  | <1>, >");
}
