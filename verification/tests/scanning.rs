use deimos_core::error::scanner::ScannerError;
use deimos_core::scanner::{scan, Scanner};
use deimos_core::token::Token;

fn kinds(code: &str) -> Vec<String> {
    let scanner = match scan(code) {
        Ok(s) => s,
        Err(_) => panic!("the code should scan"),
    };
    let (_, _, tokens) = scanner.into_parts();
    tokens.iter().map(|t| t.item().text()).collect()
}

#[test]
fn scans_an_assignment() {
    assert_eq!(kinds("x = 1"), vec!["x", " ", "=", " ", "1"]);
}

#[test]
fn spaces_run_together() {
    assert_eq!(kinds("a   b"), vec!["a", " ", "b"]);
}

#[test]
fn keywords_and_symbols() {
    let scanner = match scan("while x do end") {
        Ok(s) => s,
        Err(_) => panic!("the code should scan"),
    };
    let (_, _, tokens) = scanner.into_parts();
    assert!(matches!(tokens[0].item(), Token::While));
    assert!(matches!(tokens[2].item(), Token::Identifier(n) if n == "x"));
    assert!(matches!(tokens[4].item(), Token::Do));
    assert!(matches!(tokens[6].item(), Token::End));
}

#[test]
fn an_unknown_character_is_an_error() {
    match scan("x = $") {
        Err(ScannerError::IC(info)) => {
            assert_eq!(info.description, "unknown character");
            // the cursor has moved past the character it could not read
            assert_eq!(info.cursor_pos, 5);
            assert_eq!(info.span, 1);
        },
        _ => panic!("an error was expected"),
    }
}

#[test]
fn the_file_name_is_kept() {
    match Scanner::from_str("$", Some("a.lua")) {
        Err(ScannerError::IC(info)) => assert_eq!(info.file_name, "a.lua"),
        _ => panic!("an error was expected"),
    }
}

#[test]
fn an_unterminated_string_is_an_error() {
    match scan("x = \"abc") {
        Err(ScannerError::UCS(info)) => assert_eq!(info.description, "string not terminated"),
        _ => panic!("an error was expected"),
    }
}

#[test]
fn a_number_with_two_points_is_an_error() {
    match scan("x = 1.2.3") {
        Err(ScannerError::NP(info)) => {
            assert_eq!(info.description, "a number can't have more than 1 decimal point, found 2");
            assert_eq!(info.span, 5);
        },
        _ => panic!("an error was expected"),
    }
}

#[test]
fn a_bracket_after_text_opens_no_long_comment() {
    let scanner = match scan("--a[b]]") {
        Ok(s) => s,
        Err(_) => panic!("the code should scan"),
    };
    let (_, _, tokens) = scanner.into_parts();
    assert_eq!(tokens.len(), 1);
    assert!(matches!(tokens[0].item(), Token::Comment(c) if c == "a[b]]"));
}

#[test]
fn a_long_comment() {
    let scanner = match scan("--[[a]]") {
        Ok(s) => s,
        Err(_) => panic!("the code should scan"),
    };
    let (_, _, tokens) = scanner.into_parts();
    assert_eq!(tokens.len(), 1);
    assert!(matches!(tokens[0].item(), Token::Comment(c) if c == "a"));
}
