use deimos_core::parser::Parser;
use deimos_core::error::parser::ParserError;
use deimos_core::scanner::Scanner;

#[test]
fn test_failure() {
    let code: &str = r#"
        -- comment here
        x = 1 + - 2
        x,y = 2,3
        tabletest = { a = 1; b = 2; c = 3, ["return"] = 4; }
        bob[x] = 4
        jim = 3 + bob.x
        local bob,jim,mary = 1,2+3,(4*5)
        local bob
        return (2 + 3)
        "#;

    let scanner = match Scanner::from_str(code, Some("testfile.lua")) {
        Ok(scanner) => scanner,
        Err(_) => panic!("the scanner failed"),
    };
    let parser = Parser::from_scanner(scanner);

    match parser {
        Ok(_) => {},
        Err(_) => assert!(false),
    }
}

#[test]
fn a_lone_expression_is_not_a_statement() {
    let scanner = match Scanner::from_str("x = 1\n2", Some("t.lua")) {
        Ok(scanner) => scanner,
        Err(_) => panic!("the scanner failed"),
    };
    match Parser::from_scanner(scanner) {
        Err(ParserError::NOSTATEMENT(info)) => {
            assert_eq!(info.file_name, "t.lua");
            assert_eq!(info.line_number, 2);
        },
        _ => panic!("an error was expected"),
    }
}

#[test]
fn an_unclosed_table_runs_out_of_tokens() {
    let scanner = match Scanner::from_str("x = {1", None) {
        Ok(scanner) => scanner,
        Err(_) => panic!("the scanner failed"),
    };
    match Parser::from_scanner(scanner) {
        Err(ParserError::GEN(message)) => {
            assert_eq!(message, "ran out of tokens in the stream, looking for '}' but never found it?");
        },
        _ => panic!("an error was expected"),
    }
}

fn scan(code: &str) -> Scanner<'_> {
    match Scanner::from_str(code, Some("t.lua")) {
        Ok(scanner) => scanner,
        Err(_) => panic!("the scanner failed"),
    }
}

#[test]
fn enough_rounds_parse_as_without_a_bound() {
    match Parser::from_scanner_within(scan("x = 1 + 2\nlocal y = x"), 100) {
        Some(Ok(parser)) => {
            let block = parser.blocks.expect("a block");
            assert!(block.i().is_block());
        },
        _ => panic!("the code should parse"),
    }
}

#[test]
fn too_few_rounds_give_no_answer() {
    assert!(Parser::from_scanner_within(scan("x = 1 + 2"), 0).is_none());
    assert!(Parser::from_scanner_within(scan("x = 1 + 2"), 1).is_none());
}

#[test]
fn bounded_parsing_reports_faults() {
    match Parser::from_scanner_within(scan("x = 1\n2"), 100) {
        Some(Err(ParserError::NOSTATEMENT(info))) => assert_eq!(info.line_number, 2),
        _ => panic!("an error was expected"),
    }
    match Parser::from_scanner_within(scan("x = {1"), 100) {
        Some(Err(ParserError::GEN(message))) => {
            assert_eq!(message, "ran out of tokens in the stream, looking for '}' but never found it?");
        },
        _ => panic!("an error was expected"),
    }
}

#[test]
fn a_statement_of_a_minus_sign_and_one_more_element_gets_no_answer() {
    assert!(Parser::from_scanner_within(scan("-x"), 100).is_none());
}
