use deimos_core::elements::statement::{Statement, TableIndex};
use deimos_core::elements::token::Token;
use deimos_core::elements::tokentype::TokenType;

fn token_type(text: &str) -> TokenType {
    match text {
        "," => TokenType::Comma,
        ";" => TokenType::SemiColon,
        _ => {
            if let Some(t) = TokenType::match_symbol(text) {
                t
            } else if let Some(t) = TokenType::match_keyword(text) {
                t
            } else if text.chars().all(|c| c.is_ascii_digit() || c == '.') {
                TokenType::Number(text.to_string())
            } else {
                TokenType::Identifier(text.to_string())
            }
        },
    }
}

fn statement(text: &str) -> Statement {
    Statement::Token(Token::simple(token_type(text)))
}

fn binary(op: &str, t1: &str, t2: &str) -> Statement {
    statement(op).into_binary(statement(t1), statement(t2))
}

#[test]
fn unop() {
    for t in vec!["-", "not", "#"] {
        assert!(statement(t).is_unop());
    }
    for t in vec!["+", "*"] {
        assert!(!statement(t).is_unop());
    }
}

#[test]
fn binop() {
    for t in vec!["+", "-", "*", "/", "^", "%", "..", "<", "<=", ">", ">=", "or", "==", "~=", "and"] {
        assert!(statement(t).is_binop());
    }
    for t in vec!["not", "#"] {
        assert!(!statement(t).is_binop());
    }
}

#[test]
fn fieldsep() {
    for t in vec![",", ";"] {
        assert!(statement(t).is_fieldsep());
    }
    for t in vec!["not", "#"] {
        assert!(!statement(t).is_fieldsep());
    }
}

#[test]
fn field() {
    let one = Statement::create_field(statement("2"), statement("2"));
    assert!(one.is_some());
    assert!(one.unwrap().is_field());

    let two = Statement::create_field(statement("linda"), statement("2"));
    assert!(two.is_some());
    assert!(two.unwrap().is_field());

    let three = binary("+", "2", "4");
    assert!(three.is_field());
}

#[test]
fn allowable_characters() {
    assert!(!TokenType::valid_word_char("_", true));

    let letters = vec![
        "Q", "W", "E", "R", "T", "Y", "U", "I", "O", "P", "L", "K", "J", "H", "G", "F", "D", "S", "A",
        "Z", "X", "C", "V", "B", "N", "M", "q", "w", "e", "r", "t", "y", "u", "i", "o", "p", "l", "k",
        "j", "h", "g", "f", "d", "s", "a", "z", "x", "c", "v", "b", "n", "m",
    ];
    let symbols = vec![
        "!", "@", "#", "$", "%", "^", "&", "*", "(", ")", "{", "}", "|", ":", "\"", "<", ">", "?", "-",
        "=", "+",
    ];
    let numbers = vec!["0", "1", "2", "3", "4", "5", "6", "7", "8", "9", "0"];

    for l in letters {
        assert!(TokenType::valid_word_char(l, true));
        assert!(TokenType::valid_word_char(l, false));
    }
    for s in symbols {
        assert!(!TokenType::valid_word_char(s, true));
        assert!(!TokenType::valid_word_char(s, false));
    }
    for n in numbers {
        assert!(!TokenType::valid_word_char(n, true));
        assert!(TokenType::valid_word_char(n, false));
    }
}

#[test]
fn binary_order_of_operations() {
    // (2 + 3) built first, then `* 4`: the tighter `*` moves inside
    let inner = binary("+", "2", "3");
    let outer = statement("*").into_binary(inner, statement("4"));
    match outer {
        Statement::Binary(op, left, right) => {
            assert!(matches!(op.get_type(), TokenType::Plus));
            assert!(left.is_number());
            assert!(matches!(*right, Statement::Binary(_, _, _)));
        },
        _ => panic!("expected a binary operation"),
    }
}

#[test]
fn table_index_create() {
    assert!(matches!(TableIndex::create("12.5"), TableIndex::Number(_)));
    assert!(matches!(TableIndex::create("bob"), TableIndex::String(_)));
    assert_eq!(TableIndex::create("bob").to_display_string(), "\"bob\"");
    assert_eq!(TableIndex::create("3").to_display_string(), "3");
}

#[test]
fn create_assignment_pads_expressions() {
    let vars = Statement::create_list(vec![Box::new(statement("a")), Box::new(statement("b"))]);
    let exprs = statement("1");
    let a = Statement::create_assignment(vars, exprs, false);
    match a {
        Statement::Assignment(v, e) => {
            assert_eq!(v.len(), 2);
            assert_eq!(e.len(), 2);
            assert!(e.as_list_index(1).unwrap().is_empty());
        },
        _ => panic!("expected an assignment"),
    }
}

#[test]
fn match_symbol_comma_quirk() {
    assert!(TokenType::match_symbol(",").is_none());
    assert!(matches!(TokenType::match_symbol("),"), Some(TokenType::Comma)));
    assert!(matches!(TokenType::match_keyword("while"), Some(TokenType::While)));
}
