use deimos_core::elements::scope::{Scope, ScopeError};
use deimos_core::elements::statement::{Statement, TableIndex};
use deimos_core::elements::token::Token;
use deimos_core::elements::tokentype::TokenType;

fn number(text: &str) -> Statement {
    Statement::Token(Token::simple(TokenType::Number(text.to_string())))
}

fn name(text: &str) -> Statement {
    Statement::Token(Token::simple(TokenType::Identifier(text.to_string())))
}

fn is_number(s: &Statement, text: &str) -> bool {
    match s {
        Statement::Token(t) => matches!(&t.token_type, TokenType::Number(n) if n == text),
        _ => false,
    }
}

fn value_is(scope: &Scope, var: &str, text: &str) -> bool {
    match scope.get_value(var) {
        Ok(Some(v)) => is_number(v, text),
        _ => false,
    }
}

#[test]
fn assign_then_get_global() {
    let mut scope = Scope::new();
    assert!(scope.assign("x", number("1")).is_ok());
    assert!(value_is(&scope, "x", "1"));
    assert!(matches!(scope.get_value("y"), Ok(None)));
}

#[test]
fn assign_overwrites() {
    let mut scope = Scope::new();
    assert!(scope.assign("x", number("1")).is_ok());
    assert!(scope.assign("x", number("2")).is_ok());
    assert!(value_is(&scope, "x", "2"));
}

#[test]
fn local_shadows_global_until_popped() {
    let mut scope = Scope::new();
    assert!(scope.assign("x", number("1")).is_ok());
    assert!(scope.assign_local("x", number("2")).is_ok());
    assert!(value_is(&scope, "x", "2"));
    // a plain assignment goes to the local scope that holds the name
    assert!(scope.assign("x", number("3")).is_ok());
    assert!(value_is(&scope, "x", "3"));
    assert_eq!(scope.pop_local(), 0);
    assert!(value_is(&scope, "x", "1"));
}

#[test]
fn push_then_pop_counts_scopes() {
    let mut scope = Scope::new();
    scope.push_local();
    scope.push_local();
    assert_eq!(scope.pop_local(), 1);
    assert_eq!(scope.pop_local(), 0);
    // closing with none open changes nothing
    assert_eq!(scope.pop_local(), 0);
}

#[test]
fn assign_local_opens_a_scope() {
    let mut scope = Scope::new();
    assert!(scope.assign_local("y", number("5")).is_ok());
    assert!(value_is(&scope, "y", "5"));
    assert_eq!(scope.pop_local(), 0);
    assert!(matches!(scope.get_value("y"), Ok(None)));
}

#[test]
fn table_path_assign_then_get() {
    let mut scope = Scope::new();
    // a missing variable becomes a new table
    assert!(scope.assign("t.x", number("7")).is_ok());
    assert!(value_is(&scope, "t.x", "7"));
    assert!(value_is(&scope, "t[x]", "7"));
    assert!(matches!(scope.get_value("t.y"), Ok(None)));
    match scope.get_value("t") {
        Ok(Some(Statement::Table(entries))) => {
            assert_eq!(entries.len(), 1);
            assert!(matches!(&entries[0].0, TableIndex::String(k) if k == "x"));
        },
        _ => panic!("t should be a table"),
    }
}

#[test]
fn table_numeric_keys() {
    let mut scope = Scope::new();
    assert!(scope.assign("t[1]", number("9")).is_ok());
    match scope.get_value("t") {
        Ok(Some(Statement::Table(entries))) => {
            assert!(matches!(&entries[0].0, TableIndex::Number(k) if k == "1"));
        },
        _ => panic!("t should be a table"),
    }
    assert!(value_is(&scope, "t[1]", "9"));
}

#[test]
fn nested_table_path() {
    let mut scope = Scope::new();
    assert!(scope.assign("t.a", number("1")).is_ok());
    // `t.a` is not a table
    assert!(matches!(scope.assign("t.a.b", number("2")), Err(ScopeError::StepNotATable(s)) if s == "a"));
    // `t.c` is not there
    assert!(matches!(scope.assign("t.c.d", number("2")), Err(ScopeError::NotDefined(s)) if s == "c"));
    assert!(value_is(&scope, "t.a", "1"));
}

#[test]
fn path_into_a_non_table() {
    let mut scope = Scope::new();
    assert!(scope.assign("x", number("1")).is_ok());
    assert!(matches!(scope.assign("x.y", number("2")), Err(ScopeError::NotATable(s)) if s == "x"));
    assert!(matches!(scope.get_value("x.y"), Err(ScopeError::ObjectNotATable)));
    assert!(value_is(&scope, "x", "1"));
}

#[test]
fn functions_are_looked_up_globally() {
    let mut scope = Scope::new();
    assert!(matches!(scope.get_function("f"), Err(ScopeError::FunctionNotDefined(s)) if s == "f"));
    assert!(scope.assign("v", number("1")).is_ok());
    assert!(matches!(scope.get_function("v"), Err(ScopeError::NotAFunction(s)) if s == "v"));
    assert!(scope.assign("f", Statement::Function(vec![String::from("a")], Vec::new())).is_ok());
    assert!(matches!(scope.get_function("f"), Ok(Statement::Function(args, _)) if args.len() == 1));
}

#[test]
fn create_table_positions_and_names() {
    // { 10, a = 20, 30 }
    let parts = Statement::ExprList(vec![
        Box::new(number("10")),
        Box::new(Statement::Assignment(
            Box::new(Statement::NameList(vec![String::from("a")])),
            Box::new(Statement::ExprList(vec![Box::new(number("20"))])),
        )),
        Box::new(number("30")),
    ]);
    match Statement::create_table(parts) {
        Statement::Table(entries) => {
            assert_eq!(entries.len(), 3);
            assert!(matches!(&entries[0].0, TableIndex::Number(k) if k == "1"));
            assert!(is_number(&entries[0].1, "10"));
            assert!(matches!(&entries[1].0, TableIndex::String(k) if k == "a"));
            assert!(is_number(&entries[1].1, "20"));
            assert!(matches!(&entries[2].0, TableIndex::Number(k) if k == "2"));
            assert!(is_number(&entries[2].1, "30"));
        },
        _ => panic!("a table was expected"),
    }
}

#[test]
fn create_table_of_a_name() {
    match Statement::create_table(name("bob")) {
        Statement::Table(entries) => {
            assert_eq!(entries.len(), 1);
            assert!(matches!(&entries[0].0, TableIndex::Number(k) if k == "1"));
            assert!(matches!(&entries[0].1, Statement::NameList(l) if l.len() == 1 && l[0] == "bob"));
        },
        _ => panic!("a table was expected"),
    }
}

#[test]
fn create_table_repeated_name_keeps_place() {
    let assign = |n: &str, v: &str| {
        Statement::Assignment(
            Box::new(Statement::NameList(vec![String::from(n)])),
            Box::new(number(v)),
        )
    };
    let parts = Statement::ExprList(vec![Box::new(assign("a", "1")), Box::new(assign("a", "2"))]);
    match Statement::create_table(parts) {
        Statement::Table(entries) => {
            assert_eq!(entries.len(), 1);
            assert!(is_number(&entries[0].1, "2"));
        },
        _ => panic!("a table was expected"),
    }
}

#[test]
fn explode_name_list() {
    let items = Statement::NameList(vec![String::from("a"), String::from("b")]).explode_list();
    assert_eq!(items.len(), 2);
    assert_eq!(items[0].as_name(), "a");
    assert_eq!(items[1].as_name(), "b");
    let items = Statement::ExprList(vec![Box::new(number("1"))]).explode_list();
    assert_eq!(items.len(), 1);
}

#[test]
fn paths_split_by_lua_rules() {
    let mut scope = Scope::new();
    assert!(scope.assign("bob[1]", number("0")).is_ok());
    // `bob[1]` is a number, so `bob[1][2]` steps into a non-table at `1`
    assert!(matches!(scope.assign("bob[1][2]", number("5")), Err(ScopeError::StepNotATable(s)) if s == "1"));
    assert!(scope.assign("t.a", number("1")).is_ok());
    assert!(matches!(scope.assign("t.a.b", number("2")), Err(ScopeError::StepNotATable(s)) if s == "a"));
    assert!(value_is(&scope, "t[a]", "1"));
    // no empty step between `]` and `.`
    assert!(scope.assign("n.inner", Statement::Table(Vec::new())).is_ok());
    assert!(scope.assign("n[inner].z", number("7")).is_ok());
    assert!(value_is(&scope, "n[inner].z", "7"));
    assert!(value_is(&scope, "n.inner.z", "7"));
}
