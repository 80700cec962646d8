use deimos_core::repl::Repl;

#[test]
fn complete_statements() {
    assert!(matches!(Repl::check_for_complete_statement("x = 1"), Ok(true)));
    assert!(matches!(Repl::check_for_complete_statement("do x = 1 end"), Ok(true)));
    assert!(matches!(Repl::check_for_complete_statement("function f() return 1 end"), Ok(true)));
}

#[test]
fn incomplete_statements() {
    assert!(matches!(Repl::check_for_complete_statement("do x = 1"), Ok(false)));
    assert!(matches!(Repl::check_for_complete_statement("function f() do"), Ok(false)));
    // more ends than openings is not complete either
    assert!(matches!(Repl::check_for_complete_statement("x = 1 end"), Ok(false)));
}

#[test]
fn new_session() {
    let _ = Repl::new();
}

#[test]
fn text_that_does_not_scan() {
    assert!(Repl::check_for_complete_statement("x = $").is_err());
}

#[test]
fn every_block_opener_counts() {
    assert!(matches!(Repl::check_for_complete_statement("if x then y = 1 end"), Ok(true)));
    assert!(matches!(Repl::check_for_complete_statement("while x do y = 1 end"), Ok(true)));
    assert!(matches!(Repl::check_for_complete_statement("for i = 1, 2 do y = 1 end"), Ok(true)));
    assert!(matches!(Repl::check_for_complete_statement("repeat y = 1 until x"), Ok(true)));
    assert!(matches!(Repl::check_for_complete_statement("if x then"), Ok(false)));
    assert!(matches!(Repl::check_for_complete_statement("repeat y = 1"), Ok(false)));
}
