# deimos_core

The front end of a small Lua 5.1 interpreter, written in Verus: every
function in `src/` carries a contract that Verus proves.

- `scanner`, `scanspec`, `scanlaws`, `numbers`, `token`: code into tokens,
  specified by a grammar of token shapes; the tokens tile the code.
- `element`, `parsespec`, `parser`: tokens into elements by reduction rules,
  and elements into blocks. `Parser::from_scanner` asks for a stream that
  it can parse to an end; `Parser::from_scanner_within` takes a bound on
  the rounds and answers for any stream, or says that the bound was not
  enough (or that the stream would stop the parser).
- `syntax/`: rule sets over syntax elements (variables, expressions, lists,
  statements, fields, blocks), each applied until none fits.
- `grammar`, `language`: smaller one-pass grammars over their own elements.
- `elements/`: the evaluator's statements, tables and scopes (variables,
  local scopes, paths into tables).
- `error/`, `diagnostics`, `*error.rs`: errors and their reports.
- `repl`: a session, and whether a piece of code closes every block it opens.

`app/` holds what the library cannot: its errors as `failure` errors, and
the arithmetic on numbers, which works on floating-point values.
