use vstd::prelude::*;
pub use crate::scanner::scan;

pub mod codewrap;
pub mod coderef;
pub mod text;
pub mod token;
pub mod scanspec;
pub mod numbers;
pub mod scanner;
pub mod scanlaws;
pub mod error;
pub mod diagnostics;

verus! {

} // verus!
pub mod element;
pub mod parsespec;
pub mod parser;
pub mod scannererror;
pub mod parsererror;
pub mod syntaxerror;
pub mod grammar;
pub mod repl;
pub mod language;
pub mod syntax;
pub mod elements;
