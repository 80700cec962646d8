//! A chunk: the statements of a piece of code, in order.

use vstd::prelude::*;
use crate::elements::statement::Statement;

verus! {

/// The statements of a piece of code, in order.
pub struct Chunk {
    statements: Vec<Statement>,
}

impl Chunk {
    /// The statements it holds, in order.
    pub closed spec fn spec_statements(&self) -> Seq<Statement> {
        self.statements@
    }

    /// A chunk of the statements.
    pub fn new(statements: Vec<Statement>) -> (r: Chunk)
        ensures
            r.spec_statements() == statements@,
    {
        Chunk { statements }
    }
}

} // verus!
