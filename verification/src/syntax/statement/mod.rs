//! stat: `varlist = explist`.

pub mod assignment;
pub mod doend;
pub mod localassignment;
pub mod whiledoend;

use vstd::prelude::*;
use crate::syntax::{SyntaxResult, Wrapped};
use crate::syntax::rules::{Stage, stage_outcome, stage_step, run_stage};

verus! {

/// stat: `varlist = explist`. Reduces until nothing is left to reduce.
pub fn process(phrase: &mut Vec<Wrapped>) -> (r: SyntaxResult)
    ensures
        final(phrase)@ == stage_outcome(Stage::Statement, old(phrase)@),
        r is Done <==> stage_step(Stage::Statement, old(phrase)@) is Some,
        r is Done || r is Nothing,
{
    if run_stage(phrase, Stage::Statement) {
        SyntaxResult::Done
    } else {
        SyntaxResult::Nothing
    }
}

} // verus!
