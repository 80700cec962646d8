//! var: `Name`, `prefixexp [ exp ]`, `prefixexp . Name`.

pub mod name;
pub mod prefixname;
pub mod prefixexp;

use vstd::prelude::*;
use crate::syntax::{SyntaxResult, Wrapped};
use crate::syntax::rules::{Stage, stage_outcome, stage_step, run_stage};

verus! {

/// Reduces variables until none is left to reduce: `prefixexp [ exp ]`,
/// then `prefixexp . Name`, then a lone `Name`, first match first. `Done`
/// when anything was reduced, `Nothing` otherwise.
pub fn process(elements: &mut Vec<Wrapped>) -> (r: SyntaxResult)
    ensures
        final(elements)@ == stage_outcome(Stage::Var, old(elements)@),
        r is Done <==> stage_step(Stage::Var, old(elements)@) is Some,
        r is Done || r is Nothing,
{
    if run_stage(elements, Stage::Var) {
        SyntaxResult::Done
    } else {
        SyntaxResult::Nothing
    }
}

} // verus!
