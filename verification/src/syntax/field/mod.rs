//! field: `[ exp ] = exp`, `Name = exp`, `exp`.

pub mod expression;
pub mod expressionassignment;
pub mod nameassignment;

use vstd::prelude::*;
use crate::syntax::Wrapped;
use crate::syntax::rules::{Stage, stage_outcome, stage_step, run_stage};

verus! {

/// Makes fields until none can be made; whether any was made.
pub fn process(elements: &mut Vec<Wrapped>) -> (r: bool)
    ensures
        final(elements)@ == stage_outcome(Stage::Field, old(elements)@),
        r == stage_step(Stage::Field, old(elements)@) is Some,
{
    run_stage(elements, Stage::Field)
}

} // verus!
