//! prefixexp: a variable, then `( exp )`, first match first.

pub mod var;
pub mod exp;

use vstd::prelude::*;
use crate::syntax::Wrapped;
use crate::syntax::rules::{Stage, stage_outcome, stage_step, run_stage};

verus! {

/// prefixexp: a variable, then `( exp )`, first match first. Reduces until nothing is left to reduce.
pub fn process(phrase: &mut Vec<Wrapped>) -> (r: bool)
    ensures
        final(phrase)@ == stage_outcome(Stage::PrefixExp, old(phrase)@),
        r == stage_step(Stage::PrefixExp, old(phrase)@) is Some,
{
    run_stage(phrase, Stage::PrefixExp)
}

} // verus!
