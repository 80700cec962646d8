//! exp: literal tokens (`nil`, `false`, `true`, numbers, `...`), then `exp binop exp`, then `unop exp`, first match first.

pub mod token;
pub mod binop;
pub mod unop;
pub mod tableconstructor;

use vstd::prelude::*;
use crate::syntax::Wrapped;
use crate::syntax::rules::{Stage, stage_outcome, stage_step, run_stage};

verus! {

/// exp: literal tokens (`nil`, `false`, `true`, numbers, `...`), then `exp binop exp`, then `unop exp`, first match first. Reduces until nothing is left to reduce.
pub fn process(phrase: &mut Vec<Wrapped>) -> (r: bool)
    ensures
        final(phrase)@ == stage_outcome(Stage::Exp, old(phrase)@),
        r == stage_step(Stage::Exp, old(phrase)@) is Some,
{
    run_stage(phrase, Stage::Exp)
}

} // verus!
