//! `while` loops.

use vstd::prelude::*;
use crate::error::Context;
use crate::expression::Expression;
use crate::instruction::Instruction;

verus! {

#[derive(Debug)]
pub struct WhileLoop {
    pub condition: Expression,
    pub body: Vec<Instruction>,
    pub context: Context,
}

impl WhileLoop {
    #[inline]
    pub fn new(condition: Expression, body: Vec<Instruction>, context: Context) -> (w: WhileLoop)
        ensures
            w.condition == condition,
            w.body == body,
            w.context == context,
    {
        WhileLoop { condition, body, context }
    }

    #[inline]
    pub fn context(&self) -> (c: Context)
        ensures
            c == self.context,
    {
        self.context
    }
}

} // verus!
