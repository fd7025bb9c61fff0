//! `for` loops over a vector.

use vstd::prelude::*;
use crate::error::Context;
use crate::expression::Expression;
use crate::instruction::Instruction;

verus! {

#[derive(Debug)]
pub struct ForLoop {
    pub alias: String,
    pub operand: Expression,
    pub body: Vec<Instruction>,
    pub context: Context,
    pub operand_pos: usize,
}

impl ForLoop {
    #[inline]
    pub fn new(
        alias: String,
        operand: Expression,
        body: Vec<Instruction>,
        context: Context,
        operand_pos: usize,
    ) -> (f: ForLoop)
        ensures
            f.alias == alias,
            f.operand == operand,
            f.body == body,
            f.context == context,
            f.operand_pos == operand_pos,
    {
        ForLoop { alias, operand, body, context, operand_pos }
    }

    #[inline]
    pub fn context(&self) -> (c: Context)
        ensures
            c == self.context,
    {
        self.context
    }
}

} // verus!
