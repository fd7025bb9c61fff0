//! Conditional statements.

use vstd::prelude::*;
use crate::error::Context;
use crate::expression::Expression;
use crate::instruction::Instruction;

verus! {

#[derive(Debug)]
pub struct BranchBody {
    pub condition: Expression,
    pub body: Vec<Instruction>,
}

impl BranchBody {
    #[inline]
    pub fn new(condition: Expression, body: Vec<Instruction>) -> (b: Self)
        ensures
            b.condition == condition,
            b.body == body,
    {
        BranchBody { condition, body }
    }
}

#[derive(Debug)]
pub struct Branch {
    pub main_branch: BranchBody,
    pub else_if_branches: Vec<BranchBody>,
    pub else_branch: Vec<Instruction>,
    pub context: Context,
}

impl Branch {
    #[inline]
    pub fn new(
        main_branch: BranchBody,
        else_if_branches: Vec<BranchBody>,
        else_branch: Vec<Instruction>,
        context: Context,
    ) -> (b: Branch)
        ensures
            b.main_branch == main_branch,
            b.else_if_branches == else_if_branches,
            b.else_branch == else_branch,
            b.context == context,
    {
        Branch { main_branch, else_if_branches, else_branch, context }
    }

    #[inline]
    pub fn context(&self) -> (c: Context)
        ensures
            c == self.context,
    {
        self.context
    }
}

} // verus!
