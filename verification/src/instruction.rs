//! The instruction tree.

use vstd::prelude::*;
use crate::branch::Branch;
use crate::error::Context;
use crate::expression::Expression;
use crate::for_loop::ForLoop;
use crate::function::Return;
use crate::variable::{OptionallyAnnotatedIdentifier, Value};
use crate::while_loop::WhileLoop;

verus! {

#[derive(Debug)]
pub enum Instruction {
    Expression(Expression),
    Branch(Branch),
    WhileLoop(WhileLoop),
    ForLoop(ForLoop),
    Return(Return),
    Break(Break),
    VariableInit(VariableInit),
    VariableAssign(VariableAssign),
}

impl Instruction {
    /// The source span of the instruction.
    pub open spec fn spec_context(self) -> Context {
        match self {
            Instruction::Expression(e) => e.context,
            Instruction::Branch(b) => b.context,
            Instruction::WhileLoop(wl) => wl.context,
            Instruction::ForLoop(fl) => fl.context,
            Instruction::Return(r) => r.context,
            Instruction::Break(br) => br.context,
            Instruction::VariableInit(vi) => vi.context,
            Instruction::VariableAssign(va) => va.context,
        }
    }

    #[inline]
    pub fn context(&self) -> (c: Context)
        ensures
            c == self.spec_context(),
    {
        match self {
            Instruction::Expression(e) => e.context(),
            Instruction::Branch(b) => b.context(),
            Instruction::WhileLoop(wl) => wl.context(),
            Instruction::ForLoop(fl) => fl.context(),
            Instruction::Return(r) => r.context(),
            Instruction::Break(br) => br.context(),
            Instruction::VariableInit(vi) => vi.context(),
            Instruction::VariableAssign(va) => va.context(),
        }
    }
}

/// What running an instruction hands to the code around it: a value, a value
/// on its way out of the enclosing function (with the position of the
/// expression that produced it), or the request to leave the enclosing loop.
#[derive(Debug, Clone, Copy, PartialEq, Eq, Structural)]
pub enum ReturnValue {
    Value(Value),
    Return(Value, usize),
    Break,
}

impl ReturnValue {
    /// The value carried, if there is one.
    #[inline]
    pub fn value(self) -> (r: Option<Value>)
        ensures
            r == match self {
                ReturnValue::Value(v) => Some(v),
                ReturnValue::Return(v, _) => Some(v),
                ReturnValue::Break => None,
            },
    {
        match self {
            ReturnValue::Value(v) => Some(v),
            ReturnValue::Return(v, _) => Some(v),
            ReturnValue::Break => None,
        }
    }

    /// The value carried.
    #[inline]
    pub fn expect(self, msg: &str) -> (v: Value)
        requires
            !(self is Break),
        ensures
            Some(v) == match self {
                ReturnValue::Value(v) => Some(v),
                ReturnValue::Return(v, _) => Some(v),
                ReturnValue::Break => None,
            },
    {
        match self {
            ReturnValue::Value(v) => v,
            ReturnValue::Return(v, _) => v,
            ReturnValue::Break => Value::Nil,
        }
    }
}

#[derive(Debug, Clone, Copy)]
pub struct Break {
    pub context: Context,
}

impl Break {
    #[inline]
    pub fn new(context: Context) -> (b: Break)
        ensures
            b.context == context,
    {
        Break { context }
    }

    #[inline]
    pub fn context(&self) -> (c: Context)
        ensures
            c == self.context,
    {
        self.context
    }
}

#[derive(Debug)]
pub struct VariableInit {
    pub identifiers: Vec<OptionallyAnnotatedIdentifier>,
    pub assign_pos: usize,
    pub expr: Expression,
    pub context: Context,
}

impl VariableInit {
    #[inline]
    pub fn new(
        identifiers: Vec<OptionallyAnnotatedIdentifier>,
        assign_pos: usize,
        expr: Expression,
        context: Context,
    ) -> (v: Self)
        ensures
            v.identifiers == identifiers,
            v.assign_pos == assign_pos,
            v.expr == expr,
            v.context == context,
    {
        VariableInit { identifiers, assign_pos, expr, context }
    }

    #[inline]
    pub fn context(&self) -> (c: Context)
        ensures
            c == self.context,
    {
        self.context
    }
}

/// An assignment, to a variable or, where `source_expr` is set, to a property
/// of the object that the source expression gives. The source is held with
/// the position of the `.` in front of the property's name.
#[derive(Debug)]
pub struct VariableAssign {
    pub source_expr: Option<(Expression, usize)>,
    pub identifier: String,
    pub private_access_typeid: Option<usize>,
    pub expr: Expression,
    pub context: Context,
    pub id_pos: usize,
    pub assign_pos: usize,
}

impl VariableAssign {
    #[inline]
    pub fn new(
        source_expr: Option<(Expression, usize)>,
        identifier: String,
        private_access_typeid: Option<usize>,
        expr: Expression,
        context: Context,
        id_pos: usize,
        assign_pos: usize,
    ) -> (v: Self)
        ensures
            v.source_expr == source_expr,
            v.identifier == identifier,
            v.private_access_typeid == private_access_typeid,
            v.expr == expr,
            v.context == context,
            v.id_pos == id_pos,
            v.assign_pos == assign_pos,
    {
        VariableAssign {
            source_expr,
            identifier,
            private_access_typeid,
            expr,
            context,
            id_pos,
            assign_pos,
        }
    }

    #[inline]
    pub fn context(&self) -> (c: Context)
        ensures
            c == self.context,
    {
        self.context
    }
}

} // verus!
