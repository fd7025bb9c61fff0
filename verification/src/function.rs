//! Functions and calls.

use vstd::prelude::*;
use crate::builtin::Builtin;
use crate::error::Context;
use crate::expression::Expression;
use crate::instruction::Instruction;
use crate::variable::AnnotatedIdentifier;

verus! {

#[derive(Debug)]
pub enum Function {
    UserFunction(UserFunction),
    BuiltinFunction(BuiltinFunction),
}

impl Function {
    pub open spec fn spec_arguments(self) -> Vec<AnnotatedIdentifier> {
        match self {
            Function::UserFunction(f) => f.arguments,
            Function::BuiltinFunction(f) => f.arguments,
        }
    }

    #[inline]
    pub fn arguments(&self) -> (a: &Vec<AnnotatedIdentifier>)
        ensures
            *a == self.spec_arguments(),
    {
        match self {
            Function::UserFunction(f) => f.arguments(),
            Function::BuiltinFunction(f) => f.arguments(),
        }
    }

    #[inline]
    pub fn is_builtin(&self) -> (b: bool)
        ensures
            b == (self is BuiltinFunction),
    {
        match self {
            Function::UserFunction(_) => false,
            Function::BuiltinFunction(_) => true,
        }
    }
}

/// A function that the interpreter provides: its parameters, and which of
/// the built-in operations it performs.
#[derive(Debug)]
pub struct BuiltinFunction {
    pub arguments: Vec<AnnotatedIdentifier>,
    pub body: Builtin,
}

impl BuiltinFunction {
    #[inline]
    pub fn new(arguments: Vec<AnnotatedIdentifier>, body: Builtin) -> (f: Self)
        ensures
            f.arguments == arguments,
            f.body == body,
    {
        BuiltinFunction { arguments, body }
    }

    #[inline]
    pub fn arguments(&self) -> (a: &Vec<AnnotatedIdentifier>)
        ensures
            *a == self.arguments,
    {
        &self.arguments
    }
}

/// A function of the program. `return_typeid` holds the type that every
/// return must have, with the position of the annotation in the source, or
/// `None` where any value may be returned.
#[derive(Debug)]
pub struct UserFunction {
    pub arguments: Vec<AnnotatedIdentifier>,
    pub return_typeid: Option<(usize, usize)>,
    pub body: Vec<Instruction>,
    pub context: Context,
}

impl UserFunction {
    #[inline]
    pub fn new(
        arguments: Vec<AnnotatedIdentifier>,
        return_typeid: Option<(usize, usize)>,
        body: Vec<Instruction>,
        context: Context,
    ) -> (f: Self)
        ensures
            f.arguments == arguments,
            f.return_typeid == return_typeid,
            f.body == body,
            f.context == context,
    {
        UserFunction { arguments, return_typeid, body, context }
    }

    #[inline]
    pub fn context(&self) -> (c: Context)
        ensures
            c == self.context,
    {
        self.context
    }

    #[inline]
    pub fn arguments(&self) -> (a: &Vec<AnnotatedIdentifier>)
        ensures
            *a == self.arguments,
    {
        &self.arguments
    }
}

#[derive(Debug)]
pub struct Return {
    pub expr: Option<Expression>,
    pub context: Context,
}

impl Return {
    #[inline]
    pub fn new(expr: Option<Expression>, context: Context) -> (r: Return)
        ensures
            r.expr == expr,
            r.context == context,
    {
        Return { expr, context }
    }

    #[inline]
    pub fn context(&self) -> (c: Context)
        ensures
            c == self.context,
    {
        self.context
    }

    /// Where the returned expression starts in the source, `0` where nothing
    /// is returned.
    pub open spec fn spec_expr_pos(self) -> usize {
        match self.expr {
            Some(expr) => expr.context.start,
            None => 0,
        }
    }

    #[inline]
    pub fn expr_pos(&self) -> (p: usize)
        ensures
            p == self.spec_expr_pos(),
    {
        match &self.expr {
            Some(expr) => expr.context().start,
            None => 0,
        }
    }
}

/// A call as it stands in an expression. `associated_type` is set for the
/// scoped form `Type::name(..)` and holds the type-id with the position of
/// the `::`. `line_col` is where the call stands in the source.
#[derive(Debug)]
pub struct FunctionCall {
    pub associated_type: Option<(usize, usize)>,
    pub name: String,
    pub arguments: Vec<Expression>,
    pub private_access_typeid: Option<usize>,
    pub context: Context,
    pub name_pos: usize,
    pub line_col: (usize, usize),
}

impl FunctionCall {
    #[inline]
    pub fn new(
        associated_type: Option<(usize, usize)>,
        name: String,
        arguments: Vec<Expression>,
        private_access_typeid: Option<usize>,
        context: Context,
        name_pos: usize,
        line_col: (usize, usize),
    ) -> (f: FunctionCall)
        ensures
            f.associated_type == associated_type,
            f.name == name,
            f.arguments == arguments,
            f.private_access_typeid == private_access_typeid,
            f.context == context,
            f.name_pos == name_pos,
            f.line_col == line_col,
    {
        FunctionCall {
            associated_type,
            name,
            arguments,
            private_access_typeid,
            context,
            name_pos,
            line_col,
        }
    }

    pub open spec fn spec_associated_typeid(self) -> Option<usize> {
        match self.associated_type {
            Some((id, _)) => Some(id),
            None => None,
        }
    }

    #[inline]
    pub fn associated_typeid(&self) -> (r: Option<usize>)
        ensures
            r == self.spec_associated_typeid(),
    {
        if let Some((id, _)) = self.associated_type {
            Some(id)
        } else {
            None
        }
    }

    #[inline]
    pub fn name(&self) -> (n: &str)
        ensures
            n@ == self.name@,
    {
        self.name.as_str()
    }

    #[inline]
    pub fn arguments(&self) -> (a: &Vec<Expression>)
        ensures
            *a == self.arguments,
    {
        &self.arguments
    }

    #[inline]
    pub fn context(&self) -> (c: Context)
        ensures
            c == self.context,
    {
        self.context
    }

    #[inline]
    pub fn scope_res_pos(&self) -> (r: Option<usize>)
        ensures
            r == match self.associated_type {
                Some((_, pos)) => Some(pos),
                None => None,
            },
    {
        if let Some((_, pos)) = self.associated_type {
            Some(pos)
        } else {
            None
        }
    }

    #[inline]
    pub fn name_pos(&self) -> (p: usize)
        ensures
            p == self.name_pos,
    {
        self.name_pos
    }

    #[inline]
    pub fn line_col(&self) -> (p: (usize, usize))
        ensures
            p == self.line_col,
    {
        self.line_col
    }
}

} // verus!
