//! The evaluator: a machine that runs one instruction step by step.
//!
//! The machine keeps what is in progress as a stack of frames, one for each
//! instruction, expression or call that has started and not yet finished.
//! A step works on the innermost frame. Where the work needs the host, the
//! machine stops with a request and goes on when it is given the reply.

use vstd::prelude::*;
use vstd::hash_map::StringHashMap;
use crate::branch::Branch;
use crate::builtin::{self, invalid_value, spec_same_frames, Outcome, TYPEID_DYN, TYPEID_NONE};
use crate::class::{ClassDefinition, ClassInstance};
use crate::error::{Context, Error, ErrorKind};
use crate::expression::Expression;
use crate::for_loop::ForLoop;
use crate::function::{Function, FunctionCall, Return, UserFunction};
use crate::host::{Reply, Request};
use crate::instruction::{Instruction, ReturnValue, VariableAssign, VariableInit};
use crate::operation::{self, Applied};
use crate::parser::{minus, plus, spec_minus, spec_plus};
use crate::session::{BacktraceItem, ExecSession, FnQueryOptions, ParseSession};
use crate::text::to_chars;
use crate::token::{Literal, Operator, TokenKind};
use crate::variable::{Value, Variable};
use crate::while_loop::WhileLoop;
use crate::FUNCTION_CALL_LIMIT;

verus! {

/// An operand on the stack of an expression. An identifier or a call stays
/// as it was written until an operator takes it: the member operator needs
/// the name or the call itself, every other operator its value.
#[derive(Debug, Clone, Copy)]
pub enum Operand<'a> {
    Value(Value),
    Identifier(&'a String, usize),
    FunctionCall(&'a FunctionCall, usize),
}

/// What an expression in progress waits for.
#[derive(Debug, Clone, Copy, PartialEq, Eq, Structural)]
pub enum Waiting {
    /// Nothing: the next token is to be worked on.
    Nothing,
    /// The value of the call that stands at the given place of the stack.
    Operand(usize),
    /// The value of a method call, which replaces the two operands of the
    /// member operator.
    Member,
    /// The host's answer to float arithmetic, which replaces two operands.
    Float,
    /// The host's reading of a float literal.
    Literal,
}

pub struct ExpressionFrame<'a> {
    pub expression: &'a Expression,
    pub next: usize,
    pub stack: Vec<Operand<'a>>,
    pub waiting: Waiting,
}

pub struct CallFrame<'a> {
    pub call: &'a FunctionCall,
    pub function: &'a Function,
    pub caller: Option<Value>,
    pub context: Context,
    pub pos: usize,
    pub next: usize,
    pub scope: Option<StringHashMap<Variable>>,
    pub running: bool,
}

/// What is in progress.
pub enum Frame<'a> {
    /// An expression.
    Expression(ExpressionFrame<'a>),
    /// A list of statements, of which the first `next` have started.
    Block { body: &'a Vec<Instruction>, next: usize },
    /// A conditional statement whose condition number `stage` is being
    /// evaluated: `0` is the main one, the others follow in order.
    Branch { branch: &'a Branch, stage: usize },
    /// A `while` loop, evaluating its condition or running its body.
    While { while_loop: &'a WhileLoop, in_body: bool },
    /// A `for` loop: evaluating its operand, or running its body for item
    /// `index - 1` of the vector.
    For { for_loop: &'a ForLoop, vector: Option<usize>, index: usize },
    /// A declaration, waiting for the value.
    Init { init: &'a VariableInit },
    /// An assignment, waiting for the value or, holding it, for the object
    /// whose property is assigned.
    Assign { assign: &'a VariableAssign, value: Option<Value> },
    /// A `return`, waiting for the value.
    Return { function_return: &'a Return },
    /// A call: binding its arguments, or running the function.
    Call(CallFrame<'a>),
    /// The body of a function of the program.
    Function { function: &'a UserFunction, next: usize },
    /// The constructor of a class, initializing property `next - 1`.
    Constructor { class: &'a ClassDefinition, next: usize, instance: ClassInstance },
    /// A built-in function that waits for the host.
    Builtin { builtin: builtin::Builtin, context: Context, pos: usize },
}

/// How a run of the machine ended.
#[derive(Debug)]
pub enum Status {
    /// The instruction has finished.
    Finished(ReturnValue),
    /// The instruction has failed. The session holds the backtrace.
    Failed(Error),
    /// The host is asked for something; the machine goes on after
    /// [`Machine::resume`].
    Request(Request),
    /// The steps granted are used up; the machine can run on.
    Paused,
}

pub struct Machine<'a> {
    pub frames: Vec<Frame<'a>>,
    /// What the frame that finished last hands to the one below it.
    pub inbox: Option<ReturnValue>,
    /// The host's reply, until the frame that asked takes it.
    pub reply: Option<Reply>,
}

/// The variable that a declaration or a parameter with the given type
/// annotation makes of a value: without annotation the variable is bound to
/// the type of the value, with `dyn` it takes any type, and with a type it
/// takes the value only where the value has that type.
pub open spec fn spec_bind(annotation: Option<usize>, value: Value) -> Option<Variable> {
    match annotation {
        None => Some(Variable { value, is_dynamic: false }),
        Some(typeid) => if typeid == TYPEID_DYN {
            Some(Variable { value, is_dynamic: true })
        } else if typeid == value.spec_typeid() {
            Some(Variable { value, is_dynamic: false })
        } else {
            None
        },
    }
}

pub fn bind(annotation: Option<usize>, value: Value) -> (r: Option<Variable>)
    ensures
        r == spec_bind(annotation, value),
{
    match annotation {
        None => Some(Variable::new(value, false)),
        Some(typeid) => if typeid == TYPEID_DYN {
            Some(Variable::new(value, true))
        } else if typeid == value.typeid() {
            Some(Variable::new(value, false))
        } else {
            None
        },
    }
}

/// Whether a returned value is what the function may return: a function
/// without a return type returns anything, any other only values of that
/// type.
pub open spec fn spec_return_allowed(return_typeid: Option<(usize, usize)>, value: Value) -> bool {
    match return_typeid {
        None => true,
        Some((expected, _)) => expected == value.spec_typeid(),
    }
}

pub fn return_allowed(return_typeid: Option<(usize, usize)>, value: Value) -> (b: bool)
    ensures
        b == spec_return_allowed(return_typeid, value),
{
    match return_typeid {
        None => true,
        Some((expected, _)) => expected == value.typeid(),
    }
}

/// Binds an argument to a parameter in the scope of a call that is being
/// made: the parameter takes the value as [`spec_bind`] says, and a value of
/// another type than the parameter's is refused with both types named.
pub fn bind_argument(
    scope: &mut StringHashMap<Variable>,
    parameter: &crate::variable::AnnotatedIdentifier,
    value: Value,
    session: &ParseSession,
) -> (r: Result<(), ErrorKind>)
    ensures
        match spec_bind(Some(parameter.typeid), value) {
            Some(variable) => r is Ok && final(scope)@ == old(scope)@.insert(
                parameter.name@,
                variable,
            ),
            None => (r matches Err(ErrorKind::InvalidArgumentType(got, want)) && got@
                == session.spec_typename(value.spec_typeid()) && want@ == session.spec_typename(
                parameter.typeid,
            )) && final(scope)@ == old(scope)@,
        },
{
    match bind(Some(parameter.typeid()), value) {
        Some(variable) => {
            scope.insert(String::from_str(parameter.name()), variable);
            Ok(())
        },
        None => Err(
            ErrorKind::InvalidArgumentType(
                session.get_typename(value.typeid()),
                session.get_typename(parameter.typeid()),
            ),
        ),
    }
}

/// A type-id as an integer of the language, the largest integer for an id
/// beyond it.
pub open spec fn spec_id_value(id: usize) -> i64 {
    if id > i64::MAX {
        i64::MAX
    } else {
        id as i64
    }
}

/// The scope of a call with what the call binds besides its arguments: a
/// method call binds the object it is made on as the dynamic variable
/// `self`; a scoped call binds the type-id of its class as `#`, for the
/// constructor to read.
pub open spec fn spec_with_implicit(
    scope: Map<Seq<char>, Variable>,
    call: &FunctionCall,
    caller: Option<Value>,
) -> Map<Seq<char>, Variable> {
    match caller {
        Some(object) => scope.insert("self"@, Variable { value: object, is_dynamic: true }),
        None => match call.spec_associated_typeid() {
            Some(id) => scope.insert(
                "#"@,
                Variable { value: Value::Int(spec_id_value(id)), is_dynamic: false },
            ),
            None => scope,
        },
    }
}

pub fn bind_implicit(scope: &mut StringHashMap<Variable>, call: &FunctionCall, caller: Option<Value>)
    ensures
        final(scope)@ == spec_with_implicit(old(scope)@, call, caller),
{
    match caller {
        Some(object) => scope.insert(String::from_str("self"), Variable::new(object, true)),
        None => match call.associated_typeid() {
            Some(id) => {
                let id = if id as u64 > i64::MAX as u64 {
                    i64::MAX
                } else {
                    id as i64
                };
                scope.insert(String::from_str("#"), Variable::new(Value::Int(id), false))
            },
            None => {},
        },
    }
}

/// The item that a `for` loop takes next from its vector: the item at
/// `index`, as long as the vector is that long when the item is taken.
pub open spec fn spec_for_item(heap: &crate::heap::Heap, vector: usize, index: usize) -> Option<Value> {
    match heap.spec_vector(vector) {
        Some(items) => if index < items.len() {
            Some(items[index as int])
        } else {
            None
        },
        None => None,
    }
}

pub fn for_item(heap: &crate::heap::Heap, vector: usize, index: usize) -> (r: Option<Value>)
    ensures
        r == spec_for_item(heap, vector, index),
{
    match heap.vector(vector) {
        Some(items) => if index < items.len() {
            Some(items[index])
        } else {
            None
        },
        None => None,
    }
}

/// What a function gives when its body ends without a `return`: `none`,
/// unless it has to return a value of another type. Then the type is handed
/// back with the place of its annotation.
pub open spec fn spec_function_end(return_typeid: Option<(usize, usize)>) -> Option<(usize, usize)> {
    match return_typeid {
        Some((expected, pos)) => if expected == TYPEID_NONE {
            None
        } else {
            Some((expected, pos))
        },
        None => None,
    }
}

pub fn function_end(return_typeid: Option<(usize, usize)>) -> (r: Option<(usize, usize)>)
    ensures
        r == spec_function_end(return_typeid),
{
    match return_typeid {
        Some((expected, pos)) => if expected == TYPEID_NONE {
            None
        } else {
            Some((expected, pos))
        },
        None => None,
    }
}

/// How a call looks its function up: a method call asks the class of the
/// object it is made on for a method, a scoped call asks the named class
/// for a function of the class, and any other call asks for a free
/// function. Private access is given where the call was written inside the
/// definition of the class that is asked.
pub open spec fn spec_query(call: &FunctionCall, caller: Option<Value>) -> Option<FnQueryOptions> {
    match caller {
        Some(object) => Some(
            FnQueryOptions {
                associated_typeid: object.spec_typeid(),
                member_only: true,
                private_access: call.private_access_typeid == Some(object.spec_typeid()),
            },
        ),
        None => match call.spec_associated_typeid() {
            Some(typeid) => Some(
                FnQueryOptions {
                    associated_typeid: typeid,
                    member_only: false,
                    private_access: call.private_access_typeid == Some(typeid),
                },
            ),
            None => None,
        },
    }
}

pub fn query(call: &FunctionCall, caller: Option<Value>) -> (r: Option<FnQueryOptions>)
    ensures
        r == spec_query(call, caller),
{
    let (typeid, member_only) = match caller {
        Some(object) => (object.typeid(), true),
        None => match call.associated_typeid() {
            Some(typeid) => (typeid, false),
            None => {
                return None;
            },
        },
    };
    let private_access = match call.private_access_typeid {
        Some(id) => id == typeid,
        None => false,
    };
    Some(FnQueryOptions::new(typeid, member_only, private_access))
}

} // verus!

verus! {

/// What a step asks of the loop that runs the machine.
pub enum Step {
    /// Go on.
    Continue,
    /// Hand the request to the host.
    Ask(Request),
    /// Nothing is in progress any more; this is what the instruction gave.
    Finished(ReturnValue),
}

/// Name and place of a call, as the backtrace records it.
pub open spec fn spec_trace_of(call: &FunctionCall) -> (Seq<char>, usize, usize) {
    (call.name@, call.line_col.0, call.line_col.1)
}

/// Whether a frame leaves a line in the backtrace when an error passes it:
/// a running call of a function of the program, or of a constructor.
pub open spec fn spec_is_traced(frame: Frame) -> bool {
    frame matches Frame::Call(c) && c.running && (!(c.function is BuiltinFunction) || c.call.name@
        == "new"@)
}

/// The lines that an error leaves in the backtrace on its way out through
/// the frames: one for each traced frame, the innermost first.
pub open spec fn spec_unwound(frames: Seq<Frame>) -> Seq<(Seq<char>, usize, usize)>
    decreases frames.len(),
{
    if frames.len() == 0 {
        Seq::empty()
    } else if spec_is_traced(frames.last()) {
        seq![spec_trace_of(frames.last()->Call_0.call)] + spec_unwound(frames.drop_last())
    } else {
        spec_unwound(frames.drop_last())
    }
}

/// Whether a frame is a call whose function is running: such a call holds a
/// scope of its own and counts as a call in progress.
pub open spec fn spec_holds_scope(frame: Frame) -> bool {
    frame matches Frame::Call(c) && c.running
}

/// How many calls are running.
pub open spec fn spec_depth(frames: Seq<Frame>) -> int
    decreases frames.len(),
{
    if frames.len() == 0 {
        0
    } else {
        spec_depth(frames.drop_last()) + if spec_holds_scope(frames.last()) {
            1int
        } else {
            0int
        }
    }
}

pub proof fn lemma_depth_nonnegative(frames: Seq<Frame>)
    ensures
        0 <= spec_depth(frames) <= frames.len(),
    decreases frames.len(),
{
    if frames.len() > 0 {
        lemma_depth_nonnegative(frames.drop_last());
    }
}

/// Whether the session accounts for `depth` running calls: it counts at
/// least as many calls in progress and holds at least as many local scopes.
pub open spec fn spec_covers(exec: &ExecSession, depth: int) -> bool {
    exec.call_count >= depth && exec.local_scopes@.len() >= depth
}

/// Whether the session follows the running calls from one state of the
/// machine to another: the number of calls that it counts, and the number of
/// local scopes that it holds, changed exactly as the number of running
/// calls did.
pub open spec fn spec_level(
    depth_before: int,
    before: &ExecSession,
    depth_after: int,
    after: &ExecSession,
) -> bool {
    &&& after.call_count - depth_after == before.call_count - depth_before
    &&& after.local_scopes@.len() - depth_after == before.local_scopes@.len() - depth_before
}

/// Whether a frame is an expression on which no work was done yet.
pub open spec fn spec_fresh(frame: Frame, expression: &Expression) -> bool {
    frame matches Frame::Expression(f) && f.expression == expression && f.next == 0
        && f.stack@.len() == 0 && f.waiting == Waiting::Nothing
}

/// Whether `after` is `below` with the expression, fresh, on top.
pub open spec fn spec_started(below: Seq<Frame>, after: Seq<Frame>, expression: &Expression) -> bool {
    after.len() == below.len() + 1 && after.drop_last() == below && spec_fresh(
        after.last(),
        expression,
    )
}

/// What starting on an instruction makes of the stack and the inbox.
///
/// A `break` hands in the request to leave the loop, and a `return` without
/// an expression the value `none` on its way out of the function. Every
/// other instruction puts its frame on the stack and, on top of it, the
/// expression that it evaluates first: a conditional statement and a `while`
/// loop their condition, a `for` loop its operand, a declaration, an
/// assignment and a `return` the value. An expression statement is just the
/// expression.
pub open spec fn spec_begun(
    before: Seq<Frame>,
    inbox: Option<ReturnValue>,
    after: Seq<Frame>,
    after_inbox: Option<ReturnValue>,
    instruction: &Instruction,
) -> bool {
    match instruction {
        Instruction::Expression(e) => spec_started(before, after, e) && after_inbox == inbox,
        Instruction::Branch(b) => spec_started(
            before.push(Frame::Branch { branch: b, stage: 0 }),
            after,
            &b.main_branch.condition,
        ) && after_inbox == inbox,
        Instruction::WhileLoop(w) => spec_started(
            before.push(Frame::While { while_loop: w, in_body: false }),
            after,
            &w.condition,
        ) && after_inbox == inbox,
        Instruction::ForLoop(f) => spec_started(
            before.push(Frame::For { for_loop: f, vector: None, index: 0 }),
            after,
            &f.operand,
        ) && after_inbox == inbox,
        Instruction::Return(r) => match r.expr {
            Some(e) => spec_started(before.push(Frame::Return { function_return: r }), after, &e)
                && after_inbox == inbox,
            None => after == before && after_inbox == Some(ReturnValue::Return(Value::Nil, 0)),
        },
        Instruction::Break(_) => after == before && after_inbox == Some(ReturnValue::Break),
        Instruction::VariableInit(v) => spec_started(
            before.push(Frame::Init { init: v }),
            after,
            &v.expr,
        ) && after_inbox == inbox,
        Instruction::VariableAssign(v) => spec_started(
            before.push(Frame::Assign { assign: v, value: None }),
            after,
            &v.expr,
        ) && after_inbox == inbox,
    }
}

/// The value that was handed in, if one was.
pub open spec fn spec_inbox_value(inbox: Option<ReturnValue>) -> Option<Value> {
    match inbox {
        Some(ReturnValue::Value(v)) => Some(v),
        Some(ReturnValue::Return(v, _)) => Some(v),
        _ => None,
    }
}

/// Whether what was handed in ends the statements around it: a value on
/// its way out of the function, or the request to leave the loop.
pub open spec fn spec_leaves(inbox: Option<ReturnValue>) -> bool {
    inbox matches Some(ReturnValue::Return(_, _)) || inbox == Some(ReturnValue::Break)
}

/// A step of a list of statements. What leaves is passed on to the frame
/// below. Otherwise the next statement starts, and after the last one the
/// list hands in `none`.
pub open spec fn spec_block_step(
    before: Seq<Frame>,
    inbox: Option<ReturnValue>,
    after: Seq<Frame>,
    after_inbox: Option<ReturnValue>,
    body: &Vec<Instruction>,
    next: usize,
) -> bool {
    if spec_leaves(inbox) {
        after == before && after_inbox == inbox
    } else if next < body@.len() {
        spec_begun(
            before.push(Frame::Block { body, next: (next + 1) as usize }),
            None,
            after,
            after_inbox,
            &body@[next as int],
        )
    } else {
        after == before && after_inbox == Some(ReturnValue::Value(Value::Nil))
    }
}

/// What a condition decided, if it gave a boolean.
pub open spec fn spec_condition(inbox: Option<ReturnValue>) -> Option<bool> {
    match spec_inbox_value(inbox) {
        Some(Value::Bool(b)) => Some(b),
        _ => None,
    }
}

/// Whether `e` is the error for a condition that gave no boolean: it is
/// marked at the start of the statement and names the type of the value.
pub open spec fn spec_condition_error(
    inbox: Option<ReturnValue>,
    context: Context,
    session: &ParseSession,
    e: Error,
) -> bool {
    e.context == context && e.pos == 0 && match spec_inbox_value(inbox) {
        Some(v) => e.kind matches ErrorKind::ConditionalExpressionNotBool(t) && t@
            == session.spec_typename(v.spec_typeid()),
        None => true,
    }
}

/// A step of a conditional statement whose condition number `stage` was
/// evaluated. Where the condition holds, its block runs in place of the
/// statement. Where it does not, the next condition is evaluated; after the
/// last one the `else` block runs, and without one the statement hands in
/// `none`. A condition that is no boolean is an error.
pub open spec fn spec_branch_step(
    before: Seq<Frame>,
    inbox: Option<ReturnValue>,
    after: Seq<Frame>,
    after_inbox: Option<ReturnValue>,
    branch: &Branch,
    stage: usize,
    session: &ParseSession,
    r: Result<Option<Request>, Error>,
) -> bool {
    match spec_condition(inbox) {
        Some(true) => r matches Ok(None) && if stage == 0 {
            after == before.push(Frame::Block { body: &branch.main_branch.body, next: 0 })
                && after_inbox is None
        } else if stage - 1 < branch.else_if_branches@.len() {
            after == before.push(
                Frame::Block { body: &branch.else_if_branches@[stage - 1].body, next: 0 },
            ) && after_inbox is None
        } else {
            after == before && after_inbox == Some(ReturnValue::Value(Value::Nil))
        },
        Some(false) => r matches Ok(None) && if stage < branch.else_if_branches@.len() {
            spec_started(
                before.push(Frame::Branch { branch, stage: (stage + 1) as usize }),
                after,
                &branch.else_if_branches@[stage as int].condition,
            ) && after_inbox is None
        } else if branch.else_branch@.len() > 0 {
            after == before.push(Frame::Block { body: &branch.else_branch, next: 0 })
                && after_inbox is None
        } else {
            after == before && after_inbox == Some(ReturnValue::Value(Value::Nil))
        },
        None => after == before && (r matches Err(e) && spec_condition_error(
            inbox,
            branch.context,
            session,
            e,
        )),
    }
}

/// A step of a `while` loop. After its condition: the body runs where the
/// condition holds, the loop hands in `none` where it does not, and a
/// condition that is no boolean is an error. After its body: a value on its
/// way out of the function is passed on, `break` ends the loop with `none`,
/// and otherwise the condition is evaluated again.
pub open spec fn spec_while_step(
    before: Seq<Frame>,
    inbox: Option<ReturnValue>,
    after: Seq<Frame>,
    after_inbox: Option<ReturnValue>,
    while_loop: &WhileLoop,
    in_body: bool,
    session: &ParseSession,
    r: Result<Option<Request>, Error>,
) -> bool {
    if in_body {
        r matches Ok(None) && match inbox {
            Some(ReturnValue::Return(_, _)) => after == before && after_inbox == inbox,
            Some(ReturnValue::Break) => after == before && after_inbox == Some(
                ReturnValue::Value(Value::Nil),
            ),
            _ => spec_started(
                before.push(Frame::While { while_loop, in_body: false }),
                after,
                &while_loop.condition,
            ) && after_inbox is None,
        }
    } else {
        match spec_condition(inbox) {
            Some(true) => r matches Ok(None) && after == before.push(
                Frame::While { while_loop, in_body: true },
            ).push(Frame::Block { body: &while_loop.body, next: 0 }) && after_inbox is None,
            Some(false) => r matches Ok(None) && after == before && after_inbox == Some(
                ReturnValue::Value(Value::Nil),
            ),
            None => after == before && (r matches Err(e) && spec_condition_error(
                inbox,
                while_loop.context,
                session,
                e,
            )),
        }
    }
}

/// A step of a `return` whose value was evaluated: the value is handed in
/// on its way out of the function, with the place of its expression.
pub open spec fn spec_return_step(
    before: Seq<Frame>,
    inbox: Option<ReturnValue>,
    after: Seq<Frame>,
    after_inbox: Option<ReturnValue>,
    function_return: &Return,
    r: Result<Option<Request>, Error>,
) -> bool {
    after == before && match spec_inbox_value(inbox) {
        Some(value) => r matches Ok(None) && after_inbox == Some(
            ReturnValue::Return(value, function_return.spec_expr_pos()),
        ),
        None => r is Err,
    }
}

/// The statement of a function body that ran last before statement `next`
/// starts; its span marks the errors of what it handed in. Before the first
/// statement it is the span of the function.
pub open spec fn spec_last_context(function: &UserFunction, next: usize) -> Context {
    if 0 < next && next - 1 < function.body@.len() {
        function.body@[next - 1].spec_context()
    } else {
        function.context
    }
}

/// A step of the body of a function of the program.
///
/// A returned value ends the function: it is the value of the call where
/// the function may return it ([`spec_return_allowed`]), and an error that
/// names both types, marked at the returned expression, where it may not.
/// A `break` that reaches the body is a syntax error. Otherwise the next
/// statement starts. After the last one the function gives `none`, unless it
/// has to return a value of another type ([`spec_function_end`]): then the
/// error is marked at the annotation of the return type.
pub open spec fn spec_function_step(
    before: Seq<Frame>,
    inbox: Option<ReturnValue>,
    after: Seq<Frame>,
    after_inbox: Option<ReturnValue>,
    function: &UserFunction,
    next: usize,
    session: &ParseSession,
    r: Result<Option<Request>, Error>,
) -> bool {
    let context = spec_last_context(function, next);
    match inbox {
        Some(ReturnValue::Return(value, pos)) => after == before && if spec_return_allowed(
            function.return_typeid,
            value,
        ) {
            r matches Ok(None) && after_inbox == Some(ReturnValue::Value(value))
        } else {
            r matches Err(e) && e.context == context && e.pos == spec_minus(
                pos as int,
                context.start as int,
            ) && (e.kind matches ErrorKind::InvalidReturnType(got, want) && got@
                == session.spec_typename(value.spec_typeid()) && (
            function.return_typeid matches Some((expected, _)) && want@ == session.spec_typename(
                expected,
            )))
        },
        Some(ReturnValue::Break) => after == before && (r matches Err(e) && e.context == context
            && e.pos == 0 && e.kind is SyntaxError),
        _ => if next < function.body@.len() {
            r matches Ok(None) && spec_begun(
                before.push(Frame::Function { function, next: (next + 1) as usize }),
                None,
                after,
                after_inbox,
                &function.body@[next as int],
            )
        } else {
            after == before && match spec_function_end(function.return_typeid) {
                None => r matches Ok(None) && after_inbox == Some(ReturnValue::Value(Value::Nil)),
                Some((expected, pos)) => r matches Err(e) && e.context == function.context
                    && e.pos == spec_minus(pos as int, function.context.start as int) && (
                e.kind matches ErrorKind::InvalidReturnType(got, want) && got@
                    == session.spec_typename(TYPEID_NONE) && want@ == session.spec_typename(
                    expected,
                )),
            }
        },
    }
}

/// A `for` loop takes the next item of its vector: where the vector still
/// has an item at `index`, the alias is bound to it, as a variable that is
/// not dynamic, and the body runs; where it has none, the loop hands in
/// `none`.
pub open spec fn spec_for_take(
    before: Seq<Frame>,
    exec: &ExecSession,
    after: Seq<Frame>,
    after_inbox: Option<ReturnValue>,
    after_exec: &ExecSession,
    for_loop: &ForLoop,
    vector: usize,
    index: usize,
) -> bool {
    match spec_for_item(&exec.heap, vector, index) {
        Some(item) => ExecSession::spec_bound(
            exec,
            after_exec,
            for_loop.alias@,
            Variable { value: item, is_dynamic: false },
        ) && after == before.push(
            Frame::For {
                for_loop,
                vector: Some(vector),
                index: spec_plus(index as int, 1) as usize,
            },
        ).push(Frame::Block { body: &for_loop.body, next: 0 }) && after_inbox is None,
        None => *after_exec == *exec && after == before && after_inbox == Some(
            ReturnValue::Value(Value::Nil),
        ),
    }
}

/// A step of a `for` loop. After its operand: the operand must be a
/// vector, and the loop takes its first item. After its body: a value on its
/// way out of the function is passed on, `break` ends the loop with `none`,
/// and otherwise the loop takes the next item.
pub open spec fn spec_for_step(
    before: Seq<Frame>,
    inbox: Option<ReturnValue>,
    exec: &ExecSession,
    after: Seq<Frame>,
    after_inbox: Option<ReturnValue>,
    after_exec: &ExecSession,
    for_loop: &ForLoop,
    vector: Option<usize>,
    index: usize,
    session: &ParseSession,
    r: Result<Option<Request>, Error>,
) -> bool {
    match vector {
        None => match spec_inbox_value(inbox) {
            Some(Value::Vector(id)) => r matches Ok(None) && spec_for_take(
                before,
                exec,
                after,
                after_inbox,
                after_exec,
                for_loop,
                id,
                index,
            ),
            Some(v) => *after_exec == *exec && after == before && (r matches Err(e) && e.context
                == for_loop.context && e.pos == for_loop.operand_pos && (
            e.kind matches ErrorKind::ForLoopNotVec(t) && t@ == session.spec_typename(
                v.spec_typeid(),
            ))),
            None => *after_exec == *exec && after == before && r is Err,
        },
        Some(id) => r matches Ok(None) && match inbox {
            Some(ReturnValue::Return(_, _)) => *after_exec == *exec && after == before
                && after_inbox == inbox,
            Some(ReturnValue::Break) => *after_exec == *exec && after == before && after_inbox
                == Some(ReturnValue::Value(Value::Nil)),
            _ => spec_for_take(before, exec, after, after_inbox, after_exec, for_loop, id, index),
        },
    }
}

/// The first of the declared names, from `i` on, that does not take the
/// value, or the number of names where each takes it.
pub open spec fn spec_first_refused(
    identifiers: Seq<crate::variable::OptionallyAnnotatedIdentifier>,
    value: Value,
    i: int,
) -> int
    decreases identifiers.len() - i,
{
    if i < 0 || i >= identifiers.len() {
        identifiers.len() as int
    } else if spec_bind(identifiers[i].typeid, value) is None {
        i
    } else {
        spec_first_refused(identifiers, value, i + 1)
    }
}

pub proof fn lemma_first_refused_bounds(
    identifiers: Seq<crate::variable::OptionallyAnnotatedIdentifier>,
    value: Value,
    i: int,
)
    requires
        0 <= i <= identifiers.len(),
    ensures
        i <= spec_first_refused(identifiers, value, i) <= identifiers.len(),
        spec_first_refused(identifiers, value, i) < identifiers.len() ==> spec_bind(
            identifiers[spec_first_refused(identifiers, value, i)].typeid,
            value,
        ) is None,
    decreases identifiers.len() - i,
{
    if i < identifiers.len() && spec_bind(identifiers[i].typeid, value) is Some {
        lemma_first_refused_bounds(identifiers, value, i + 1);
    }
}

/// A scope after the first `n` of the declared names were bound to the
/// value, each as [`spec_bind`] says.
pub open spec fn spec_declared(
    scope: Map<Seq<char>, Variable>,
    identifiers: Seq<crate::variable::OptionallyAnnotatedIdentifier>,
    value: Value,
    n: int,
) -> Map<Seq<char>, Variable>
    decreases n,
{
    if n <= 0 || n > identifiers.len() {
        scope
    } else {
        match spec_bind(identifiers[n - 1].typeid, value) {
            Some(variable) => spec_declared(scope, identifiers, value, n - 1).insert(
                identifiers[n - 1].name@,
                variable,
            ),
            None => spec_declared(scope, identifiers, value, n - 1),
        }
    }
}

/// A step of a declaration whose value was evaluated. The names are bound
/// in order, each to the same value. The first name that does not take the
/// value ends the declaration with an error, marked at the `=`, that names
/// the annotated type and the type of the value; the names before it stay
/// bound.
pub open spec fn spec_init_step(
    before: Seq<Frame>,
    inbox: Option<ReturnValue>,
    exec: &ExecSession,
    after: Seq<Frame>,
    after_inbox: Option<ReturnValue>,
    after_exec: &ExecSession,
    init: &VariableInit,
    session: &ParseSession,
    r: Result<Option<Request>, Error>,
) -> bool {
    after == before && match spec_inbox_value(inbox) {
        None => *after_exec == *exec && r is Err,
        Some(value) => {
            let k = spec_first_refused(init.identifiers@, value, 0);
            &&& ExecSession::spec_same_but_scope(exec, after_exec)
            &&& after_exec.spec_scope() == spec_declared(
                exec.spec_scope(),
                init.identifiers@,
                value,
                k,
            )
            &&& if k >= init.identifiers@.len() {
                r matches Ok(None) && after_inbox == Some(ReturnValue::Value(Value::Nil))
            } else {
                r matches Err(e) && e.context == init.context && e.pos == init.assign_pos && (
                e.kind matches ErrorKind::InvalidAssignment(t1, t2) && (
                init.identifiers@[k].typeid matches Some(typeid) && t1@ == session.spec_typename(
                    typeid,
                )) && t2@ == session.spec_typename(value.spec_typeid()))
            }
        },
    }
}

/// The error of an assignment, marked at `pos` of the statement.
pub open spec fn spec_assign_error(
    assign: &VariableAssign,
    r: Result<Option<Request>, Error>,
    pos: usize,
) -> bool {
    r matches Err(e) && e.context == assign.context && e.pos == pos
}

/// An assignment to a variable: the variable must exist in the current
/// scope, or the error is marked at the start of the statement; and it must
/// accept the value, or the error is marked at the `=`.
pub open spec fn spec_variable_assigned(
    exec: &ExecSession,
    after_inbox: Option<ReturnValue>,
    after_exec: &ExecSession,
    assign: &VariableAssign,
    value: Value,
    session: &ParseSession,
    r: Result<Option<Request>, Error>,
) -> bool {
    let scope = exec.spec_scope();
    let name = assign.identifier@;
    &&& ExecSession::spec_same_but_scope(exec, after_exec)
    &&& if !scope.contains_key(name) {
        after_exec.spec_scope() == scope && spec_assign_error(assign, r, 0) && r->Err_0.kind
            is IdentifierNotFound
    } else if !scope[name].spec_accepts(value) {
        after_exec.spec_scope() == scope && spec_assign_error(assign, r, assign.assign_pos) && (
        r->Err_0.kind matches ErrorKind::InvalidAssignment(t1, t2) && t1@ == session.spec_typename(
            scope[name].value.spec_typeid(),
        ) && t2@ == session.spec_typename(value.spec_typeid()))
    } else {
        r matches Ok(None) && after_inbox == Some(ReturnValue::Value(Value::Nil))
            && after_exec.spec_scope() == scope.insert(
            name,
            Variable { value, is_dynamic: scope[name].is_dynamic },
        )
    }
}

/// Where the error of an assignment to a property is marked: at the `.`
/// for a property that does not exist, at the name for one that is private,
/// at the `=` for a value that the property does not take.
pub open spec fn spec_property_error_pos(assign: &VariableAssign, kind: ErrorKind) -> usize {
    match kind {
        ErrorKind::HasNoMember(_, _) => match assign.source_expr {
            Some((_, pos)) => pos,
            None => 0,
        },
        ErrorKind::MemberIsPrivate(_) => assign.id_pos,
        ErrorKind::InvalidAssignment(_, _) => assign.assign_pos,
        _ => 0,
    }
}

/// An assignment to a property of the object that `source` names. The
/// source must be a class instance. Code written inside the definition of
/// the class of the instance has private access. The property is assigned as
/// [`crate::class::spec_property_set`] says.
pub open spec fn spec_property_assigned(
    exec: &ExecSession,
    after_inbox: Option<ReturnValue>,
    after_exec: &ExecSession,
    assign: &VariableAssign,
    source: Value,
    value: Value,
    session: &ParseSession,
    r: Result<Option<Request>, Error>,
) -> bool {
    &&& spec_same_frames(exec, after_exec)
    &&& after_exec.output_stream == exec.output_stream
    &&& after_exec.heap.strings == exec.heap.strings
    &&& after_exec.heap.vectors == exec.heap.vectors
    &&& after_exec.heap.instances@.len() == exec.heap.instances@.len()
    &&& match source {
        Value::Class { object, typeid } => {
            &&& forall|i: int|
                0 <= i < exec.heap.instances@.len() && i != object
                    ==> after_exec.heap.instances@[i] == exec.heap.instances@[i]
            &&& match exec.heap.spec_instance(object) {
                Some(instance) => {
                    let after = after_exec.heap.instances@[object as int];
                    &&& after.typeid == instance.typeid
                    &&& crate::class::spec_property_set(
                        instance.typeid,
                        instance.properties@,
                        after.properties@,
                        assign.identifier@,
                        assign.private_access_typeid == Some(typeid),
                        value,
                        session,
                        match r {
                            Ok(_) => Ok(()),
                            Err(e) => Err(e.kind),
                        },
                    )
                    &&& match r {
                        Ok(request) => request is None && after_inbox == Some(
                            ReturnValue::Value(Value::Nil),
                        ),
                        Err(e) => e.context == assign.context && e.pos == spec_property_error_pos(
                            assign,
                            e.kind,
                        ),
                    }
                },
                None => after_exec.heap.instances == exec.heap.instances && spec_assign_error(
                    assign,
                    r,
                    0,
                ) && r->Err_0.kind is InvalidMemberAccess,
            }
        },
        _ => after_exec.heap.instances == exec.heap.instances && spec_assign_error(assign, r, 0)
            && r->Err_0.kind is InvalidMemberAccess,
    }
}

/// A step of an assignment. First the value arrives: an assignment to a
/// property keeps it and evaluates the object, an assignment to a variable
/// is made. Then the object arrives, and the property is assigned.
pub open spec fn spec_assign_step(
    before: Seq<Frame>,
    inbox: Option<ReturnValue>,
    exec: &ExecSession,
    after: Seq<Frame>,
    after_inbox: Option<ReturnValue>,
    after_exec: &ExecSession,
    assign: &VariableAssign,
    value: Option<Value>,
    session: &ParseSession,
    r: Result<Option<Request>, Error>,
) -> bool {
    match spec_inbox_value(inbox) {
        None => *after_exec == *exec && after == before && r is Err,
        Some(arrived) => match value {
            None => match assign.source_expr {
                Some((source, _)) => *after_exec == *exec && (r matches Ok(None)) && spec_started(
                    before.push(Frame::Assign { assign, value: Some(arrived) }),
                    after,
                    &source,
                ) && after_inbox is None,
                None => after == before && spec_variable_assigned(
                    exec,
                    after_inbox,
                    after_exec,
                    assign,
                    arrived,
                    session,
                    r,
                ),
            },
            Some(rhs) => after == before && spec_property_assigned(
                exec,
                after_inbox,
                after_exec,
                assign,
                arrived,
                rhs,
                session,
                r,
            ),
        },
    }
}

/// Whether a frame is the call of `function` that is binding its arguments:
/// `next` of them are on their way, and `scope` holds those bound so far.
pub open spec fn spec_is_binding(
    frame: Frame,
    call: &FunctionCall,
    function: &Function,
    caller: Option<Value>,
    context: Context,
    pos: usize,
    next: usize,
    scope: Map<Seq<char>, Variable>,
) -> bool {
    frame matches Frame::Call(c) && c.call == call && c.function == function && c.caller == caller
        && c.context == context && c.pos == pos && c.next == next && !c.running && (
    c.scope matches Some(s) && s@ == scope)
}

/// Whether a frame is the constructor of `class` with `next - 1` properties
/// initialized.
pub open spec fn spec_is_constructor(
    frame: Frame,
    class: &ClassDefinition,
    next: usize,
    typeid: usize,
    properties: Map<Seq<char>, crate::class::Property>,
) -> bool {
    frame matches Frame::Constructor { class: c, next: n, instance } && c == class && n == next
        && instance.typeid == typeid && instance.properties@ == properties
}

/// Whether `after` is `before` with one more class instance in the heap,
/// of the given type and with the given properties, and nothing else
/// changed.
pub open spec fn spec_instance_added(
    before: &ExecSession,
    after: &ExecSession,
    typeid: usize,
    properties: Map<Seq<char>, crate::class::Property>,
) -> bool {
    &&& spec_same_frames(before, after)
    &&& after.output_stream == before.output_stream
    &&& after.heap.strings == before.heap.strings
    &&& after.heap.vectors == before.heap.vectors
    &&& after.heap.instances@.len() == before.heap.instances@.len() + 1
    &&& after.heap.instances@.drop_last() == before.heap.instances@
    &&& after.heap.instances@.last().typeid == typeid
    &&& after.heap.instances@.last().properties@ == properties
}

/// The constructor goes on with property `next`: its initializer is
/// evaluated, or, after the last property, the instance is stored in the
/// heap and handed in.
pub open spec fn spec_constructor_go(
    before: Seq<Frame>,
    exec: &ExecSession,
    after: Seq<Frame>,
    after_inbox: Option<ReturnValue>,
    after_exec: &ExecSession,
    class: &ClassDefinition,
    next: usize,
    typeid: usize,
    properties: Map<Seq<char>, crate::class::Property>,
) -> bool {
    if next < class.property_definitions@.len() {
        &&& *after_exec == *exec
        &&& after_inbox is None
        &&& after.len() == before.len() + 2
        &&& after.subrange(0, before.len() as int) == before
        &&& spec_is_constructor(
            after[before.len() as int],
            class,
            spec_plus(next as int, 1) as usize,
            typeid,
            properties,
        )
        &&& spec_fresh(after.last(), &class.property_definitions@[next as int].init_expression)
    } else {
        &&& after == before
        &&& after_inbox == Some(
            ReturnValue::Value(
                Value::Class { object: exec.heap.instances@.len() as usize, typeid },
            ),
        )
        &&& spec_instance_added(exec, after_exec, typeid, properties)
    }
}

/// A step of the constructor of a class. The value of the initializer that
/// was evaluated is bound to its property as its annotation says
/// ([`spec_bind`]); a value of another type is an error, marked at the `=`
/// of the property, that names both types. Then the constructor goes on
/// with the next property.
pub open spec fn spec_constructor_step(
    before: Seq<Frame>,
    inbox: Option<ReturnValue>,
    exec: &ExecSession,
    after: Seq<Frame>,
    after_inbox: Option<ReturnValue>,
    after_exec: &ExecSession,
    class: &ClassDefinition,
    next: usize,
    typeid: usize,
    properties: Map<Seq<char>, crate::class::Property>,
    session: &ParseSession,
    r: Result<Option<Request>, Error>,
) -> bool {
    if 0 < next && next - 1 < class.property_definitions@.len() {
        let item = class.property_definitions@[next - 1];
        match spec_inbox_value(inbox) {
            None => *after_exec == *exec && after == before && r is Err,
            Some(value) => match spec_bind(Some(item.id.typeid), value) {
                None => *after_exec == *exec && after == before && (r matches Err(e) && e.context
                    == item.context && e.pos == item.assign_pos && (
                e.kind matches ErrorKind::InvalidAssignment(t1, t2) && t1@
                    == session.spec_typename(item.id.typeid) && t2@ == session.spec_typename(
                    value.spec_typeid(),
                ))),
                Some(variable) => (r matches Ok(None)) && spec_constructor_go(
                    before,
                    exec,
                    after,
                    after_inbox,
                    after_exec,
                    class,
                    next,
                    typeid,
                    properties.insert(
                        item.id.name@,
                        crate::class::Property { var: variable, is_public: item.is_public },
                    ),
                ),
            },
        }
    } else {
        (r matches Ok(None)) && spec_constructor_go(
            before,
            exec,
            after,
            after_inbox,
            after_exec,
            class,
            next,
            typeid,
            properties,
        )
    }
}

/// What a step handed to the frame below, or failed with, as the outcome of
/// a built-in function.
pub open spec fn spec_handed(
    r: Result<Option<Request>, Error>,
    after_inbox: Option<ReturnValue>,
) -> Result<Value, ErrorKind> {
    match r {
        Ok(_) => match after_inbox {
            Some(ReturnValue::Value(v)) => Ok(v),
            _ => Ok(Value::Nil),
        },
        Err(e) => Err(e.kind),
    }
}

/// A step of a built-in function that waited for the host: the function is
/// finished with the reply ([`builtin::spec_finish_is`]) and hands in its
/// value. An error is marked where the call stands.
pub open spec fn spec_builtin_step(
    before: Seq<Frame>,
    reply: Option<Reply>,
    exec: &ExecSession,
    after: Seq<Frame>,
    after_inbox: Option<ReturnValue>,
    after_reply: Option<Reply>,
    after_exec: &ExecSession,
    body: builtin::Builtin,
    context: Context,
    pos: usize,
    session: &ParseSession,
    r: Result<Option<Request>, Error>,
) -> bool {
    &&& after == before
    &&& after_reply is None
    &&& (r matches Err(e) ==> e.context == context && e.pos == pos)
    &&& (r matches Ok(request) ==> request is None && after_inbox matches Some(
        ReturnValue::Value(_),
    ))
    &&& match reply {
        None => *after_exec == *exec && r is Err,
        Some(reply) => builtin::spec_finish_is(
            body,
            reply,
            exec,
            after_exec,
            session,
            spec_handed(r, after_inbox),
        ),
    }
}

/// Whether `after` is `before` with one more call in progress, whose scope
/// holds the given bindings.
pub open spec fn spec_entered(
    before: &ExecSession,
    after: &ExecSession,
    scope: Map<Seq<char>, Variable>,
) -> bool {
    &&& after.call_count == before.call_count + 1
    &&& after.local_scopes@.len() == before.local_scopes@.len() + 1
    &&& after.local_scopes@.drop_last() == before.local_scopes@
    &&& after.local_scopes@.last()@ == scope
    &&& after.global_scope == before.global_scope
    &&& after.output_stream == before.output_stream
    &&& after.backtrace == before.backtrace
    &&& after.heap == before.heap
}

/// Whether `after` is `before` with the innermost call over: its scope is
/// dropped, and one call less is counted.
pub open spec fn spec_left(before: &ExecSession, after: &ExecSession) -> bool {
    &&& after.call_count == if before.call_count > 0 {
        (before.call_count - 1) as usize
    } else {
        0
    }
    &&& after.local_scopes@ == if before.local_scopes@.len() > 0 {
        before.local_scopes@.drop_last()
    } else {
        before.local_scopes@
    }
    &&& after.global_scope == before.global_scope
    &&& after.output_stream == before.output_stream
    &&& after.backtrace == before.backtrace
    &&& after.heap == before.heap
}

/// The class that a constructor is to make an instance of: the scope of
/// the call names it as `#`.
pub open spec fn spec_class_to_construct(exec: &ExecSession, session: &ParseSession) -> Option<
    ClassDefinition,
> {
    if exec.spec_scope().contains_key("#"@) {
        match exec.spec_scope()["#"@].value {
            Value::Int(id) => if id < 0 {
                None
            } else {
                session.spec_class(id as usize)
            },
            _ => None,
        }
    } else {
        None
    }
}

/// The function of a call starts to run, the frame of the call being on top
/// of `base` and the session in the state `mid`.
///
/// A function of the program runs its body. A built-in function is started
/// ([`builtin::spec_start_is`]): its value is handed in, or the host is
/// asked and the function waits for the reply, or, for a constructor, the
/// class named in the scope is constructed. An error of a built-in function
/// is marked where the call stands.
pub open spec fn spec_function_started(
    base: Seq<Frame>,
    mid: &ExecSession,
    after: Seq<Frame>,
    after_inbox: Option<ReturnValue>,
    after_exec: &ExecSession,
    function: &Function,
    context: Context,
    pos: usize,
    session: &ParseSession,
    r: Result<Option<Request>, Error>,
) -> bool {
    match function {
        Function::UserFunction(f) => (r matches Ok(None)) && after == base.push(
            Frame::Function { function: f, next: 0 },
        ) && after_inbox is None && *after_exec == *mid,
        Function::BuiltinFunction(b) => exists|outcome: Result<Outcome, ErrorKind>|
            {
                &&& #[trigger] builtin::spec_start_is(b.body, mid, after_exec, session, outcome)
                &&& match outcome {
                    Ok(Outcome::Done(value)) => (r matches Ok(None)) && after == base
                        && after_inbox == Some(ReturnValue::Value(value)),
                    Ok(Outcome::Ask(request)) => r == Ok::<Option<Request>, Error>(Some(request))
                        && after == base.push(Frame::Builtin { builtin: b.body, context, pos })
                        && after_inbox is None,
                    Ok(Outcome::Construct) => match spec_class_to_construct(mid, session) {
                        Some(class) => (r matches Ok(None)) && after.len() == base.len() + 1
                            && after.drop_last() == base && spec_is_constructor(
                            after.last(),
                            &class,
                            0,
                            class.typeid,
                            Map::empty(),
                        ) && after_inbox is None,
                        None => after == base && (r matches Err(e) && e.context == context
                            && e.pos == pos),
                    },
                    Err(kind) => after == base && (r matches Err(e) && e.kind == kind
                        && e.context == context && e.pos == pos),
                }
            },
    }
}

/// The frame of a call whose function is running.
pub open spec fn spec_running_call(frame: CallFrame) -> Frame {
    Frame::Call(
        CallFrame {
            call: frame.call,
            function: frame.function,
            caller: frame.caller,
            context: frame.context,
            pos: frame.pos,
            next: frame.next,
            scope: None,
            running: true,
        },
    )
}

/// A call goes on after the arguments bound in `scope`. While arguments are
/// left, the next one is evaluated, in the scope of the caller. After the
/// last one the call binds what it binds besides its arguments
/// ([`spec_with_implicit`]) and counts as a call in progress: at the limit
/// of calls it fails; below it the scope of the call becomes the current
/// scope and the function starts ([`spec_function_started`]).
pub open spec fn spec_call_go(
    before: Seq<Frame>,
    exec: &ExecSession,
    after: Seq<Frame>,
    after_inbox: Option<ReturnValue>,
    after_exec: &ExecSession,
    frame: CallFrame,
    scope: Map<Seq<char>, Variable>,
    session: &ParseSession,
    r: Result<Option<Request>, Error>,
) -> bool {
    let parameters = frame.function.spec_arguments()@;
    let arguments = frame.call.arguments@;
    if frame.next < arguments.len() && frame.next < parameters.len() {
        &&& r matches Ok(None)
        &&& *after_exec == *exec
        &&& after_inbox is None
        &&& after.len() == before.len() + 2
        &&& after.subrange(0, before.len() as int) == before
        &&& spec_is_binding(
            after[before.len() as int],
            frame.call,
            frame.function,
            frame.caller,
            frame.context,
            frame.pos,
            (frame.next + 1) as usize,
            scope,
        )
        &&& spec_fresh(after.last(), &arguments[frame.next as int])
    } else if exec.call_count >= FUNCTION_CALL_LIMIT {
        after == before && *after_exec == *exec && (r matches Err(e) && e.kind
            is IterationLimitReached)
    } else {
        exists|mid: ExecSession|
            {
                &&& #[trigger] spec_entered(
                    exec,
                    &mid,
                    spec_with_implicit(scope, frame.call, frame.caller),
                )
                &&& spec_function_started(
                    before.push(spec_running_call(frame)),
                    &mid,
                    after,
                    after_inbox,
                    after_exec,
                    frame.function,
                    frame.context,
                    frame.pos,
                    session,
                    r,
                )
            }
    }
}

/// A step of a call.
///
/// A call whose function has finished is over ([`spec_left`]) and hands in
/// the value of the function. A call that is binding its arguments binds the
/// value that arrived to its parameter ([`spec_bind`]); a value of another
/// type than the parameter's is an error, marked at the argument, that names
/// both types. Then the call goes on ([`spec_call_go`]).
pub open spec fn spec_call_step(
    before: Seq<Frame>,
    inbox: Option<ReturnValue>,
    exec: &ExecSession,
    after: Seq<Frame>,
    after_inbox: Option<ReturnValue>,
    after_exec: &ExecSession,
    frame: CallFrame,
    session: &ParseSession,
    r: Result<Option<Request>, Error>,
) -> bool {
    let parameters = frame.function.spec_arguments()@;
    let arguments = frame.call.arguments@;
    let scope = match frame.scope {
        Some(s) => s@,
        None => Map::empty(),
    };
    if frame.running {
        after == before && spec_left(exec, after_exec) && match spec_inbox_value(inbox) {
            Some(v) => (r matches Ok(None)) && after_inbox == Some(ReturnValue::Value(v)),
            None => r is Err,
        }
    } else if 0 < frame.next && frame.next - 1 < parameters.len() && frame.next - 1
        < arguments.len() {
        let parameter = parameters[frame.next - 1];
        match spec_inbox_value(inbox) {
            None => *after_exec == *exec && after == before && r is Err,
            Some(value) => match spec_bind(Some(parameter.typeid), value) {
                None => *after_exec == *exec && after == before && (r matches Err(e) && e.context
                    == frame.context && e.pos == spec_minus(
                    arguments[frame.next - 1].context.start as int,
                    frame.context.start as int,
                ) && (e.kind matches ErrorKind::InvalidArgumentType(got, want) && got@
                    == session.spec_typename(value.spec_typeid()) && want@
                    == session.spec_typename(parameter.typeid))),
                Some(variable) => spec_call_go(
                    before,
                    exec,
                    after,
                    after_inbox,
                    after_exec,
                    frame,
                    scope.insert(parameter.name@, variable),
                    session,
                    r,
                ),
            },
        }
    } else {
        spec_call_go(before, exec, after, after_inbox, after_exec, frame, scope, session, r)
    }
}

/// The traced calls that are in progress, in the order in which they were
/// made: the outermost first.
pub open spec fn spec_chain(frames: Seq<Frame>) -> Seq<(Seq<char>, usize, usize)>
    decreases frames.len(),
{
    if frames.len() == 0 {
        Seq::empty()
    } else if spec_is_traced(frames.last()) {
        spec_chain(frames.drop_last()).push(spec_trace_of(frames.last()->Call_0.call))
    } else {
        spec_chain(frames.drop_last())
    }
}

/// An error that passes the calls `f1`, made first, to `fn`, made last,
/// leaves them in the backtrace in the order `fn`, ..., `f1`: the backtrace
/// is the chain of calls read backwards.
pub proof fn lemma_backtrace_is_chain_backwards(frames: Seq<Frame>)
    ensures
        spec_unwound(frames).len() == spec_chain(frames).len(),
        forall|i: int|
            0 <= i < spec_chain(frames).len() ==> #[trigger] spec_unwound(frames)[i] == spec_chain(
                frames,
            )[spec_chain(frames).len() - 1 - i],
    decreases frames.len(),
{
    if frames.len() > 0 {
        lemma_backtrace_is_chain_backwards(frames.drop_last());
    }
}

/// Name and place of each item of a backtrace.
pub open spec fn spec_traces(items: Seq<BacktraceItem>) -> Seq<(Seq<char>, usize, usize)> {
    Seq::new(items.len(), |i: int| (items[i].name@, items[i].line, items[i].col))
}

impl<'a> Machine<'a> {
    /// A machine that is to run the instruction.
    pub fn new(instruction: &'a Instruction) -> (m: Machine<'a>)
        ensures
            m.reply is None,
            spec_depth(m.frames@) == 0,
            spec_begun(Seq::empty(), None, m.frames@, m.inbox, instruction),
    {
        let mut m = Machine { frames: Vec::new(), inbox: None, reply: None };
        m.begin(instruction);
        m
    }

    /// Hands the machine the host's reply to the request it stopped with.
    pub fn resume(&mut self, reply: Reply)
        ensures
            final(self).frames == old(self).frames,
            final(self).inbox == old(self).inbox,
            final(self).reply == Some(reply),
    {
        self.reply = Some(reply);
    }

    /// Puts a frame on the stack.
    fn push(&mut self, frame: Frame<'a>)
        ensures
            final(self).frames@ == old(self).frames@.push(frame),
            final(self).inbox == old(self).inbox,
            final(self).reply == old(self).reply,
            spec_depth(final(self).frames@) == spec_depth(old(self).frames@) + if spec_holds_scope(
                frame,
            ) {
                1int
            } else {
                0int
            },
    {
        self.frames.push(frame);
        assert(self.frames@.drop_last() =~= old(self).frames@);
    }

    /// Starts on an instruction: the frame that runs it goes on the stack,
    /// or, where there is nothing to run, its result goes to the inbox.
    fn begin(&mut self, instruction: &'a Instruction)
        ensures
            final(self).reply == old(self).reply,
            spec_depth(final(self).frames@) == spec_depth(old(self).frames@),
            spec_begun(
                old(self).frames@,
                old(self).inbox,
                final(self).frames@,
                final(self).inbox,
                instruction,
            ),
    {
        match instruction {
            Instruction::Expression(e) => {
                self.begin_expression(e);
            },
            Instruction::Branch(b) => {
                self.push(Frame::Branch { branch: b, stage: 0 });
                self.begin_expression(&b.main_branch.condition);
            },
            Instruction::WhileLoop(w) => {
                self.push(Frame::While { while_loop: w, in_body: false });
                self.begin_expression(&w.condition);
            },
            Instruction::ForLoop(f) => {
                self.push(Frame::For { for_loop: f, vector: None, index: 0 });
                self.begin_expression(&f.operand);
            },
            Instruction::Return(r) => {
                match &r.expr {
                    Some(e) => {
                        self.push(Frame::Return { function_return: r });
                        self.begin_expression(e);
                    },
                    None => {
                        self.inbox = Some(ReturnValue::Return(Value::Nil, r.expr_pos()));
                    },
                }
            },
            Instruction::Break(_) => {
                self.inbox = Some(ReturnValue::Break);
            },
            Instruction::VariableInit(v) => {
                self.push(Frame::Init { init: v });
                self.begin_expression(&v.expr);
            },
            Instruction::VariableAssign(v) => {
                self.push(Frame::Assign { assign: v, value: None });
                self.begin_expression(&v.expr);
            },
        }
    }

    fn begin_expression(&mut self, expression: &'a Expression)
        ensures
            final(self).reply == old(self).reply,
            final(self).inbox == old(self).inbox,
            final(self).frames@.len() == old(self).frames@.len() + 1,
            final(self).frames@.drop_last() == old(self).frames@,
            !(final(self).frames@.last() is Call),
            spec_depth(final(self).frames@) == spec_depth(old(self).frames@),
            spec_started(old(self).frames@, final(self).frames@, expression),
    {
        self.push(
            Frame::Expression(
                ExpressionFrame {
                    expression,
                    next: 0,
                    stack: Vec::new(),
                    waiting: Waiting::Nothing,
                },
            ),
        );
        assert(self.frames@.drop_last() =~= old(self).frames@);
    }

    /// What the frame that finished last handed in, if it is a value.
    fn take_value(&mut self) -> (r: Option<Value>)
        ensures
            r == spec_inbox_value(old(self).inbox),
            final(self).frames == old(self).frames,
            final(self).reply == old(self).reply,
            final(self).inbox is None,
    {
        let r = match self.inbox {
            Some(ReturnValue::Value(v)) => Some(v),
            Some(ReturnValue::Return(v, _)) => Some(v),
            _ => None,
        };
        self.inbox = None;
        r
    }

    /// Resolves the function of a call and puts the call on the stack, to
    /// bind its arguments next. Fails where no function can be called: none
    /// is found, or the number of arguments is not the number of its
    /// parameters. The error is marked at the name of the function.
    pub fn begin_call(
        &mut self,
        call: &'a FunctionCall,
        caller: Option<Value>,
        context: Context,
        pos: usize,
        session: &'a ParseSession,
    ) -> (r: Result<(), Error>)
        ensures
            final(self).reply == old(self).reply,
            final(self).inbox == old(self).inbox,
            r is Err ==> final(self).frames == old(self).frames,
            r is Ok ==> final(self).frames@.len() == old(self).frames@.len() + 1 && final(self).frames@.drop_last() == old(self).frames@ && !spec_is_traced(
                final(self).frames@.last(),
            ),
            r matches Err(e) ==> e.context == context && e.pos == spec_plus(
                pos as int,
                call.name_pos as int,
            ),
            match session.spec_resolve(call.name@, spec_query(call, caller)) {
                None => r matches Err(e) && (e.kind is FunctionNotFound
                    || e.kind is MemberFunctionIsPrivate),
                Some(function) => if function.spec_arguments()@.len() != call.arguments@.len() {
                    r matches Err(e) && e.kind is InvalidNumberOfArguments
                } else {
                    r is Ok && (final(self).frames@.last() matches Frame::Call(c) && c.call == call
                        && *c.function == function && c.caller == caller && c.context == context
                        && c.pos == pos && c.next == 0 && !c.running && (c.scope matches Some(scope)
                        && scope@ == Map::<Seq<char>, Variable>::empty()))
                },
            },
            spec_depth(final(self).frames@) == spec_depth(old(self).frames@),
    {
        let function = match session.get_function(call.name(), query(call, caller)) {
            Ok(f) => f,
            Err(kind) => {
                return Err(Error::new(context, plus(pos, call.name_pos()), kind));
            },
        };
        if function.arguments().len() != call.arguments().len() {
            return Err(
                Error::new(
                    context,
                    plus(pos, call.name_pos()),
                    ErrorKind::InvalidNumberOfArguments,
                ),
            );
        }
        self.push(
            Frame::Call(
                CallFrame {
                    call,
                    function,
                    caller,
                    context,
                    pos,
                    next: 0,
                    scope: Some(StringHashMap::new()),
                    running: false,
                },
            ),
        );
        assert(self.frames@.drop_last() =~= old(self).frames@);
        Ok(())
    }

    /// Takes the frames off the stack after an error. Each running call
    /// gives up its scope and its place in the call count, and a call of a
    /// function of the program, or of a constructor, leaves a line in the
    /// backtrace: the innermost call first.
    pub fn unwind(&mut self, exec: &mut ExecSession)
        ensures
            final(self).frames@.len() == 0,
            final(self).inbox is None,
            final(self).reply is None,
            spec_traces(final(exec).backtrace@) == spec_traces(old(exec).backtrace@) + spec_unwound(
                old(self).frames@,
            ),
            final(exec).call_count <= old(exec).call_count,
            final(exec).heap == old(exec).heap,
            final(exec).output_stream == old(exec).output_stream,
            final(exec).global_scope == old(exec).global_scope,
            old(exec).call_count >= spec_depth(old(self).frames@) ==> final(exec).call_count
                == old(exec).call_count - spec_depth(old(self).frames@),
            old(exec).local_scopes@.len() >= spec_depth(old(self).frames@) ==> final(exec).local_scopes@.len() == old(exec).local_scopes@.len() - spec_depth(old(self).frames@),
            spec_unwinds(old(self).frames@, old(exec), final(exec)),
    {
        self.inbox = None;
        self.reply = None;
        proof {
            lemma_depth_nonnegative(self.frames@);
        }
        loop
            invariant_except_break
                spec_traces(exec.backtrace@) + spec_unwound(self.frames@) == spec_traces(
                    old(exec).backtrace@,
                ) + spec_unwound(old(self).frames@),
            invariant
                self.inbox is None,
                self.reply is None,
                spec_depth(self.frames@) >= 0,
                old(exec).call_count >= spec_depth(old(self).frames@) ==> exec.call_count == old(exec).call_count - spec_depth(old(self).frames@) + spec_depth(self.frames@),
                old(exec).local_scopes@.len() >= spec_depth(old(self).frames@)
                    ==> exec.local_scopes@.len() == old(exec).local_scopes@.len() - spec_depth(
                    old(self).frames@,
                ) + spec_depth(self.frames@),
                exec.call_count <= old(exec).call_count,
                exec.heap == old(exec).heap,
                exec.output_stream == old(exec).output_stream,
                exec.global_scope == old(exec).global_scope,
            ensures
                self.frames@.len() == 0,
                spec_traces(exec.backtrace@) == spec_traces(old(exec).backtrace@) + spec_unwound(
                    old(self).frames@,
                ),
            decreases self.frames@.len(),
        {
            let ghost frames = self.frames@;
            let ghost trace = spec_traces(exec.backtrace@);
            match self.frames.pop() {
                None => {
                    assert(spec_unwound(frames) =~= Seq::empty());
                    assert(trace + spec_unwound(frames) =~= trace);
                    break ;
                },
                Some(frame) => {
                    assert(self.frames@ =~= frames.drop_last());
                    assert(frame == frames.last());
                    proof {
                        lemma_depth_nonnegative(self.frames@);
                    }
                    match frame {
                        Frame::Call(c) => {
                            if c.running {
                                if !c.function.is_builtin() || same_text(c.call.name(), "new") {
                                    exec.add_backtrace(
                                        BacktraceItem::new(c.call.name(), c.call.line_col()),
                                    );
                                    assert(spec_traces(exec.backtrace@) =~= trace + seq![
                                        spec_trace_of(c.call),
                                    ]);
                                    assert(spec_traces(exec.backtrace@) + spec_unwound(self.frames@)
                                        =~= trace + spec_unwound(frames));
                                }
                                exec.pop_scope();
                                exec.decrement_call_count();
                            }
                        },
                        _ => {},
                    }
                },
            }
        }
    }
}

fn same_text(a: &str, b: &str) -> (r: bool)
    ensures
        r == (a@ == b@),
{
    crate::text::same_text(&to_chars(a), &to_chars(b))
}

} // verus!

verus! {

impl<'a> Machine<'a> {
    /// The error for a frame that was handed nothing to go on with.
    fn stalled(context: Context) -> (e: Error)
        ensures
            e.context == context,
            e.pos == 0,
    {
        Error::new(context, 0, invalid_value())
    }

    fn step_block(&mut self, body: &'a Vec<Instruction>, next: usize) -> (r: Result<Option<Request>, Error>)
        ensures
            r matches Ok(None),
            final(self).reply == old(self).reply,
            spec_block_step(
                old(self).frames@,
                old(self).inbox,
                final(self).frames@,
                final(self).inbox,
                body,
                next,
            ),
            spec_depth(final(self).frames@) == spec_depth(old(self).frames@),
    {
        match self.inbox {
            Some(ReturnValue::Return(_, _)) | Some(ReturnValue::Break) => {},
            _ => {
                self.inbox = None;
                if next < body.len() {
                    self.push(Frame::Block { body, next: plus(next, 1) });
                    self.begin(&body[next]);
                } else {
                    self.inbox = Some(ReturnValue::Value(Value::Nil));
                }
            },
        }
        Ok(None)
    }

    /// What a condition decides: a boolean decides, anything else is an
    /// error that names the type of the value.
    fn decide(value: Option<Value>, context: Context, session: &ParseSession) -> (r: Result<
        bool,
        Error,
    >)
        ensures
            match value {
                Some(Value::Bool(b)) => r matches Ok(x) && x == b,
                Some(v) => r matches Err(e) && e.context == context && e.pos == 0 && (
                e.kind matches ErrorKind::ConditionalExpressionNotBool(t) && t@
                    == session.spec_typename(v.spec_typeid())),
                None => r matches Err(e) && e.context == context && e.pos == 0,
            },
    {
        match value {
            Some(Value::Bool(b)) => Ok(b),
            Some(v) => Err(
                Error::new(
                    context,
                    0,
                    ErrorKind::ConditionalExpressionNotBool(session.get_typename(v.typeid())),
                ),
            ),
            None => Err(Self::stalled(context)),
        }
    }

    fn step_branch(&mut self, branch: &'a Branch, stage: usize, session: &ParseSession) -> (r: Result<Option<Request>, Error>)
        ensures
            spec_depth(final(self).frames@) == spec_depth(old(self).frames@),
            final(self).reply == old(self).reply,
            spec_branch_step(
                old(self).frames@,
                old(self).inbox,
                final(self).frames@,
                final(self).inbox,
                branch,
                stage,
                session,
                r,
            ),
    {
        let value = self.take_value();
        if Self::decide(value, branch.context(), session)? {
            if stage == 0 {
                self.push(Frame::Block { body: &branch.main_branch.body, next: 0 });
            } else if stage - 1 < branch.else_if_branches.len() {
                self.push(
                    Frame::Block { body: &branch.else_if_branches[stage - 1].body, next: 0 },
                );
            } else {
                self.inbox = Some(ReturnValue::Value(Value::Nil));
            }
        } else if stage < branch.else_if_branches.len() {
            self.push(Frame::Branch { branch, stage: plus(stage, 1) });
            self.begin_expression(&branch.else_if_branches[stage].condition);
        } else if branch.else_branch.len() > 0 {
            self.push(Frame::Block { body: &branch.else_branch, next: 0 });
        } else {
            self.inbox = Some(ReturnValue::Value(Value::Nil));
        }
        Ok(None)
    }

    fn step_while(&mut self, while_loop: &'a WhileLoop, in_body: bool, session: &ParseSession) -> (r:
        Result<Option<Request>, Error>)
        ensures
            spec_depth(final(self).frames@) == spec_depth(old(self).frames@),
            final(self).reply == old(self).reply,
            spec_while_step(
                old(self).frames@,
                old(self).inbox,
                final(self).frames@,
                final(self).inbox,
                while_loop,
                in_body,
                session,
                r,
            ),
    {
        if in_body {
            match self.inbox {
                Some(ReturnValue::Return(_, _)) => {},
                Some(ReturnValue::Break) => {
                    self.inbox = Some(ReturnValue::Value(Value::Nil));
                },
                _ => {
                    self.inbox = None;
                    self.push(Frame::While { while_loop, in_body: false });
                    self.begin_expression(&while_loop.condition);
                },
            }
        } else {
            let value = self.take_value();
            if Self::decide(value, while_loop.context(), session)? {
                self.push(Frame::While { while_loop, in_body: true });
                self.push(Frame::Block { body: &while_loop.body, next: 0 });
            } else {
                self.inbox = Some(ReturnValue::Value(Value::Nil));
            }
        }
        Ok(None)
    }

    fn step_for(
        &mut self,
        for_loop: &'a ForLoop,
        vector: Option<usize>,
        index: usize,
        exec: &mut ExecSession,
        session: &ParseSession,
    ) -> (r: Result<Option<Request>, Error>)
        ensures
            final(exec).call_count == old(exec).call_count,
            final(exec).local_scopes@.len() == old(exec).local_scopes@.len(),
            spec_depth(final(self).frames@) == spec_depth(old(self).frames@),
            final(self).reply == old(self).reply,
            spec_for_step(
                old(self).frames@,
                old(self).inbox,
                old(exec),
                final(self).frames@,
                final(self).inbox,
                final(exec),
                for_loop,
                vector,
                index,
                session,
                r,
            ),
    {
        let id = match vector {
            None => {
                match self.take_value() {
                    Some(Value::Vector(id)) => id,
                    Some(v) => {
                        return Err(
                            Error::new(
                                for_loop.context(),
                                for_loop.operand_pos,
                                ErrorKind::ForLoopNotVec(session.get_typename(v.typeid())),
                            ),
                        );
                    },
                    None => {
                        return Err(Self::stalled(for_loop.context()));
                    },
                }
            },
            Some(id) => {
                match self.inbox {
                    Some(ReturnValue::Return(_, _)) => {
                        return Ok(None);
                    },
                    Some(ReturnValue::Break) => {
                        self.inbox = Some(ReturnValue::Value(Value::Nil));
                        return Ok(None);
                    },
                    _ => {
                        self.inbox = None;
                    },
                }
                id
            },
        };
        match for_item(&exec.heap, id, index) {
            Some(value) => {
                exec.add_variable(for_loop.alias.as_str(), Variable::new(value, false));
                self.push(Frame::For { for_loop, vector: Some(id), index: plus(index, 1) });
                self.push(Frame::Block { body: &for_loop.body, next: 0 });
            },
            None => {
                self.inbox = Some(ReturnValue::Value(Value::Nil));
            },
        }
        Ok(None)
    }

    fn step_init(&mut self, init: &'a VariableInit, exec: &mut ExecSession, session: &ParseSession) -> (r:
        Result<Option<Request>, Error>)
        ensures
            final(exec).call_count == old(exec).call_count,
            final(exec).local_scopes@.len() == old(exec).local_scopes@.len(),
            spec_depth(final(self).frames@) == spec_depth(old(self).frames@),
            final(self).reply == old(self).reply,
            spec_init_step(
                old(self).frames@,
                old(self).inbox,
                old(exec),
                final(self).frames@,
                final(self).inbox,
                final(exec),
                init,
                session,
                r,
            ),
    {
        let value = match self.take_value() {
            Some(v) => v,
            None => {
                return Err(Self::stalled(init.context()));
            },
        };
        let mut i: usize = 0;
        proof {
            lemma_first_refused_bounds(init.identifiers@, value, 0);
        }
        while i < init.identifiers.len()
            invariant
                i <= init.identifiers.len(),
                self.frames == old(self).frames,
                self.reply == old(self).reply,
                spec_inbox_value(old(self).inbox) == Some(value),
                spec_first_refused(init.identifiers@, value, i as int) == spec_first_refused(
                    init.identifiers@,
                    value,
                    0,
                ),
                i <= spec_first_refused(init.identifiers@, value, 0),
                ExecSession::spec_same_but_scope(old(exec), exec),
                exec.spec_scope() == spec_declared(
                    old(exec).spec_scope(),
                    init.identifiers@,
                    value,
                    i as int,
                ),
                exec.call_count == old(exec).call_count,
                exec.local_scopes@.len() == old(exec).local_scopes@.len(),
            decreases init.identifiers.len() - i,
        {
            let item = &init.identifiers[i];
            proof {
                lemma_first_refused_bounds(init.identifiers@, value, i as int);
                lemma_first_refused_bounds(init.identifiers@, value, i + 1);
            }
            match bind(item.typeid(), value) {
                Some(variable) => exec.add_variable(item.name(), variable),
                None => {
                    assert(spec_first_refused(init.identifiers@, value, i as int) == i);
                    assert(item.typeid is Some);
                    let expected = match item.typeid() {
                        Some(typeid) => typeid,
                        None => TYPEID_DYN,
                    };
                    return Err(
                        Error::new(
                            init.context(),
                            init.assign_pos,
                            ErrorKind::InvalidAssignment(
                                session.get_typename(expected),
                                session.get_typename(value.typeid()),
                            ),
                        ),
                    );
                },
            }
            i = i + 1;
        }
        self.inbox = Some(ReturnValue::Value(Value::Nil));
        Ok(None)
    }

    fn step_assign(
        &mut self,
        assign: &'a VariableAssign,
        value: Option<Value>,
        exec: &mut ExecSession,
        session: &ParseSession,
    ) -> (r: Result<Option<Request>, Error>)
        ensures
            final(exec).call_count == old(exec).call_count,
            final(exec).local_scopes@.len() == old(exec).local_scopes@.len(),
            spec_depth(final(self).frames@) == spec_depth(old(self).frames@),
            final(self).reply == old(self).reply,
            spec_assign_step(
                old(self).frames@,
                old(self).inbox,
                old(exec),
                final(self).frames@,
                final(self).inbox,
                final(exec),
                assign,
                value,
                session,
                r,
            ),
    {
        let arrived = match self.take_value() {
            Some(v) => v,
            None => {
                return Err(Self::stalled(assign.context()));
            },
        };
        match value {
            None => {
                match &assign.source_expr {
                    Some((source, _)) => {
                        self.push(Frame::Assign { assign, value: Some(arrived) });
                        self.begin_expression(source);
                    },
                    None => {
                        match exec.assign_variable(assign.identifier.as_str(), arrived, session) {
                            Ok(()) => {},
                            Err(ErrorKind::IdentifierNotFound) => {
                                return Err(
                                    Error::new(
                                        assign.context(),
                                        0,
                                        ErrorKind::IdentifierNotFound,
                                    ),
                                );
                            },
                            Err(kind) => {
                                return Err(Error::new(assign.context(), assign.assign_pos, kind));
                            },
                        }
                        self.inbox = Some(ReturnValue::Value(Value::Nil));
                    },
                }
            },
            Some(rhs) => {
                let dot_pos = match &assign.source_expr {
                    Some((_, pos)) => *pos,
                    None => 0,
                };
                match arrived {
                    Value::Class { object, typeid } => {
                        let private_access = match assign.private_access_typeid {
                            Some(id) => id == typeid,
                            None => false,
                        };
                        match exec.heap.set_property(
                            object,
                            assign.identifier.as_str(),
                            private_access,
                            rhs,
                            session,
                        ) {
                            Ok(()) => {},
                            Err(ErrorKind::HasNoMember(t, n)) => {
                                return Err(
                                    Error::new(
                                        assign.context(),
                                        dot_pos,
                                        ErrorKind::HasNoMember(t, n),
                                    ),
                                );
                            },
                            Err(ErrorKind::MemberIsPrivate(n)) => {
                                return Err(
                                    Error::new(
                                        assign.context(),
                                        assign.id_pos,
                                        ErrorKind::MemberIsPrivate(n),
                                    ),
                                );
                            },
                            Err(ErrorKind::InvalidAssignment(a, b)) => {
                                return Err(
                                    Error::new(
                                        assign.context(),
                                        assign.assign_pos,
                                        ErrorKind::InvalidAssignment(a, b),
                                    ),
                                );
                            },
                            Err(kind) => {
                                return Err(Error::new(assign.context(), 0, kind));
                            },
                        }
                    },
                    _ => {
                        return Err(
                            Error::new(assign.context(), 0, ErrorKind::InvalidMemberAccess),
                        );
                    },
                }
                self.inbox = Some(ReturnValue::Value(Value::Nil));
            },
        }
        Ok(None)
    }

    fn step_return(&mut self, function_return: &'a Return) -> (r: Result<Option<Request>, Error>)
        ensures
            spec_depth(final(self).frames@) == spec_depth(old(self).frames@),
            final(self).reply == old(self).reply,
            spec_return_step(
                old(self).frames@,
                old(self).inbox,
                final(self).frames@,
                final(self).inbox,
                function_return,
                r,
            ),
    {
        match self.take_value() {
            Some(value) => {
                self.inbox = Some(ReturnValue::Return(value, function_return.expr_pos()));
                Ok(None)
            },
            None => Err(Self::stalled(function_return.context())),
        }
    }

    fn step_function(&mut self, function: &'a UserFunction, next: usize, session: &ParseSession) -> (r:
        Result<Option<Request>, Error>)
        ensures
            spec_depth(final(self).frames@) == spec_depth(old(self).frames@),
            final(self).reply == old(self).reply,
            spec_function_step(
                old(self).frames@,
                old(self).inbox,
                final(self).frames@,
                final(self).inbox,
                function,
                next,
                session,
                r,
            ),
    {
        let arrived = self.inbox;
        self.inbox = None;
        let context = if 0 < next && next - 1 < function.body.len() {
            function.body[next - 1].context()
        } else {
            function.context()
        };
        match arrived {
            Some(ReturnValue::Return(value, pos)) => {
                if return_allowed(function.return_typeid, value) {
                    self.inbox = Some(ReturnValue::Value(value));
                    Ok(None)
                } else {
                    let expected = match function.return_typeid {
                        Some((expected, _)) => expected,
                        None => TYPEID_DYN,
                    };
                    Err(
                        Error::new(
                            context,
                            minus(pos, context.start),
                            ErrorKind::InvalidReturnType(
                                session.get_typename(value.typeid()),
                                session.get_typename(expected),
                            ),
                        ),
                    )
                }
            },
            Some(ReturnValue::Break) => Err(Error::new(context, 0, ErrorKind::SyntaxError)),
            _ => {
                if next < function.body.len() {
                    self.push(Frame::Function { function, next: plus(next, 1) });
                    self.begin(&function.body[next]);
                    Ok(None)
                } else {
                    match function_end(function.return_typeid) {
                        Some((expected, pos)) => Err(
                            Error::new(
                                function.context(),
                                minus(pos, function.context().start),
                                ErrorKind::InvalidReturnType(
                                    session.get_typename(TYPEID_NONE),
                                    session.get_typename(expected),
                                ),
                            ),
                        ),
                        None => {
                            self.inbox = Some(ReturnValue::Value(Value::Nil));
                            Ok(None)
                        },
                    }
                }
            },
        }
    }

    fn step_builtin(
        &mut self,
        body: builtin::Builtin,
        context: Context,
        pos: usize,
        exec: &mut ExecSession,
        session: &ParseSession,
    ) -> (r: Result<Option<Request>, Error>)
        ensures
            final(exec).call_count == old(exec).call_count,
            final(exec).local_scopes@.len() == old(exec).local_scopes@.len(),
            spec_depth(final(self).frames@) == spec_depth(old(self).frames@),
            spec_builtin_step(
                old(self).frames@,
                old(self).reply,
                old(exec),
                final(self).frames@,
                final(self).inbox,
                final(self).reply,
                final(exec),
                body,
                context,
                pos,
                session,
                r,
            ),
    {
        let mut reply: Option<Reply> = None;
        core::mem::swap(&mut reply, &mut self.reply);
        match reply {
            None => Err(Error::new(context, pos, invalid_value())),
            Some(reply) => match builtin::finish(body, reply, exec, session) {
                Ok(value) => {
                    self.inbox = Some(ReturnValue::Value(value));
                    Ok(None)
                },
                Err(kind) => Err(Error::new(context, pos, kind)),
            },
        }
    }

    fn step_constructor(
        &mut self,
        class: &'a ClassDefinition,
        next: usize,
        instance: ClassInstance,
        exec: &mut ExecSession,
        session: &ParseSession,
    ) -> (r: Result<Option<Request>, Error>)
        ensures
            final(exec).call_count == old(exec).call_count,
            final(exec).local_scopes@.len() == old(exec).local_scopes@.len(),
            spec_depth(final(self).frames@) == spec_depth(old(self).frames@),
            final(self).reply == old(self).reply,
            spec_constructor_step(
                old(self).frames@,
                old(self).inbox,
                old(exec),
                final(self).frames@,
                final(self).inbox,
                final(exec),
                class,
                next,
                instance.typeid,
                instance.properties@,
                session,
                r,
            ),
    {
        let mut instance = instance;
        let properties = class.property_definitions();
        if 0 < next && next - 1 < properties.len() {
            let item = &properties[next - 1];
            let value = match self.take_value() {
                Some(v) => v,
                None => {
                    return Err(Self::stalled(item.context));
                },
            };
            match bind(Some(item.id.typeid()), value) {
                Some(variable) => instance.add_property(item.id.name(), variable, item.is_public),
                None => {
                    return Err(
                        Error::new(
                            item.context,
                            item.assign_pos,
                            ErrorKind::InvalidAssignment(
                                session.get_typename(item.id.typeid()),
                                session.get_typename(value.typeid()),
                            ),
                        ),
                    );
                },
            }
        }
        self.inbox = None;
        if next < properties.len() {
            let ghost below = self.frames@;
            self.push(Frame::Constructor { class, next: plus(next, 1), instance });
            let ghost middle = self.frames@;
            self.begin_expression(&properties[next].init_expression);
            assert(self.frames@.drop_last() == middle);
            assert(self.frames@.subrange(0, below.len() as int) =~= below);
            assert(self.frames@[below.len() as int] == middle.last());
        } else {
            let value = exec.heap.new_instance(instance);
            assert(exec.heap.instances@.drop_last() =~= old(exec).heap.instances@);
            self.inbox = Some(ReturnValue::Value(value));
        }
        Ok(None)
    }

    /// The class that the constructor in the current scope is to make an
    /// instance of: the scope of a scoped call names it as `#`.
    fn constructed(exec: &ExecSession, session: &'a ParseSession) -> (r: Option<&'a ClassDefinition>)
        ensures
            match r {
                Some(class) => spec_class_to_construct(exec, session) == Some(*class),
                None => spec_class_to_construct(exec, session) is None,
            },
    {
        match exec.get_variable("#") {
            Some(variable) => match variable.get_value_clone() {
                Value::Int(id) => {
                    if id < 0 {
                        None
                    } else {
                        session.get_class_definition(id as usize)
                    }
                },
                _ => None,
            },
            None => None,
        }
    }

    fn step_call(&mut self, frame: CallFrame<'a>, exec: &mut ExecSession, session: &'a ParseSession) -> (r:
        Result<Option<Request>, Error>)
        ensures
            old(exec).call_count <= FUNCTION_CALL_LIMIT ==> final(exec).call_count
                <= FUNCTION_CALL_LIMIT,
            !frame.running || (old(exec).call_count > 0 && old(exec).local_scopes@.len() > 0)
                ==> spec_level(
                spec_depth(old(self).frames@) + if frame.running {
                    1int
                } else {
                    0int
                },
                old(exec),
                spec_depth(final(self).frames@),
                final(exec),
            ),
            final(self).reply == old(self).reply,
            spec_call_step(
                old(self).frames@,
                old(self).inbox,
                old(exec),
                final(self).frames@,
                final(self).inbox,
                final(exec),
                frame,
                session,
                r,
            ),
    {
        let ghost frame0 = frame;
        let ghost scope0 = match frame0.scope {
            Some(s) => s@,
            None => Map::empty(),
        };
        let CallFrame { call, function, caller, context, pos, next, scope, running } = frame;
        if running {
            let value = self.take_value();
            exec.pop_scope();
            exec.decrement_call_count();
            return match value {
                Some(v) => {
                    self.inbox = Some(ReturnValue::Value(v));
                    Ok(None)
                },
                None => Err(Self::stalled(context)),
            };
        }
        let mut scope = match scope {
            Some(s) => s,
            None => StringHashMap::new(),
        };
        assert(scope@ == scope0);
        let parameters = function.arguments();
        let arguments = call.arguments();
        if 0 < next && next - 1 < parameters.len() && next - 1 < arguments.len() {
            let parameter = &parameters[next - 1];
            let value = match self.take_value() {
                Some(v) => v,
                None => {
                    return Err(Self::stalled(context));
                },
            };
            match bind_argument(&mut scope, parameter, value, session) {
                Ok(()) => {},
                Err(kind) => {
                    return Err(
                        Error::new(
                            context,
                            minus(arguments[next - 1].context().start, context.start),
                            kind,
                        ),
                    );
                },
            }
        }
        self.inbox = None;
        let ghost bound = scope@;
        if next < arguments.len() && next < parameters.len() {
            let ghost below = self.frames@;
            self.push(
                Frame::Call(
                    CallFrame {
                        call,
                        function,
                        caller,
                        context,
                        pos,
                        next: next + 1,
                        scope: Some(scope),
                        running: false,
                    },
                ),
            );
            let ghost middle = self.frames@;
            self.begin_expression(&arguments[next]);
            assert(self.frames@.drop_last() == middle);
            assert(self.frames@.subrange(0, below.len() as int) =~= below);
            assert(self.frames@[below.len() as int] == middle.last());
            let result = Ok(None);
            assert(spec_call_go(
                old(self).frames@,
                old(exec),
                self.frames@,
                self.inbox,
                exec,
                frame0,
                bound,
                session,
                result,
            ));
            return result;
        }
        bind_implicit(&mut scope, call, caller);
        let ghost full = scope@;
        exec.increment_call_count()?;
        exec.add_scope(scope);
        let ghost mid = *exec;
        assert(exec.local_scopes@.drop_last() =~= old(exec).local_scopes@);
        assert(spec_entered(old(exec), &mid, full));
        self.push(
            Frame::Call(
                CallFrame {
                    call,
                    function,
                    caller,
                    context,
                    pos,
                    next,
                    scope: None,
                    running: true,
                },
            ),
        );
        let ghost base = self.frames@;
        assert(base == old(self).frames@.push(spec_running_call(frame0)));
        let result = match function {
            Function::UserFunction(f) => {
                self.push(Frame::Function { function: f, next: 0 });
                let result = Ok(None);
                assert(spec_function_started(
                            base,
                            &mid,
                            self.frames@,
                            self.inbox,
                            exec,
                            function,
                            context,
                            pos,
                            session,
                            result,
                        ));
                result
            },
            Function::BuiltinFunction(f) => {
                let started = builtin::start(f.body, exec, session);
                let ghost outcome = started;
                assert(builtin::spec_start_is(f.body, &mid, exec, session, outcome));
                match started {
                    Ok(Outcome::Done(value)) => {
                        self.inbox = Some(ReturnValue::Value(value));
                        let result = Ok(None);
                        assert(spec_function_started(
                            base,
                            &mid,
                            self.frames@,
                            self.inbox,
                            exec,
                            function,
                            context,
                            pos,
                            session,
                            result,
                        ));
                        result
                    },
                    Ok(Outcome::Ask(request)) => {
                        self.push(Frame::Builtin { builtin: f.body, context, pos });
                        let result = Ok(Some(request));
                        assert(spec_function_started(
                            base,
                            &mid,
                            self.frames@,
                            self.inbox,
                            exec,
                            function,
                            context,
                            pos,
                            session,
                            result,
                        ));
                        result
                    },
                    Ok(Outcome::Construct) => match Self::constructed(exec, session) {
                        Some(class) => {
                            self.push(
                                Frame::Constructor {
                                    class,
                                    next: 0,
                                    instance: ClassInstance::new(class.typeid()),
                                },
                            );
                            assert(self.frames@.drop_last() =~= base);
                            let result = Ok(None);
                            assert(spec_function_started(
                            base,
                            &mid,
                            self.frames@,
                            self.inbox,
                            exec,
                            function,
                            context,
                            pos,
                            session,
                            result,
                        ));
                            result
                        },
                        None => {
                            let result = Err(Error::new(context, pos, invalid_value()));
                            assert(spec_function_started(
                            base,
                            &mid,
                            self.frames@,
                            self.inbox,
                            exec,
                            function,
                            context,
                            pos,
                            session,
                            result,
                        ));
                            result
                        },
                    },
                    Err(kind) => {
                        let result = Err(Error::new(context, pos, kind));
                        assert(spec_function_started(
                            base,
                            &mid,
                            self.frames@,
                            self.inbox,
                            exec,
                            function,
                            context,
                            pos,
                            session,
                            result,
                        ));
                        result
                    },
                }
            },
        };
        assert(spec_function_started(
            base,
            &mid,
            self.frames@,
            self.inbox,
            exec,
            function,
            context,
            pos,
            session,
            result,
        ));
        assert(spec_call_go(
            old(self).frames@,
            old(exec),
            self.frames@,
            self.inbox,
            exec,
            frame0,
            bound,
            session,
            result,
        ));
        result
    }
}

} // verus!

verus! {

/// Whether a frame is the expression in the given state.
pub open spec fn spec_is_expression(
    frame: Frame,
    expression: &Expression,
    next: usize,
    stack: Seq<Operand>,
    waiting: Waiting,
) -> bool {
    frame matches Frame::Expression(f) && f.expression == expression && f.next == next && f.stack@
        == stack && f.waiting == waiting
}

/// Whether `after` is `below` with the expression, in the given state, on
/// top.
pub open spec fn spec_expression_on(
    below: Seq<Frame>,
    after: Seq<Frame>,
    expression: &Expression,
    next: usize,
    stack: Seq<Operand>,
    waiting: Waiting,
) -> bool {
    after.len() == below.len() + 1 && after.drop_last() == below && spec_is_expression(
        after.last(),
        expression,
        next,
        stack,
        waiting,
    )
}

/// The value of an operand that is no call: a value is itself, and an
/// identifier is the value of the variable of that name in the current
/// scope, if there is one.
pub open spec fn spec_operand_value(operand: Operand, exec: &ExecSession) -> Option<Value> {
    match operand {
        Operand::Value(v) => Some(v),
        Operand::Identifier(name, _) => builtin::spec_argument(exec, name@),
        Operand::FunctionCall(_, _) => None,
    }
}

/// Where an operand stands in its expression.
pub open spec fn spec_operand_pos(operand: Operand) -> usize {
    match operand {
        Operand::Value(_) => 0,
        Operand::Identifier(_, pos) => pos,
        Operand::FunctionCall(_, pos) => pos,
    }
}

/// The error of a step, if it failed.
pub open spec fn spec_failure(r: Result<Option<Request>, Error>) -> Option<Error> {
    match r {
        Ok(_) => None,
        Err(e) => Some(e),
    }
}

/// Whether a step failed with an error of the kind `kind`, marked at `pos`
/// of the span `context`, and left the frames so that the error passes the
/// same calls on its way out as before the step.
pub open spec fn spec_fails(
    before: Seq<Frame>,
    after: Seq<Frame>,
    failure: Option<Error>,
    context: Context,
    pos: usize,
) -> bool {
    (failure matches Some(e) && e.context == context && e.pos == pos) && spec_unwound(after)
        == spec_unwound(before)
}

/// An expression starts a call and waits for it. The function is resolved
/// as [`ParseSession::spec_resolve`] says, for the query of [`spec_query`].
/// A call that reaches no function fails, and so does one whose number of
/// arguments is not the number of parameters; the error is marked at the
/// name of the function. Otherwise the expression stays on the stack in the
/// state `waiting`, and the call stands on top of it, about to bind its
/// first argument.
pub open spec fn spec_suspended(
    before: Seq<Frame>,
    after: Seq<Frame>,
    expression: &Expression,
    next: usize,
    stack: Seq<Operand>,
    waiting: Waiting,
    call: &FunctionCall,
    caller: Option<Value>,
    pos: usize,
    session: &ParseSession,
    failure: Option<Error>,
) -> bool {
    let at = spec_plus(pos as int, call.name_pos as int) as usize;
    match session.spec_resolve(call.name@, spec_query(call, caller)) {
        None => spec_fails(before, after, failure, expression.context, at) && (
        failure->0.kind is FunctionNotFound || failure->0.kind is MemberFunctionIsPrivate),
        Some(function) => if function.spec_arguments()@.len() != call.arguments@.len() {
            spec_fails(before, after, failure, expression.context, at) && failure->0.kind
                is InvalidNumberOfArguments
        } else {
            &&& failure is None
            &&& after.len() == before.len() + 2
            &&& after.subrange(0, before.len() as int) == before
            &&& spec_is_expression(after[before.len() as int], expression, next, stack, waiting)
            &&& spec_is_binding(
                after.last(),
                call,
                &function,
                caller,
                expression.context,
                pos,
                0,
                Map::empty(),
            )
        },
    }
}

/// Whether `after` is `before` with one more string in the heap, of the
/// given text, and nothing else changed.
pub open spec fn spec_string_added(before: &ExecSession, after: &ExecSession, text: Seq<char>) -> bool {
    &&& spec_same_frames(before, after)
    &&& after.output_stream == before.output_stream
    &&& after.heap.vectors == before.heap.vectors
    &&& after.heap.instances == before.heap.instances
    &&& after.heap.strings@.len() == before.heap.strings@.len() + 1
    &&& after.heap.strings@.drop_last() == before.heap.strings@
    &&& after.heap.strings@.last()@ == text
}

/// An expression takes the value of the operand at `slot`.
///
/// A call is started, and the expression waits for it
/// ([`spec_suspended`]). An identifier that names no variable of the current
/// scope is an error, marked at the identifier. In every other case the
/// operand has a value ([`spec_operand_value`]), which takes the place of
/// the operand on the stack.
pub open spec fn spec_operand_is(
    before: Seq<Frame>,
    after: Seq<Frame>,
    expression: &Expression,
    next: usize,
    stack: Seq<Operand>,
    waiting: Waiting,
    slot: usize,
    exec: &ExecSession,
    session: &ParseSession,
    r: Result<Option<(ExpressionFrame, Value)>, Error>,
) -> bool {
    match stack[slot as int] {
        Operand::FunctionCall(call, pos) => !(r matches Ok(Some(_))) && spec_suspended(
            before,
            after,
            expression,
            next,
            stack,
            Waiting::Operand(slot),
            call,
            None,
            pos,
            session,
            match r {
                Ok(_) => None,
                Err(e) => Some(e),
            },
        ),
        operand => after == before && match spec_operand_value(operand, exec) {
            Some(v) => r matches Ok(Some((f, value))) && value == v && f.expression == expression
                && f.next == next && f.waiting == waiting && f.stack@ == stack.update(
                slot as int,
                Operand::Value(v),
            ),
            None => r matches Err(e) && e.kind is IdentifierNotFound && e.context
                == expression.context && e.pos == spec_operand_pos(operand),
        },
    }
}

/// The value that a literal stands for, for the literals that need neither
/// the heap nor the host.
pub open spec fn spec_plain_literal(literal: Literal) -> Option<Value> {
    match literal {
        Literal::Nil => Some(Value::Nil),
        Literal::Int(i) => Some(Value::Int(i)),
        Literal::Bool(b) => Some(Value::Bool(b)),
        _ => None,
    }
}

/// An expression goes on with the next token and the given stack.
pub open spec fn spec_advanced(
    before: Seq<Frame>,
    after: Seq<Frame>,
    expression: &Expression,
    next: usize,
    stack: Seq<Operand>,
) -> bool {
    spec_expression_on(
        before,
        after,
        expression,
        spec_plus(next as int, 1) as usize,
        stack,
        Waiting::Nothing,
    )
}

/// A step on a literal. `none`, an integer and a boolean are pushed as
/// values. A string literal makes a new string each time it is evaluated.
/// A float literal is handed to the host as text, and the expression waits
/// for the float.
pub open spec fn spec_literal_step(
    before: Seq<Frame>,
    exec: &ExecSession,
    after: Seq<Frame>,
    after_exec: &ExecSession,
    expression: &Expression,
    next: usize,
    stack: Seq<Operand>,
    literal: Literal,
    r: Result<Option<Request>, Error>,
) -> bool {
    match literal {
        Literal::Str(text) => (r matches Ok(None)) && spec_string_added(exec, after_exec, text@)
            && spec_advanced(
            before,
            after,
            expression,
            next,
            stack.push(Operand::Value(Value::Str(exec.heap.strings@.len() as usize))),
        ),
        Literal::Float(text) => (r matches Ok(Some(Request::Parse(t))) && t@ == text@)
            && *after_exec == *exec && spec_expression_on(
            before,
            after,
            expression,
            next,
            stack,
            Waiting::Literal,
        ),
        _ => (r matches Ok(None)) && *after_exec == *exec && spec_advanced(
            before,
            after,
            expression,
            next,
            stack.push(Operand::Value(spec_plain_literal(literal)->0)),
        ),
    }
}

/// An expression ends: the operand on top of the stack is its value. A
/// string is handed in as a copy, so that what takes the value of the
/// expression holds a string of its own.
pub open spec fn spec_end_step(
    before: Seq<Frame>,
    exec: &ExecSession,
    after: Seq<Frame>,
    after_inbox: Option<ReturnValue>,
    after_exec: &ExecSession,
    expression: &Expression,
    next: usize,
    stack: Seq<Operand>,
    inbox: Option<ReturnValue>,
    session: &ParseSession,
    r: Result<Option<Request>, Error>,
) -> bool {
    if stack.len() == 0 {
        *after_exec == *exec && spec_fails(before, after, spec_failure(r), expression.context, 0)
            && r->Err_0.kind is SyntaxError
    } else {
        match stack.last() {
            Operand::FunctionCall(call, pos) => *after_exec == *exec && after_inbox == inbox && (r
                is Err || r matches Ok(None)) && spec_suspended(
                before,
                after,
                expression,
                next,
                stack,
                Waiting::Operand((stack.len() - 1) as usize),
                call,
                None,
                pos,
                session,
                spec_failure(r),
            ),
            operand => after == before && match spec_operand_value(operand, exec) {
                None => *after_exec == *exec && (r matches Err(e) && e.kind is IdentifierNotFound
                    && e.context == expression.context && e.pos == spec_operand_pos(operand)),
                Some(Value::Str(id)) => (r matches Ok(None)) && spec_string_added(
                    exec,
                    after_exec,
                    exec.heap.spec_text(id),
                ) && after_inbox == Some(
                    ReturnValue::Value(Value::Str(exec.heap.strings@.len() as usize)),
                ),
                Some(v) => (r matches Ok(None)) && *after_exec == *exec && after_inbox == Some(
                    ReturnValue::Value(v),
                ),
            },
        }
    }
}

/// Whether `e` says that the unary operator does not take a value of the
/// type of the operand.
pub open spec fn spec_is_unary_error(e: ErrorKind, op: Operator, operand: Value, session: &ParseSession) -> bool {
    e matches ErrorKind::InvalidOperationForType(o, t) && o == op && t@ == session.spec_typename(
        operand.spec_typeid(),
    )
}

/// What `-` and `not` make of a value, `None` where the operator does not
/// take the value.
pub open spec fn spec_unary_value(op: Operator, operand: Value) -> Option<Value> {
    match (op, operand) {
        (Operator::Neg, Value::Int(n)) => Some(Value::Int(operation::spec_negated(n))),
        (Operator::Neg, Value::Float(f)) => Some(Value::Float(f ^ operation::FLOAT_SIGN)),
        (Operator::Not, Value::Bool(b)) => Some(Value::Bool(!b)),
        _ => None,
    }
}

/// A step on a unary operator: it takes the value of the operand on top of
/// the stack ([`spec_operand_is`]) and puts its result there. `typeof` makes
/// a new string with the name of the type of the operand.
pub open spec fn spec_unary_step(
    before: Seq<Frame>,
    exec: &ExecSession,
    after: Seq<Frame>,
    after_exec: &ExecSession,
    expression: &Expression,
    next: usize,
    stack: Seq<Operand>,
    op: Operator,
    pos: usize,
    session: &ParseSession,
    r: Result<Option<Request>, Error>,
) -> bool {
    let n = stack.len();
    if n == 0 {
        *after_exec == *exec && spec_fails(
            before,
            after,
            spec_failure(r),
            expression.context,
            pos,
        ) && r->Err_0.kind is SyntaxError
    } else {
        match stack.last() {
            Operand::FunctionCall(call, p) => *after_exec == *exec && (r is Err
                || r matches Ok(None)) && spec_suspended(
                before,
                after,
                expression,
                next,
                stack,
                Waiting::Operand((n - 1) as usize),
                call,
                None,
                p,
                session,
                spec_failure(r),
            ),
            operand => match spec_operand_value(operand, exec) {
                None => *after_exec == *exec && after == before && (r matches Err(e) && e.kind
                    is IdentifierNotFound && e.context == expression.context && e.pos
                    == spec_operand_pos(operand)),
                Some(v) => if op == Operator::Typeof {
                    (r matches Ok(None)) && spec_string_added(
                        exec,
                        after_exec,
                        session.spec_typename(v.spec_typeid()),
                    ) && spec_advanced(
                        before,
                        after,
                        expression,
                        next,
                        stack.drop_last().push(
                            Operand::Value(Value::Str(exec.heap.strings@.len() as usize)),
                        ),
                    )
                } else {
                    *after_exec == *exec && match spec_unary_value(op, v) {
                        Some(value) => (r matches Ok(None)) && spec_advanced(
                            before,
                            after,
                            expression,
                            next,
                            stack.drop_last().push(Operand::Value(value)),
                        ),
                        None => after == before && (r matches Err(e) && e.context
                            == expression.context && e.pos == pos && spec_is_unary_error(
                            e.kind,
                            op,
                            v,
                            session,
                        )),
                    }
                },
            },
        }
    }
}

/// Whether nothing but the strings of the heap differs between two states
/// of the session.
pub open spec fn spec_same_but_strings(before: &ExecSession, after: &ExecSession) -> bool {
    &&& spec_same_frames(before, after)
    &&& after.output_stream == before.output_stream
    &&& after.heap.vectors == before.heap.vectors
    &&& after.heap.instances == before.heap.instances
}

/// A binary operator is applied to the two values on top of the stack
/// `stack`, the left one below the right one. What the operator gives is
/// said by [`operation::spec_binary_is`]: a value takes the place of the two
/// operands; float arithmetic is handed to the host, and the expression
/// waits for the result with the operands still on the stack; an error is
/// marked at the operator.
pub open spec fn spec_applied(
    before: Seq<Frame>,
    exec: &ExecSession,
    after: Seq<Frame>,
    after_exec: &ExecSession,
    expression: &Expression,
    next: usize,
    stack: Seq<Operand>,
    op: Operator,
    pos: usize,
    lhs: Value,
    rhs: Value,
    session: &ParseSession,
    r: Result<Option<Request>, Error>,
) -> bool {
    &&& spec_same_but_strings(exec, after_exec)
    &&& exists|outcome: Result<Applied, ErrorKind>|
        {
            &&& #[trigger] operation::spec_binary_is(
                op,
                lhs,
                rhs,
                &exec.heap,
                &after_exec.heap,
                session,
                outcome,
            )
            &&& match outcome {
                Ok(Applied::Value(value)) => (r matches Ok(None)) && spec_advanced(
                    before,
                    after,
                    expression,
                    next,
                    stack.subrange(0, stack.len() - 2).push(Operand::Value(value)),
                ),
                Ok(Applied::Float(float_op, a, b)) => r == Ok::<Option<Request>, Error>(
                    Some(Request::Binary(float_op, a, b)),
                ) && spec_expression_on(before, after, expression, next, stack, Waiting::Float),
                Err(kind) => after == before && (r matches Err(e) && e.kind == kind && e.context
                    == expression.context && e.pos == pos),
            }
        }
}

/// A step on a binary operator other than the member operator. The
/// operator takes the value of its left operand first, then that of its
/// right operand ([`spec_operand_is`]), so that a call on the left runs
/// before a call on the right. Then it is applied ([`spec_applied`]).
pub open spec fn spec_binary_step(
    before: Seq<Frame>,
    exec: &ExecSession,
    after: Seq<Frame>,
    after_exec: &ExecSession,
    expression: &Expression,
    next: usize,
    stack: Seq<Operand>,
    op: Operator,
    pos: usize,
    session: &ParseSession,
    r: Result<Option<Request>, Error>,
) -> bool {
    let n = stack.len();
    if n < 2 {
        *after_exec == *exec && spec_fails(
            before,
            after,
            spec_failure(r),
            expression.context,
            pos,
        ) && r->Err_0.kind is SyntaxError
    } else {
        match stack[n - 2] {
            Operand::FunctionCall(call, p) => *after_exec == *exec && (r is Err
                || r matches Ok(None)) && spec_suspended(
                before,
                after,
                expression,
                next,
                stack,
                Waiting::Operand((n - 2) as usize),
                call,
                None,
                p,
                session,
                spec_failure(r),
            ),
            left => match spec_operand_value(left, exec) {
                None => *after_exec == *exec && after == before && (r matches Err(e) && e.kind
                    is IdentifierNotFound && e.context == expression.context && e.pos
                    == spec_operand_pos(left)),
                Some(lhs) => {
                    let stack = stack.update(n - 2, Operand::Value(lhs));
                    match stack[n - 1] {
                        Operand::FunctionCall(call, p) => *after_exec == *exec && (r is Err
                            || r matches Ok(None)) && spec_suspended(
                            before,
                            after,
                            expression,
                            next,
                            stack,
                            Waiting::Operand((n - 1) as usize),
                            call,
                            None,
                            p,
                            session,
                            spec_failure(r),
                        ),
                        right => match spec_operand_value(right, exec) {
                            None => *after_exec == *exec && after == before && (r matches Err(e)
                                && e.kind is IdentifierNotFound && e.context
                                == expression.context && e.pos == spec_operand_pos(right)),
                            Some(rhs) => spec_applied(
                                before,
                                exec,
                                after,
                                after_exec,
                                expression,
                                next,
                                stack.update(n - 1, Operand::Value(rhs)),
                                op,
                                pos,
                                lhs,
                                rhs,
                                session,
                                r,
                            ),
                        },
                    }
                },
            },
        }
    }
}

/// What reading the property `name` of the object that `object` names
/// gives, for code with the private access of the class
/// `private_access_typeid`: the value of the property, or the kind of the
/// error; `None` where the value is no class instance.
pub open spec fn spec_property_read(
    object: Value,
    name: Seq<char>,
    private_access_typeid: Option<usize>,
    exec: &ExecSession,
    session: &ParseSession,
    outcome: Option<Result<Value, ErrorKind>>,
) -> bool {
    match object {
        Value::Class { object, typeid } => match exec.heap.spec_instance(object) {
            None => outcome matches Some(Err(ErrorKind::InvalidMemberAccess)),
            Some(instance) => if !instance.properties@.contains_key(name) {
                outcome matches Some(Err(ErrorKind::HasNoMember(t, n))) && t@
                    == session.spec_typename(instance.typeid) && n@ == name
            } else if !instance.spec_reachable(name, private_access_typeid == Some(typeid)) {
                outcome matches Some(Err(ErrorKind::MemberIsPrivate(n))) && n@ == name
            } else {
                outcome == Some(Ok::<Value, ErrorKind>(instance.properties@[name].var.value))
            },
        },
        _ => outcome is None,
    }
}

/// A step on the member operator. The operator takes the value of its left
/// operand ([`spec_operand_is`]); its right operand stays as it was written.
///
/// A name on the right reads the property of that name: the left value must
/// be a class instance, or the error is marked at the operator; the errors
/// of reading ([`spec_property_read`]) are marked at the name. A call on the
/// right is a method call on the left value: the call must not name a type,
/// or the error is marked at the `::`; the expression waits for the call
/// ([`spec_suspended`]), whose value then takes the place of both operands.
/// A value on the right is an error.
pub open spec fn spec_member_step(
    before: Seq<Frame>,
    exec: &ExecSession,
    after: Seq<Frame>,
    after_exec: &ExecSession,
    expression: &Expression,
    next: usize,
    stack: Seq<Operand>,
    pos: usize,
    session: &ParseSession,
    r: Result<Option<Request>, Error>,
) -> bool {
    let n = stack.len();
    &&& *after_exec == *exec
    &&& if n < 2 {
        spec_fails(before, after, spec_failure(r), expression.context, pos) && r->Err_0.kind
            is SyntaxError
    } else {
        match stack[n - 2] {
            Operand::FunctionCall(call, p) => (r is Err || r matches Ok(None)) && spec_suspended(
                before,
                after,
                expression,
                next,
                stack,
                Waiting::Operand((n - 2) as usize),
                call,
                None,
                p,
                session,
                spec_failure(r),
            ),
            left => match spec_operand_value(left, exec) {
                None => after == before && (r matches Err(e) && e.kind is IdentifierNotFound
                    && e.context == expression.context && e.pos == spec_operand_pos(left)),
                Some(lhs) => {
                    let stack = stack.update(n - 2, Operand::Value(lhs));
                    match stack[n - 1] {
                        Operand::Identifier(name, id_pos) => exists|
                            outcome: Option<Result<Value, ErrorKind>>,
                        |
                            {
                                &&& #[trigger] spec_property_read(
                                    lhs,
                                    name@,
                                    expression.private_access_typeid,
                                    exec,
                                    session,
                                    outcome,
                                )
                                &&& match outcome {
                                    Some(Ok(value)) => (r matches Ok(None)) && spec_advanced(
                                        before,
                                        after,
                                        expression,
                                        next,
                                        stack.subrange(0, n - 2).push(Operand::Value(value)),
                                    ),
                                    Some(Err(kind)) => after == before && (r matches Err(e)
                                        && e.kind == kind && e.context == expression.context
                                        && e.pos == id_pos),
                                    None => after == before && (r matches Err(e) && e.kind
                                        is InvalidMemberAccess && e.context == expression.context
                                        && e.pos == pos),
                                }
                            },
                        Operand::FunctionCall(call, _) => match call.associated_type {
                            Some((_, scope_pos)) => after == before && (r matches Err(e) && e.kind
                                is InvalidScopeAccess && e.context == call.context && e.pos
                                == scope_pos),
                            None => (r is Err || r matches Ok(None)) && spec_suspended(
                                before,
                                after,
                                expression,
                                next,
                                stack,
                                Waiting::Member,
                                call,
                                Some(lhs),
                                spec_minus(
                                    call.context.start as int,
                                    expression.context.start as int,
                                ) as usize,
                                session,
                                spec_failure(r),
                            ),
                        },
                        Operand::Value(_) => after == before && (r matches Err(e) && e.kind
                            is InvalidMemberAccess && e.context == expression.context && e.pos
                            == pos),
                    }
                },
            },
        }
    }
}

/// An expression works on its next token, or ends after the last one.
///
/// A literal is pushed ([`spec_literal_step`]). An identifier and a call
/// are pushed as they are written: they are given a value, or are called,
/// only when an operator takes them. An operator is applied:
/// [`spec_unary_step`], [`spec_member_step`], [`spec_binary_step`]. A
/// parenthesis has no place in postfix order and is a syntax error.
pub open spec fn spec_work_step(
    before: Seq<Frame>,
    exec: &ExecSession,
    after: Seq<Frame>,
    after_inbox: Option<ReturnValue>,
    after_exec: &ExecSession,
    expression: &Expression,
    next: usize,
    stack: Seq<Operand>,
    inbox: Option<ReturnValue>,
    session: &ParseSession,
    r: Result<Option<Request>, Error>,
) -> bool {
    if next >= expression.tokens@.len() {
        spec_end_step(
            before,
            exec,
            after,
            after_inbox,
            after_exec,
            expression,
            next,
            stack,
            inbox,
            session,
            r,
        )
    } else {
        let token = expression.tokens@[next as int];
        &&& after_inbox == inbox
        &&& match token.kind {
            TokenKind::Value(literal) => spec_literal_step(
                before,
                exec,
                after,
                after_exec,
                expression,
                next,
                stack,
                literal,
                r,
            ),
            TokenKind::Identifier(name) => (r matches Ok(None)) && *after_exec == *exec
                && spec_advanced(
                before,
                after,
                expression,
                next,
                stack.push(Operand::Identifier(&name, token.pos)),
            ),
            TokenKind::FunctionCall(call) => (r matches Ok(None)) && *after_exec == *exec
                && spec_advanced(
                before,
                after,
                expression,
                next,
                stack.push(Operand::FunctionCall(&*call, token.pos)),
            ),
            TokenKind::Parenthesis(_) => *after_exec == *exec && after == before && (
            r matches Err(e) && e.kind is SyntaxError && e.context == expression.context && e.pos
                == token.pos),
            TokenKind::Operator(op) => if op.spec_is_unary() {
                spec_unary_step(
                    before,
                    exec,
                    after,
                    after_exec,
                    expression,
                    next,
                    stack,
                    op,
                    token.pos,
                    session,
                    r,
                )
            } else if op == Operator::Dot {
                spec_member_step(
                    before,
                    exec,
                    after,
                    after_exec,
                    expression,
                    next,
                    stack,
                    token.pos,
                    session,
                    r,
                )
            } else {
                spec_binary_step(
                    before,
                    exec,
                    after,
                    after_exec,
                    expression,
                    next,
                    stack,
                    op,
                    token.pos,
                    session,
                    r,
                )
            },
        }
    }
}

/// The value that the host computed for float arithmetic: a float for an
/// arithmetic operation, a boolean for a comparison.
pub open spec fn spec_float_reply(reply: Option<Reply>) -> Option<Value> {
    match reply {
        Some(Reply::Float(bits)) => Some(Value::Float(bits)),
        Some(Reply::Bool(b)) => Some(Value::Bool(b)),
        _ => None,
    }
}

/// A step of an expression.
///
/// An expression that waited takes what it waited for: the value of a call
/// takes the place of the call on the stack, and the expression works on;
/// the value of a method call takes the place of the two operands of the
/// member operator; the result of float arithmetic takes the place of its
/// two operands; the float that the host read from a literal is pushed. An
/// expression that did not wait works on ([`spec_work_step`]).
pub open spec fn spec_expression_step(
    before: Seq<Frame>,
    inbox: Option<ReturnValue>,
    reply: Option<Reply>,
    exec: &ExecSession,
    after: Seq<Frame>,
    after_inbox: Option<ReturnValue>,
    after_reply: Option<Reply>,
    after_exec: &ExecSession,
    expression: &Expression,
    next: usize,
    stack: Seq<Operand>,
    waiting: Waiting,
    session: &ParseSession,
    r: Result<Option<Request>, Error>,
) -> bool {
    let n = stack.len();
    let pos = if next < expression.tokens@.len() {
        expression.tokens@[next as int].pos
    } else {
        0
    };
    match waiting {
        Waiting::Nothing => after_reply == reply && spec_work_step(
            before,
            exec,
            after,
            after_inbox,
            after_exec,
            expression,
            next,
            stack,
            inbox,
            session,
            r,
        ),
        Waiting::Operand(slot) => after_reply == reply && match spec_inbox_value(inbox) {
            None => *after_exec == *exec && after == before && r is Err,
            Some(value) => spec_work_step(
                before,
                exec,
                after,
                after_inbox,
                after_exec,
                expression,
                next,
                if slot < n {
                    stack.update(slot as int, Operand::Value(value))
                } else {
                    stack
                },
                None,
                session,
                r,
            ),
        },
        Waiting::Member => after_reply == reply && *after_exec == *exec && match spec_inbox_value(
            inbox,
        ) {
            None => after == before && r is Err,
            Some(value) => (r matches Ok(None)) && after_inbox is None && spec_advanced(
                before,
                after,
                expression,
                next,
                stack.subrange(0, spec_minus(n as int, 2)).push(Operand::Value(value)),
            ),
        },
        Waiting::Float => after_reply is None && after_inbox == inbox && *after_exec == *exec
            && match spec_float_reply(reply) {
            None => after == before && (r matches Err(e) && e.context == expression.context
                && e.pos == pos),
            Some(value) => (r matches Ok(None)) && spec_advanced(
                before,
                after,
                expression,
                next,
                stack.subrange(0, spec_minus(n as int, 2)).push(Operand::Value(value)),
            ),
        },
        Waiting::Literal => after_reply is None && after_inbox == inbox && *after_exec == *exec
            && match reply {
            Some(Reply::Parsed(Ok(bits))) => (r matches Ok(None)) && spec_advanced(
                before,
                after,
                expression,
                next,
                stack.push(Operand::Value(Value::Float(bits))),
            ),
            _ => after == before && (r matches Err(e) && e.kind is SyntaxError && e.context
                == expression.context && e.pos == pos),
        },
    }
}

pub proof fn lemma_unwound_push(frames: Seq<Frame>, frame: Frame)
    requires
        !spec_is_traced(frame),
    ensures
        spec_unwound(frames.push(frame)) == spec_unwound(frames),
{
    assert(frames.push(frame).drop_last() =~= frames);
}

/// An error takes the frames off the stack. Each running call gives up its
/// scope and its place in the count of calls, and the traced calls leave
/// their lines in the backtrace, the innermost first ([`spec_unwound`]).
/// Nothing else changes.
pub open spec fn spec_unwinds(frames: Seq<Frame>, before: &ExecSession, after: &ExecSession) -> bool {
    &&& spec_traces(after.backtrace@) == spec_traces(before.backtrace@) + spec_unwound(frames)
    &&& after.call_count <= before.call_count
    &&& after.heap == before.heap
    &&& after.output_stream == before.output_stream
    &&& after.global_scope == before.global_scope
    &&& before.call_count >= spec_depth(frames) ==> after.call_count == before.call_count
        - spec_depth(frames)
    &&& before.local_scopes@.len() >= spec_depth(frames) ==> after.local_scopes@.len()
        == before.local_scopes@.len() - spec_depth(frames)
}

/// What the step of the frame `frame`, taken off the stack `below`, makes
/// of the machine and the session, each kind of frame as its own step says.
pub open spec fn spec_frame_step(
    below: Seq<Frame>,
    frame: Frame,
    inbox: Option<ReturnValue>,
    reply: Option<Reply>,
    exec: &ExecSession,
    after: Seq<Frame>,
    after_inbox: Option<ReturnValue>,
    after_reply: Option<Reply>,
    after_exec: &ExecSession,
    session: &ParseSession,
    r: Result<Option<Request>, Error>,
) -> bool {
    match frame {
        Frame::Expression(f) => spec_expression_step(
            below,
            inbox,
            reply,
            exec,
            after,
            after_inbox,
            after_reply,
            after_exec,
            f.expression,
            f.next,
            f.stack@,
            f.waiting,
            session,
            r,
        ),
        Frame::Block { body, next } => after_reply == reply && *after_exec == *exec && (
        r matches Ok(None)) && spec_block_step(below, inbox, after, after_inbox, body, next),
        Frame::Branch { branch, stage } => after_reply == reply && *after_exec == *exec
            && spec_branch_step(below, inbox, after, after_inbox, branch, stage, session, r),
        Frame::While { while_loop, in_body } => after_reply == reply && *after_exec == *exec
            && spec_while_step(below, inbox, after, after_inbox, while_loop, in_body, session, r),
        Frame::For { for_loop, vector, index } => after_reply == reply && spec_for_step(
            below,
            inbox,
            exec,
            after,
            after_inbox,
            after_exec,
            for_loop,
            vector,
            index,
            session,
            r,
        ),
        Frame::Init { init } => after_reply == reply && spec_init_step(
            below,
            inbox,
            exec,
            after,
            after_inbox,
            after_exec,
            init,
            session,
            r,
        ),
        Frame::Assign { assign, value } => after_reply == reply && spec_assign_step(
            below,
            inbox,
            exec,
            after,
            after_inbox,
            after_exec,
            assign,
            value,
            session,
            r,
        ),
        Frame::Return { function_return } => after_reply == reply && *after_exec == *exec
            && spec_return_step(below, inbox, after, after_inbox, function_return, r),
        Frame::Call(c) => after_reply == reply && spec_call_step(
            below,
            inbox,
            exec,
            after,
            after_inbox,
            after_exec,
            c,
            session,
            r,
        ),
        Frame::Function { function, next } => after_reply == reply && *after_exec == *exec
            && spec_function_step(below, inbox, after, after_inbox, function, next, session, r),
        Frame::Constructor { class, next, instance } => after_reply == reply
            && spec_constructor_step(
            below,
            inbox,
            exec,
            after,
            after_inbox,
            after_exec,
            class,
            next,
            instance.typeid,
            instance.properties@,
            session,
            r,
        ),
        Frame::Builtin { builtin: body, context, pos } => spec_builtin_step(
            below,
            reply,
            exec,
            after,
            after_inbox,
            after_reply,
            after_exec,
            body,
            context,
            pos,
            session,
            r,
        ),
    }
}

/// Whether the result `r` of a step, with the machine and the session going
/// from the state before it to the state after it, is what a step owes.
///
/// With nothing in progress the machine is finished, and hands out what was
/// handed in last, or `none`. Otherwise the innermost frame makes its step
/// ([`spec_frame_step`]). Where that step fails, the error then takes every
/// frame off the stack ([`spec_unwinds`]).
pub open spec fn spec_step_is(
    frames: Seq<Frame>,
    inbox: Option<ReturnValue>,
    reply: Option<Reply>,
    exec: &ExecSession,
    after: Seq<Frame>,
    after_inbox: Option<ReturnValue>,
    after_reply: Option<Reply>,
    after_exec: &ExecSession,
    session: &ParseSession,
    r: Result<Step, Error>,
) -> bool {
    if frames.len() == 0 {
        &&& r matches Ok(Step::Finished(value))
        &&& r->Ok_0->Finished_0 == match inbox {
            Some(v) => v,
            None => ReturnValue::Value(Value::Nil),
        }
        &&& after.len() == 0
        &&& after_inbox is None
        &&& after_reply == reply
        &&& *after_exec == *exec
    } else {
        match r {
            Ok(Step::Finished(_)) => false,
            Ok(Step::Continue) => spec_frame_step(
                frames.drop_last(),
                frames.last(),
                inbox,
                reply,
                exec,
                after,
                after_inbox,
                after_reply,
                after_exec,
                session,
                Ok(None),
            ),
            Ok(Step::Ask(request)) => spec_frame_step(
                frames.drop_last(),
                frames.last(),
                inbox,
                reply,
                exec,
                after,
                after_inbox,
                after_reply,
                after_exec,
                session,
                Ok(Some(request)),
            ),
            Err(e) => {
                &&& after.len() == 0
                &&& after_inbox is None
                &&& after_reply is None
                &&& exists|
                    mid: Seq<Frame>,
                    mid_inbox: Option<ReturnValue>,
                    mid_reply: Option<Reply>,
                    mid_exec: ExecSession,
                |
                    {
                        &&& #[trigger] spec_frame_step(
                            frames.drop_last(),
                            frames.last(),
                            inbox,
                            reply,
                            exec,
                            mid,
                            mid_inbox,
                            mid_reply,
                            &mid_exec,
                            session,
                            Err(e),
                        )
                        &&& spec_unwinds(mid, &mid_exec, after_exec)
                    }
            },
        }
    }
}

impl<'a> Machine<'a> {
    /// Puts an expression on the stack.
    fn put(&mut self, frame: ExpressionFrame<'a>)
        ensures
            spec_expression_on(
                old(self).frames@,
                final(self).frames@,
                frame.expression,
                frame.next,
                frame.stack@,
                frame.waiting,
            ),
            final(self).frames@ == old(self).frames@.push(Frame::Expression(frame)),
            final(self).inbox == old(self).inbox,
            final(self).reply == old(self).reply,
            spec_depth(final(self).frames@) == spec_depth(old(self).frames@),
            spec_unwound(final(self).frames@) == spec_unwound(old(self).frames@),
    {
        proof {
            lemma_unwound_push(self.frames@, Frame::Expression(frame));
        }
        self.push(Frame::Expression(frame));
        assert(self.frames@.drop_last() =~= old(self).frames@);
    }

    /// Puts an expression on the stack with one more token done.
    fn advance(&mut self, frame: ExpressionFrame<'a>, stack: Ghost<Seq<Operand<'a>>>)
        requires
            frame.stack@ == stack@,
            frame.waiting == Waiting::Nothing,
        ensures
            spec_advanced(
                old(self).frames@,
                final(self).frames@,
                frame.expression,
                frame.next,
                stack@,
            ),
            final(self).inbox == old(self).inbox,
            final(self).reply == old(self).reply,
            spec_depth(final(self).frames@) == spec_depth(old(self).frames@),
            spec_unwound(final(self).frames@) == spec_unwound(old(self).frames@),
    {
        let mut frame = frame;
        frame.next = plus(frame.next, 1);
        self.put(frame);
    }

    /// Starts a call for an expression, which waits for it below the call.
    fn suspend(
        &mut self,
        frame: ExpressionFrame<'a>,
        waiting: Waiting,
        call: &'a FunctionCall,
        caller: Option<Value>,
        pos: usize,
        session: &'a ParseSession,
    ) -> (r: Result<Option<Request>, Error>)
        ensures
            r is Err || r matches Ok(None),
            spec_suspended(
                old(self).frames@,
                final(self).frames@,
                frame.expression,
                frame.next,
                frame.stack@,
                waiting,
                call,
                caller,
                pos,
                session,
                spec_failure(r),
            ),
            final(self).inbox == old(self).inbox,
            final(self).reply == old(self).reply,
            spec_depth(final(self).frames@) == spec_depth(old(self).frames@),
    {
        let mut frame = frame;
        let context = frame.expression.context();
        frame.waiting = waiting;
        let ghost below = self.frames@;
        self.put(frame);
        let ghost middle = self.frames@;
        match self.begin_call(call, caller, context, pos, session) {
            Ok(()) => {
                assert(self.frames@.drop_last() == middle);
                assert(self.frames@.subrange(0, below.len() as int) =~= below);
                assert(self.frames@[below.len() as int] == middle.last());
                Ok(None)
            },
            Err(e) => Err(e),
        }
    }

    /// Takes the value of the operand at `slot`. The expression comes back
    /// with the value in the place of the operand, unless the operand is a
    /// call: then the call is started and the expression waits on the stack.
    fn operand(
        &mut self,
        frame: ExpressionFrame<'a>,
        slot: usize,
        exec: &ExecSession,
        session: &'a ParseSession,
    ) -> (r: Result<Option<(ExpressionFrame<'a>, Value)>, Error>)
        requires
            slot < frame.stack@.len(),
        ensures
            spec_operand_is(
                old(self).frames@,
                final(self).frames@,
                frame.expression,
                frame.next,
                frame.stack@,
                frame.waiting,
                slot,
                exec,
                session,
                r,
            ),
            final(self).inbox == old(self).inbox,
            final(self).reply == old(self).reply,
            spec_depth(final(self).frames@) == spec_depth(old(self).frames@),
    {
        let mut frame = frame;
        match frame.stack[slot] {
            Operand::Value(v) => {
                assert(frame.stack@ =~= frame.stack@.update(slot as int, Operand::Value(v)));
                Ok(Some((frame, v)))
            },
            Operand::Identifier(name, pos) => match exec.get_variable(name.as_str()) {
                Some(variable) => {
                    let v = variable.get_value_clone();
                    frame.stack.set(slot, Operand::Value(v));
                    Ok(Some((frame, v)))
                },
                None => Err(
                    Error::new(frame.expression.context(), pos, ErrorKind::IdentifierNotFound),
                ),
            },
            Operand::FunctionCall(call, pos) => {
                match self.suspend(frame, Waiting::Operand(slot), call, None, pos, session) {
                    Ok(_) => Ok(None),
                    Err(e) => Err(e),
                }
            },
        }
    }

    /// Reads a property of the object that a value names.
    fn read_property(
        object: Value,
        name: &str,
        private_access_typeid: Option<usize>,
        exec: &ExecSession,
        session: &ParseSession,
    ) -> (r: Option<Result<Value, ErrorKind>>)
        ensures
            spec_property_read(object, name@, private_access_typeid, exec, session, r),
    {
        match object {
            Value::Class { object, typeid } => {
                let private_access = match private_access_typeid {
                    Some(id) => id == typeid,
                    None => false,
                };
                match exec.heap.instance(object) {
                    Some(instance) => match instance.get_property(name, private_access, session) {
                        Ok(variable) => Some(Ok(variable.get_value_clone())),
                        Err(kind) => Some(Err(kind)),
                    },
                    None => Some(Err(ErrorKind::InvalidMemberAccess)),
                }
            },
            _ => None,
        }
    }

    fn step_literal(
        &mut self,
        frame: ExpressionFrame<'a>,
        literal: &'a Literal,
        exec: &mut ExecSession,
    ) -> (r: Result<Option<Request>, Error>)
        requires
            frame.waiting == Waiting::Nothing,
        ensures
            spec_literal_step(
                old(self).frames@,
                old(exec),
                final(self).frames@,
                final(exec),
                frame.expression,
                frame.next,
                frame.stack@,
                *literal,
                r,
            ),
            final(self).inbox == old(self).inbox,
            final(self).reply == old(self).reply,
            spec_depth(final(self).frames@) == spec_depth(old(self).frames@),
            spec_same_but_strings(old(exec), final(exec)),
    {
        let mut frame = frame;
        let ghost stack = frame.stack@;
        match literal {
            Literal::Nil => {
                frame.stack.push(Operand::Value(Value::Nil));
                self.advance(frame, Ghost(stack.push(Operand::Value(Value::Nil))));
                Ok(None)
            },
            Literal::Int(i) => {
                frame.stack.push(Operand::Value(Value::Int(*i)));
                self.advance(frame, Ghost(stack.push(Operand::Value(Value::Int(*i)))));
                Ok(None)
            },
            Literal::Bool(b) => {
                frame.stack.push(Operand::Value(Value::Bool(*b)));
                self.advance(frame, Ghost(stack.push(Operand::Value(Value::Bool(*b)))));
                Ok(None)
            },
            Literal::Str(text) => {
                let value = exec.heap.new_string(to_chars(text.as_str()));
                assert(exec.heap.strings@.drop_last() =~= old(exec).heap.strings@);
                frame.stack.push(Operand::Value(value));
                self.advance(frame, Ghost(stack.push(Operand::Value(value))));
                Ok(None)
            },
            Literal::Float(text) => {
                frame.waiting = Waiting::Literal;
                self.put(frame);
                Ok(Some(Request::Parse(text.clone())))
            },
        }
    }

    fn step_end(
        &mut self,
        frame: ExpressionFrame<'a>,
        exec: &mut ExecSession,
        session: &'a ParseSession,
    ) -> (r: Result<Option<Request>, Error>)
        ensures
            spec_end_step(
                old(self).frames@,
                old(exec),
                final(self).frames@,
                final(self).inbox,
                final(exec),
                frame.expression,
                frame.next,
                frame.stack@,
                old(self).inbox,
                session,
                r,
            ),
            final(self).reply == old(self).reply,
            spec_depth(final(self).frames@) == spec_depth(old(self).frames@),
            spec_same_but_strings(old(exec), final(exec)),
    {
        let n = frame.stack.len();
        if n == 0 {
            return Err(Error::new(frame.expression.context(), 0, ErrorKind::SyntaxError));
        }
        let value = match self.operand(frame, n - 1, exec, session)? {
            Some((_, value)) => value,
            None => {
                return Ok(None);
            },
        };
        let value = match value {
            Value::Str(id) => {
                let text = exec.heap.text(id);
                let copy = exec.heap.new_string(text);
                assert(exec.heap.strings@.drop_last() =~= old(exec).heap.strings@);
                copy
            },
            v => v,
        };
        self.inbox = Some(ReturnValue::Value(value));
        Ok(None)
    }

    fn step_unary(
        &mut self,
        frame: ExpressionFrame<'a>,
        op: Operator,
        pos: usize,
        exec: &mut ExecSession,
        session: &'a ParseSession,
    ) -> (r: Result<Option<Request>, Error>)
        requires
            frame.waiting == Waiting::Nothing,
        ensures
            spec_unary_step(
                old(self).frames@,
                old(exec),
                final(self).frames@,
                final(exec),
                frame.expression,
                frame.next,
                frame.stack@,
                op,
                pos,
                session,
                r,
            ),
            final(self).inbox == old(self).inbox,
            final(self).reply == old(self).reply,
            spec_depth(final(self).frames@) == spec_depth(old(self).frames@),
            spec_same_but_strings(old(exec), final(exec)),
    {
        let n = frame.stack.len();
        let context = frame.expression.context();
        if n == 0 {
            return Err(Error::new(context, pos, ErrorKind::SyntaxError));
        }
        let ghost stack = frame.stack@;
        let (mut frame, operand) = match self.operand(frame, n - 1, exec, session)? {
            Some(resolved) => resolved,
            None => {
                return Ok(None);
            },
        };
        let applied = match op {
            Operator::Neg => operation::negate(operand, session),
            Operator::Not => operation::not(operand, session),
            Operator::Typeof => {
                let name = operation::gettype(operand, &mut exec.heap, session);
                Ok(name)
            },
            _ => Err(
                ErrorKind::InvalidOperationForType(op, session.get_typename(operand.typeid())),
            ),
        };
        match applied {
            Ok(value) => {
                Self::reduce(&mut frame, n - 1, value);
                assert(frame.stack@ =~= stack.drop_last().push(Operand::Value(value)));
                self.advance(frame, Ghost(stack.drop_last().push(Operand::Value(value))));
                Ok(None)
            },
            Err(kind) => Err(Error::new(context, pos, kind)),
        }
    }

    fn step_binary(
        &mut self,
        frame: ExpressionFrame<'a>,
        op: Operator,
        pos: usize,
        exec: &mut ExecSession,
        session: &'a ParseSession,
    ) -> (r: Result<Option<Request>, Error>)
        requires
            frame.waiting == Waiting::Nothing,
        ensures
            spec_binary_step(
                old(self).frames@,
                old(exec),
                final(self).frames@,
                final(exec),
                frame.expression,
                frame.next,
                frame.stack@,
                op,
                pos,
                session,
                r,
            ),
            final(self).inbox == old(self).inbox,
            final(self).reply == old(self).reply,
            spec_depth(final(self).frames@) == spec_depth(old(self).frames@),
            spec_same_but_strings(old(exec), final(exec)),
    {
        let n = frame.stack.len();
        let context = frame.expression.context();
        if n < 2 {
            return Err(Error::new(context, pos, ErrorKind::SyntaxError));
        }
        let (frame, lhs) = match self.operand(frame, n - 2, exec, session)? {
            Some(resolved) => resolved,
            None => {
                return Ok(None);
            },
        };
        let (mut frame, rhs) = match self.operand(frame, n - 1, exec, session)? {
            Some(resolved) => resolved,
            None => {
                return Ok(None);
            },
        };
        let ghost stack = frame.stack@;
        let applied = operation::binary(op, lhs, rhs, &mut exec.heap, session);
        let ghost outcome = applied;
        assert(operation::spec_binary_is(
            op,
            lhs,
            rhs,
            &old(exec).heap,
            &exec.heap,
            session,
            outcome,
        ));
        let result = match applied {
            Ok(Applied::Value(value)) => {
                Self::reduce(&mut frame, n - 2, value);
                self.advance(
                    frame,
                    Ghost(stack.subrange(0, stack.len() - 2).push(Operand::Value(value))),
                );
                Ok(None)
            },
            Ok(Applied::Float(float_op, a, b)) => {
                frame.waiting = Waiting::Float;
                self.put(frame);
                Ok(Some(Request::Binary(float_op, a, b)))
            },
            Err(kind) => Err(Error::new(context, pos, kind)),
        };
        assert(spec_applied(
            old(self).frames@,
            old(exec),
            self.frames@,
            exec,
            frame.expression,
            frame.next,
            stack,
            op,
            pos,
            lhs,
            rhs,
            session,
            result,
        ));
        result
    }

    fn step_member(
        &mut self,
        frame: ExpressionFrame<'a>,
        pos: usize,
        exec: &ExecSession,
        session: &'a ParseSession,
    ) -> (r: Result<Option<Request>, Error>)
        requires
            frame.waiting == Waiting::Nothing,
        ensures
            spec_member_step(
                old(self).frames@,
                exec,
                final(self).frames@,
                exec,
                frame.expression,
                frame.next,
                frame.stack@,
                pos,
                session,
                r,
            ),
            final(self).inbox == old(self).inbox,
            final(self).reply == old(self).reply,
            spec_depth(final(self).frames@) == spec_depth(old(self).frames@),
    {
        let n = frame.stack.len();
        let expression = frame.expression;
        let context = expression.context();
        if n < 2 {
            return Err(Error::new(context, pos, ErrorKind::SyntaxError));
        }
        let (mut frame, lhs) = match self.operand(frame, n - 2, exec, session)? {
            Some(resolved) => resolved,
            None => {
                return Ok(None);
            },
        };
        let ghost stack = frame.stack@;
        match frame.stack[n - 1] {
            Operand::Identifier(name, id_pos) => {
                let read = Self::read_property(
                    lhs,
                    name.as_str(),
                    expression.private_access_typeid,
                    exec,
                    session,
                );
                let ghost outcome = read;
                assert(spec_property_read(
                    lhs,
                    name@,
                    expression.private_access_typeid,
                    exec,
                    session,
                    outcome,
                ));
                match read {
                    Some(Ok(value)) => {
                        Self::reduce(&mut frame, n - 2, value);
                        self.advance(
                            frame,
                            Ghost(stack.subrange(0, n - 2).push(Operand::Value(value))),
                        );
                        Ok(None)
                    },
                    Some(Err(kind)) => Err(Error::new(context, id_pos, kind)),
                    None => Err(Error::new(context, pos, ErrorKind::InvalidMemberAccess)),
                }
            },
            Operand::FunctionCall(call, _) => {
                match call.scope_res_pos() {
                    Some(scope_pos) => Err(
                        Error::new(call.context(), scope_pos, ErrorKind::InvalidScopeAccess),
                    ),
                    None => self.suspend(
                        frame,
                        Waiting::Member,
                        call,
                        Some(lhs),
                        minus(call.context().start, context.start),
                        session,
                    ),
                }
            },
            Operand::Value(_) => Err(Error::new(context, pos, ErrorKind::InvalidMemberAccess)),
        }
    }

    /// Replaces the operands from `from` on by one value.
    fn reduce(frame: &mut ExpressionFrame<'a>, from: usize, value: Value)
        ensures
            final(frame).expression == old(frame).expression,
            final(frame).next == old(frame).next,
            final(frame).waiting == old(frame).waiting,
            from <= old(frame).stack@.len() ==> final(frame).stack@ == old(frame).stack@.subrange(
                0,
                from as int,
            ).push(Operand::Value(value)),
    {
        frame.stack.truncate(from);
        frame.stack.push(Operand::Value(value));
    }

    fn step_work(
        &mut self,
        frame: ExpressionFrame<'a>,
        exec: &mut ExecSession,
        session: &'a ParseSession,
    ) -> (r: Result<Option<Request>, Error>)
        requires
            frame.waiting == Waiting::Nothing,
        ensures
            spec_work_step(
                old(self).frames@,
                old(exec),
                final(self).frames@,
                final(self).inbox,
                final(exec),
                frame.expression,
                frame.next,
                frame.stack@,
                old(self).inbox,
                session,
                r,
            ),
            final(self).reply == old(self).reply,
            spec_depth(final(self).frames@) == spec_depth(old(self).frames@),
            spec_same_but_strings(old(exec), final(exec)),
    {
        let mut frame = frame;
        let expression = frame.expression;
        let tokens = expression.tokens();
        if frame.next >= tokens.len() {
            return self.step_end(frame, exec, session);
        }
        let token = &tokens[frame.next];
        let pos = token.pos();
        let ghost stack = frame.stack@;
        match &token.kind {
            TokenKind::Value(literal) => self.step_literal(frame, literal, exec),
            TokenKind::Identifier(name) => {
                frame.stack.push(Operand::Identifier(name, pos));
                self.advance(frame, Ghost(stack.push(Operand::Identifier(name, pos))));
                Ok(None)
            },
            TokenKind::FunctionCall(call) => {
                frame.stack.push(Operand::FunctionCall(call, pos));
                self.advance(frame, Ghost(stack.push(Operand::FunctionCall(call, pos))));
                Ok(None)
            },
            TokenKind::Parenthesis(_) => Err(
                Error::new(expression.context(), pos, ErrorKind::SyntaxError),
            ),
            TokenKind::Operator(op) => {
                if op.is_unary() {
                    self.step_unary(frame, *op, pos, exec, session)
                } else if *op == Operator::Dot {
                    self.step_member(frame, pos, exec, session)
                } else {
                    self.step_binary(frame, *op, pos, exec, session)
                }
            },
        }
    }

    fn step_expression(
        &mut self,
        frame: ExpressionFrame<'a>,
        exec: &mut ExecSession,
        session: &'a ParseSession,
    ) -> (r: Result<Option<Request>, Error>)
        ensures
            final(exec).call_count == old(exec).call_count,
            final(exec).local_scopes == old(exec).local_scopes,
            spec_depth(final(self).frames@) == spec_depth(old(self).frames@),
            spec_expression_step(
                old(self).frames@,
                old(self).inbox,
                old(self).reply,
                old(exec),
                final(self).frames@,
                final(self).inbox,
                final(self).reply,
                final(exec),
                frame.expression,
                frame.next,
                frame.stack@,
                frame.waiting,
                session,
                r,
            ),
    {
        let mut frame = frame;
        let expression = frame.expression;
        let context = expression.context();
        let tokens = expression.tokens();
        let n = frame.stack.len();
        let ghost stack = frame.stack@;
        let pos = if frame.next < tokens.len() {
            tokens[frame.next].pos()
        } else {
            0
        };
        match frame.waiting {
            Waiting::Nothing => self.step_work(frame, exec, session),
            Waiting::Operand(slot) => {
                match self.take_value() {
                    Some(value) => {
                        if slot < n {
                            frame.stack.set(slot, Operand::Value(value));
                        }
                        frame.waiting = Waiting::Nothing;
                        self.step_work(frame, exec, session)
                    },
                    None => Err(Self::stalled(context)),
                }
            },
            Waiting::Member => {
                match self.take_value() {
                    Some(value) => {
                        Self::reduce(&mut frame, minus(n, 2), value);
                        frame.waiting = Waiting::Nothing;
                        self.advance(
                            frame,
                            Ghost(
                                stack.subrange(0, spec_minus(n as int, 2)).push(
                                    Operand::Value(value),
                                ),
                            ),
                        );
                        Ok(None)
                    },
                    None => Err(Self::stalled(context)),
                }
            },
            Waiting::Float => {
                let mut reply: Option<Reply> = None;
                core::mem::swap(&mut reply, &mut self.reply);
                let value = match reply {
                    Some(Reply::Float(bits)) => Value::Float(bits),
                    Some(Reply::Bool(b)) => Value::Bool(b),
                    _ => {
                        return Err(Error::new(context, pos, invalid_value()));
                    },
                };
                Self::reduce(&mut frame, minus(n, 2), value);
                frame.waiting = Waiting::Nothing;
                self.advance(
                    frame,
                    Ghost(stack.subrange(0, spec_minus(n as int, 2)).push(Operand::Value(value))),
                );
                Ok(None)
            },
            Waiting::Literal => {
                let mut reply: Option<Reply> = None;
                core::mem::swap(&mut reply, &mut self.reply);
                match reply {
                    Some(Reply::Parsed(Ok(bits))) => {
                        frame.stack.push(Operand::Value(Value::Float(bits)));
                        frame.waiting = Waiting::Nothing;
                        self.advance(
                            frame,
                            Ghost(stack.push(Operand::Value(Value::Float(bits)))),
                        );
                        Ok(None)
                    },
                    _ => Err(Error::new(context, pos, ErrorKind::SyntaxError)),
                }
            },
        }
    }

    /// One step of the innermost frame. An error takes every frame off the
    /// stack, as [`Machine::unwind`] says. No step takes the number of
    /// calls in progress over the limit.
    pub fn step(&mut self, exec: &mut ExecSession, session: &'a ParseSession) -> (r: Result<
        Step,
        Error,
    >)
        ensures
            old(exec).call_count <= FUNCTION_CALL_LIMIT ==> final(exec).call_count
                <= FUNCTION_CALL_LIMIT,
            r is Err ==> final(self).frames@.len() == 0,
            r matches Ok(Step::Finished(_)) ==> final(self).frames@.len() == 0,
            spec_step_is(
                old(self).frames@,
                old(self).inbox,
                old(self).reply,
                old(exec),
                final(self).frames@,
                final(self).inbox,
                final(self).reply,
                final(exec),
                session,
                r,
            ),
            spec_covers(old(exec), spec_depth(old(self).frames@)) ==> spec_level(
                spec_depth(old(self).frames@),
                old(exec),
                spec_depth(final(self).frames@),
                final(exec),
            ),
    {
        let ghost before = self.frames@;
        proof {
            lemma_depth_nonnegative(before);
        }
        let frame = match self.frames.pop() {
            Some(f) => f,
            None => {
                let value = match self.inbox {
                    Some(v) => v,
                    None => ReturnValue::Value(Value::Nil),
                };
                self.inbox = None;
                return Ok(Step::Finished(value));
            },
        };
        assert(self.frames@ =~= before.drop_last());
        assert(frame == before.last());
        proof {
            lemma_depth_nonnegative(self.frames@);
        }
        let outcome = match frame {
            Frame::Expression(f) => self.step_expression(f, exec, session),
            Frame::Block { body, next } => self.step_block(body, next),
            Frame::Branch { branch, stage } => self.step_branch(branch, stage, session),
            Frame::While { while_loop, in_body } => self.step_while(while_loop, in_body, session),
            Frame::For { for_loop, vector, index } => self.step_for(
                for_loop,
                vector,
                index,
                exec,
                session,
            ),
            Frame::Init { init } => self.step_init(init, exec, session),
            Frame::Assign { assign, value } => self.step_assign(assign, value, exec, session),
            Frame::Return { function_return } => self.step_return(function_return),
            Frame::Call(c) => self.step_call(c, exec, session),
            Frame::Function { function, next } => self.step_function(function, next, session),
            Frame::Constructor { class, next, instance } => self.step_constructor(
                class,
                next,
                instance,
                exec,
                session,
            ),
            Frame::Builtin { builtin: body, context, pos } => self.step_builtin(
                body,
                context,
                pos,
                exec,
                session,
            ),
        };
        assert(spec_frame_step(
            before.drop_last(),
            before.last(),
            old(self).inbox,
            old(self).reply,
            old(exec),
            self.frames@,
            self.inbox,
            self.reply,
            exec,
            session,
            outcome,
        ));
        match outcome {
            Ok(None) => Ok(Step::Continue),
            Ok(Some(request)) => Ok(Step::Ask(request)),
            Err(e) => {
                proof {
                    lemma_depth_nonnegative(self.frames@);
                }
                let ghost mid = self.frames@;
                let ghost mid_inbox = self.inbox;
                let ghost mid_reply = self.reply;
                let ghost mid_exec = *exec;
                self.unwind(exec);
                assert(spec_frame_step(
                    before.drop_last(),
                    before.last(),
                    old(self).inbox,
                    old(self).reply,
                    old(exec),
                    mid,
                    mid_inbox,
                    mid_reply,
                    &mid_exec,
                    session,
                    Err(e),
                ));
                assert(spec_unwinds(mid, &mid_exec, exec));
                Err(e)
            },
        }
    }

    /// Runs the machine for at most `fuel` steps. It stops earlier where
    /// the instruction finishes or fails, or where the host is asked.
    pub fn run(&mut self, exec: &mut ExecSession, session: &'a ParseSession, fuel: u64) -> (s: Status)
        ensures
            old(exec).call_count <= FUNCTION_CALL_LIMIT ==> final(exec).call_count
                <= FUNCTION_CALL_LIMIT,
            s is Failed || s is Finished ==> final(self).frames@.len() == 0,
            spec_run_is(
                old(self).frames@,
                old(self).inbox,
                old(self).reply,
                *old(exec),
                final(self).frames@,
                final(self).inbox,
                final(self).reply,
                *final(exec),
                session,
                fuel as nat,
                s,
            ),
            spec_covers(old(exec), spec_depth(old(self).frames@)) ==> spec_level(
                spec_depth(old(self).frames@),
                old(exec),
                spec_depth(final(self).frames@),
                final(exec),
            ),
    {
        let mut left: u64 = fuel;
        while left > 0
            invariant
                left <= fuel,
                old(exec).call_count <= FUNCTION_CALL_LIMIT ==> exec.call_count
                    <= FUNCTION_CALL_LIMIT,
                spec_covers(old(exec), spec_depth(old(self).frames@)) ==> spec_level(
                    spec_depth(old(self).frames@),
                    old(exec),
                    spec_depth(self.frames@),
                    exec,
                ) && spec_covers(exec, spec_depth(self.frames@)),
                forall|
                    after: Seq<Frame>,
                    after_inbox: Option<ReturnValue>,
                    after_reply: Option<Reply>,
                    after_exec: ExecSession,
                    status: Status,
                |
                    #[trigger] spec_run_is(
                        self.frames@,
                        self.inbox,
                        self.reply,
                        *exec,
                        after,
                        after_inbox,
                        after_reply,
                        after_exec,
                        session,
                        left as nat,
                        status,
                    ) ==> spec_run_is(
                        old(self).frames@,
                        old(self).inbox,
                        old(self).reply,
                        *old(exec),
                        after,
                        after_inbox,
                        after_reply,
                        after_exec,
                        session,
                        fuel as nat,
                        status,
                    ),
            decreases left,
        {
            let ghost frames = self.frames@;
            let ghost inbox = self.inbox;
            let ghost reply = self.reply;
            let ghost before = *exec;
            let r = self.step(exec, session);
            proof {
                lemma_run_step(
                    frames,
                    inbox,
                    reply,
                    before,
                    self.frames@,
                    self.inbox,
                    self.reply,
                    *exec,
                    session,
                    left as nat,
                    r,
                );
            }
            match r {
                Ok(Step::Continue) => {},
                Ok(Step::Ask(request)) => {
                    return Status::Request(request);
                },
                Ok(Step::Finished(value)) => {
                    return Status::Finished(value);
                },
                Err(e) => {
                    return Status::Failed(e);
                },
            }
            let ghost total = left as nat;
            left = left - 1;
            proof {
                assert forall|
                    after: Seq<Frame>,
                    after_inbox: Option<ReturnValue>,
                    after_reply: Option<Reply>,
                    after_exec: ExecSession,
                    status: Status,
                | #[trigger]
                    spec_run_is(
                        self.frames@,
                        self.inbox,
                        self.reply,
                        *exec,
                        after,
                        after_inbox,
                        after_reply,
                        after_exec,
                        session,
                        left as nat,
                        status,
                    ) implies spec_run_is(
                    old(self).frames@,
                    old(self).inbox,
                    old(self).reply,
                    *old(exec),
                    after,
                    after_inbox,
                    after_reply,
                    after_exec,
                    session,
                    fuel as nat,
                    status,
                ) by {
                    assert((total - 1) as nat == left as nat);
                    assert(spec_run_is(
                        frames,
                        inbox,
                        reply,
                        before,
                        after,
                        after_inbox,
                        after_reply,
                        after_exec,
                        session,
                        total,
                        status,
                    ));
                }
            }
        }
        assert(spec_run_is(
            self.frames@,
            self.inbox,
            self.reply,
            *exec,
            self.frames@,
            self.inbox,
            self.reply,
            *exec,
            session,
            left as nat,
            Status::Paused,
        ));
        Status::Paused
    }
}

/// How a step ends a run, where it does.
pub open spec fn spec_ended(r: Result<Step, Error>) -> Option<Status> {
    match r {
        Ok(Step::Continue) => None,
        Ok(Step::Ask(request)) => Some(Status::Request(request)),
        Ok(Step::Finished(value)) => Some(Status::Finished(value)),
        Err(e) => Some(Status::Failed(e)),
    }
}

/// Whether a run of at most `fuel` steps, which takes the machine and the
/// session from the state before it to the state after it, ends as `status`
/// says.
///
/// A run without steps left is paused where it stands. Otherwise the machine
/// makes a step ([`spec_step_is`]). Where the step finishes or fails, or asks
/// the host, the run ends there; else the run goes on with one step less.
pub open spec fn spec_run_is(
    frames: Seq<Frame>,
    inbox: Option<ReturnValue>,
    reply: Option<Reply>,
    exec: ExecSession,
    after: Seq<Frame>,
    after_inbox: Option<ReturnValue>,
    after_reply: Option<Reply>,
    after_exec: ExecSession,
    session: &ParseSession,
    fuel: nat,
    status: Status,
) -> bool
    decreases fuel,
{
    if fuel == 0 {
        status is Paused && after == frames && after_inbox == inbox && after_reply == reply
            && after_exec == exec
    } else {
        exists|
            next: Seq<Frame>,
            next_inbox: Option<ReturnValue>,
            next_reply: Option<Reply>,
            next_exec: ExecSession,
            r: Result<Step, Error>,
        |
            #[trigger] spec_step_is(
                frames,
                inbox,
                reply,
                &exec,
                next,
                next_inbox,
                next_reply,
                &next_exec,
                session,
                r,
            ) && match spec_ended(r) {
                Some(ended) => status == ended && after == next && after_inbox == next_inbox
                    && after_reply == next_reply && after_exec == next_exec,
                None => spec_run_is(
                    next,
                    next_inbox,
                    next_reply,
                    next_exec,
                    after,
                    after_inbox,
                    after_reply,
                    after_exec,
                    session,
                    (fuel - 1) as nat,
                    status,
                ),
            }
    }
}

/// A run starts with a step: where the step ends the run, the run has ended
/// as the step says; else, however the run goes on from there, so has the
/// run gone on from before the step.
pub proof fn lemma_run_step(
    frames: Seq<Frame>,
    inbox: Option<ReturnValue>,
    reply: Option<Reply>,
    exec: ExecSession,
    next: Seq<Frame>,
    next_inbox: Option<ReturnValue>,
    next_reply: Option<Reply>,
    next_exec: ExecSession,
    session: &ParseSession,
    fuel: nat,
    r: Result<Step, Error>,
)
    requires
        fuel > 0,
        spec_step_is(
            frames,
            inbox,
            reply,
            &exec,
            next,
            next_inbox,
            next_reply,
            &next_exec,
            session,
            r,
        ),
    ensures
        spec_ended(r) matches Some(ended) ==> spec_run_is(
            frames,
            inbox,
            reply,
            exec,
            next,
            next_inbox,
            next_reply,
            next_exec,
            session,
            fuel,
            ended,
        ),
        spec_ended(r) is None ==> forall|
            after: Seq<Frame>,
            after_inbox: Option<ReturnValue>,
            after_reply: Option<Reply>,
            after_exec: ExecSession,
            status: Status,
        |
            #[trigger] spec_run_is(
                next,
                next_inbox,
                next_reply,
                next_exec,
                after,
                after_inbox,
                after_reply,
                after_exec,
                session,
                (fuel - 1) as nat,
                status,
            ) ==> spec_run_is(
                frames,
                inbox,
                reply,
                exec,
                after,
                after_inbox,
                after_reply,
                after_exec,
                session,
                fuel,
                status,
            ),
{
}

} // verus!
