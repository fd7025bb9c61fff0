//! The operators of the language on values.

use vstd::prelude::*;
use crate::error::ErrorKind;
use crate::heap::Heap;
use crate::host::{FloatOp, Number};
use crate::session::ParseSession;
use crate::text::{push_range, to_chars};
use crate::token::Operator;
use crate::variable::Value;

verus! {

/// What applying an operator gives: a value, or arithmetic on floats that is
/// left to the host.
#[derive(Debug, Clone, Copy, PartialEq, Eq, Structural)]
pub enum Applied {
    Value(Value),
    Float(FloatOp, Number, Number),
}

/// The sign bit of a float.
pub const FLOAT_SIGN: u64 = 0x8000_0000_0000_0000;

/// A value as a number, where it is one.
pub open spec fn spec_number(value: Value) -> Option<Number> {
    match value {
        Value::Int(i) => Some(Number::Int(i)),
        Value::Float(f) => Some(Number::Float(f)),
        _ => None,
    }
}

pub fn number(value: Value) -> (r: Option<Number>)
    ensures
        r == spec_number(value),
{
    match value {
        Value::Int(i) => Some(Number::Int(i)),
        Value::Float(f) => Some(Number::Float(f)),
        _ => None,
    }
}

/// Whether a number is zero: the integer `0`, or a float whose bits apart
/// from the sign are all clear.
pub open spec fn spec_is_zero(n: Number) -> bool {
    match n {
        Number::Int(i) => i == 0,
        Number::Float(f) => f & !FLOAT_SIGN == 0,
    }
}

pub fn is_zero(n: Number) -> (b: bool)
    ensures
        b == spec_is_zero(n),
{
    match n {
        Number::Int(i) => i == 0,
        Number::Float(f) => f & !FLOAT_SIGN == 0,
    }
}

/// The remainder of a division that rounds towards zero: it has the sign of
/// the dividend. The divisor is not zero.
pub open spec fn spec_remainder(l: int, r: int) -> int {
    let magnitude = (if l < 0 {
        -l
    } else {
        l
    }) % (if r < 0 {
        -r
    } else {
        r
    });
    if l < 0 {
        -magnitude
    } else {
        magnitude
    }
}

/// Magnitude of an integer.
pub fn magnitude(i: i64) -> (m: u64)
    ensures
        m == if i < 0 {
            -(i as int)
        } else {
            i as int
        },
{
    if i < 0 {
        ((-(i + 1)) as u64) + 1
    } else {
        i as u64
    }
}

pub fn remainder(l: i64, r: i64) -> (m: i64)
    requires
        r != 0,
    ensures
        m == spec_remainder(l as int, r as int),
{
    let m = magnitude(l) % magnitude(r);
    if l < 0 {
        -(m as i64)
    } else {
        m as i64
    }
}

/// The float operation that stands for an operator, where it has one.
pub open spec fn spec_float_op(op: Operator) -> Option<FloatOp> {
    match op {
        Operator::Add => Some(FloatOp::Add),
        Operator::Sub => Some(FloatOp::Sub),
        Operator::Mult => Some(FloatOp::Mul),
        Operator::Div => Some(FloatOp::Div),
        Operator::Mod => Some(FloatOp::Rem),
        Operator::Pow => Some(FloatOp::Pow),
        Operator::LessThan => Some(FloatOp::Less),
        Operator::GreaterThan => Some(FloatOp::Greater),
        Operator::Equal => Some(FloatOp::Equal),
        Operator::NotEqual => Some(FloatOp::NotEqual),
        _ => None,
    }
}

pub fn float_op(op: Operator) -> (r: Option<FloatOp>)
    ensures
        r == spec_float_op(op),
{
    match op {
        Operator::Add => Some(FloatOp::Add),
        Operator::Sub => Some(FloatOp::Sub),
        Operator::Mult => Some(FloatOp::Mul),
        Operator::Div => Some(FloatOp::Div),
        Operator::Mod => Some(FloatOp::Rem),
        Operator::Pow => Some(FloatOp::Pow),
        Operator::LessThan => Some(FloatOp::Less),
        Operator::GreaterThan => Some(FloatOp::Greater),
        Operator::Equal => Some(FloatOp::Equal),
        Operator::NotEqual => Some(FloatOp::NotEqual),
        _ => None,
    }
}

/// What an operator gives on two integers where the result is itself
/// computed on integers: sums, differences and products wrap around,
/// the remainder has the sign of the dividend, comparisons give a boolean.
/// Division and exponentiation give a float and are not among these.
pub open spec fn spec_on_integers(op: Operator, l: i64, r: i64) -> Option<Value> {
    match op {
        Operator::Add => Some(Value::Int(l.wrapping_add(r))),
        Operator::Sub => Some(Value::Int(l.wrapping_sub(r))),
        Operator::Mult => Some(Value::Int(l.wrapping_mul(r))),
        Operator::Mod => if r != 0 {
            Some(Value::Int(spec_remainder(l as int, r as int) as i64))
        } else {
            None
        },
        Operator::LessThan => Some(Value::Bool(l < r)),
        Operator::GreaterThan => Some(Value::Bool(l > r)),
        Operator::Equal => Some(Value::Bool(l == r)),
        Operator::NotEqual => Some(Value::Bool(l != r)),
        _ => None,
    }
}

/// What an arithmetic or comparison operator gives on two numbers, `None`
/// for an operator that is neither. Dividing by zero fails, and so does the
/// remainder of two integers by zero. Two integers give an integer or a
/// boolean where [`spec_on_integers`] says so. Everything else is float
/// arithmetic.
pub open spec fn spec_numeric(op: Operator, l: Number, r: Number) -> Option<
    Result<Applied, ErrorKind>,
> {
    match spec_float_op(op) {
        None => None,
        Some(float_op) => if op == Operator::Div && spec_is_zero(r) {
            Some(Err(ErrorKind::ZeroDivision))
        } else {
            match (l, r) {
                (Number::Int(a), Number::Int(b)) => if op == Operator::Mod && b == 0 {
                    Some(Err(ErrorKind::ZeroDivision))
                } else {
                    match spec_on_integers(op, a, b) {
                        Some(v) => Some(Ok(Applied::Value(v))),
                        None => Some(Ok(Applied::Float(float_op, l, r))),
                    }
                },
                _ => Some(Ok(Applied::Float(float_op, l, r))),
            }
        },
    }
}

pub fn numeric(op: Operator, l: Number, r: Number) -> (res: Option<Result<Applied, ErrorKind>>)
    ensures
        res == spec_numeric(op, l, r),
{
    let float_op = match float_op(op) {
        None => {
            return None;
        },
        Some(f) => f,
    };
    if op == Operator::Div && is_zero(r) {
        return Some(Err(ErrorKind::ZeroDivision));
    }
    match (l, r) {
        (Number::Int(a), Number::Int(b)) => {
            let value = match op {
                Operator::Add => Value::Int(a.wrapping_add(b)),
                Operator::Sub => Value::Int(a.wrapping_sub(b)),
                Operator::Mult => Value::Int(a.wrapping_mul(b)),
                Operator::Mod => {
                    if b == 0 {
                        return Some(Err(ErrorKind::ZeroDivision));
                    }
                    Value::Int(remainder(a, b))
                },
                Operator::LessThan => Value::Bool(a < b),
                Operator::GreaterThan => Value::Bool(a > b),
                Operator::Equal => Value::Bool(a == b),
                Operator::NotEqual => Value::Bool(a != b),
                _ => {
                    return Some(Ok(Applied::Float(float_op, l, r)));
                },
            };
            Some(Ok(Applied::Value(value)))
        },
        _ => Some(Ok(Applied::Float(float_op, l, r))),
    }
}

/// Whether `a` comes before `b` in lexicographic order, compared from
/// character `i` on; the characters before `i` are the same in both.
pub open spec fn spec_less_from(a: Seq<char>, b: Seq<char>, i: int) -> bool
    decreases a.len() - i,
{
    if i < 0 || i >= b.len() {
        false
    } else if i >= a.len() {
        true
    } else if a[i] != b[i] {
        (a[i] as u32) < (b[i] as u32)
    } else {
        spec_less_from(a, b, i + 1)
    }
}

/// Whether text `a` comes before text `b` in lexicographic order.
pub open spec fn spec_text_less(a: Seq<char>, b: Seq<char>) -> bool {
    spec_less_from(a, b, 0)
}

pub fn text_less(a: &Vec<char>, b: &Vec<char>) -> (r: bool)
    ensures
        r == spec_text_less(a@, b@),
{
    let mut i: usize = 0;
    loop
        invariant
            i <= a.len(),
            spec_less_from(a@, b@, i as int) == spec_text_less(a@, b@),
        decreases a.len() - i,
    {
        if i >= b.len() {
            return false;
        }
        if i >= a.len() {
            return true;
        }
        if a[i] != b[i] {
            return (a[i] as u32) < (b[i] as u32);
        }
        i = i + 1;
    }
}

/// `text` written `n` times in a row.
pub open spec fn spec_repeat(text: Seq<char>, n: nat) -> Seq<char>
    decreases n,
{
    if n == 0 {
        Seq::empty()
    } else {
        spec_repeat(text, (n - 1) as nat) + text
    }
}

pub fn repeat(text: &Vec<char>, n: u64) -> (r: Vec<char>)
    ensures
        r@ == spec_repeat(text@, n as nat),
{
    let mut out: Vec<char> = Vec::new();
    let mut i: u64 = 0;
    while i < n
        invariant
            i <= n,
            out@ == spec_repeat(text@, i as nat),
        decreases n - i,
    {
        push_range(&mut out, text, 0, text.len());
        assert(text@.subrange(0, text.len() as int) =~= text@);
        i = i + 1;
    }
    out
}

/// The text that an operator makes of two values, where it makes one:
/// `+` joins two strings, `*` repeats a string as often as the magnitude of
/// the integer says. A string that the heap does not hold counts as empty.
pub open spec fn spec_new_text(op: Operator, lhs: Value, rhs: Value, heap: &Heap) -> Option<
    Seq<char>,
> {
    match (op, lhs, rhs) {
        (Operator::Add, Value::Str(l), Value::Str(r)) => Some(heap.spec_text(l) + heap.spec_text(r)),
        (Operator::Mult, Value::Str(l), Value::Int(r)) => Some(
            spec_repeat(heap.spec_text(l), spec_magnitude(r)),
        ),
        (Operator::Mult, Value::Int(l), Value::Str(r)) => Some(
            spec_repeat(heap.spec_text(r), spec_magnitude(l)),
        ),
        _ => None,
    }
}

pub open spec fn spec_magnitude(i: i64) -> nat {
    if i < 0 {
        (-(i as int)) as nat
    } else {
        i as nat
    }
}

/// What an operator gives on two values without making a new object, `None`
/// where the operator does not take values of these types.
///
/// Numbers follow [`spec_numeric`]. Strings are compared by their text.
/// Vectors are equal to vectors, and class instances to class instances,
/// where they are the same object. `none` is equal to `none` and to nothing
/// else. `and` and `or` take booleans.
pub open spec fn spec_pure(op: Operator, lhs: Value, rhs: Value, heap: &Heap) -> Option<
    Result<Applied, ErrorKind>,
> {
    match (spec_number(lhs), spec_number(rhs)) {
        (Some(l), Some(r)) => spec_numeric(op, l, r),
        _ => match op {
            Operator::LessThan => match (lhs, rhs) {
                (Value::Str(l), Value::Str(r)) => Some(
                    Ok(
                        Applied::Value(
                            Value::Bool(spec_text_less(heap.spec_text(l), heap.spec_text(r))),
                        ),
                    ),
                ),
                _ => None,
            },
            Operator::GreaterThan => match (lhs, rhs) {
                (Value::Str(l), Value::Str(r)) => Some(
                    Ok(
                        Applied::Value(
                            Value::Bool(spec_text_less(heap.spec_text(r), heap.spec_text(l))),
                        ),
                    ),
                ),
                _ => None,
            },
            Operator::Equal => match spec_same(lhs, rhs, heap) {
                Some(b) => Some(Ok(Applied::Value(Value::Bool(b)))),
                None => None,
            },
            Operator::NotEqual => match spec_same(lhs, rhs, heap) {
                Some(b) => Some(Ok(Applied::Value(Value::Bool(!b)))),
                None => None,
            },
            Operator::And => match (lhs, rhs) {
                (Value::Bool(l), Value::Bool(r)) => Some(Ok(Applied::Value(Value::Bool(l && r)))),
                _ => None,
            },
            Operator::Or => match (lhs, rhs) {
                (Value::Bool(l), Value::Bool(r)) => Some(Ok(Applied::Value(Value::Bool(l || r)))),
                _ => None,
            },
            _ => None,
        },
    }
}

/// Whether two values that are not both numbers are equal, `None` where
/// they cannot be compared.
pub open spec fn spec_same(lhs: Value, rhs: Value, heap: &Heap) -> Option<bool> {
    match (lhs, rhs) {
        (Value::Nil, Value::Nil) => Some(true),
        (Value::Nil, _) => Some(false),
        (_, Value::Nil) => Some(false),
        (Value::Str(l), Value::Str(r)) => Some(heap.spec_text(l) == heap.spec_text(r)),
        (Value::Bool(l), Value::Bool(r)) => Some(l == r),
        (Value::Class { object: l, typeid: _ }, Value::Class { object: r, typeid: _ }) => Some(
            l == r,
        ),
        (Value::Vector(l), Value::Vector(r)) => Some(l == r),
        _ => None,
    }
}

fn same(lhs: Value, rhs: Value, heap: &Heap) -> (r: Option<bool>)
    ensures
        r == spec_same(lhs, rhs, heap),
{
    match (lhs, rhs) {
        (Value::Nil, Value::Nil) => Some(true),
        (Value::Nil, _) => Some(false),
        (_, Value::Nil) => Some(false),
        (Value::Str(l), Value::Str(r)) => {
            let a = heap.text(l);
            let b = heap.text(r);
            Some(crate::text::same_text(&a, &b))
        },
        (Value::Bool(l), Value::Bool(r)) => Some(l == r),
        (Value::Class { object: l, typeid: _ }, Value::Class { object: r, typeid: _ }) => Some(
            l == r,
        ),
        (Value::Vector(l), Value::Vector(r)) => Some(l == r),
        _ => None,
    }
}

fn pure(op: Operator, lhs: Value, rhs: Value, heap: &Heap) -> (r: Option<Result<Applied, ErrorKind>>)
    ensures
        r == spec_pure(op, lhs, rhs, heap),
{
    match (number(lhs), number(rhs)) {
        (Some(l), Some(r)) => numeric(op, l, r),
        _ => match op {
            Operator::LessThan => match (lhs, rhs) {
                (Value::Str(l), Value::Str(r)) => {
                    let a = heap.text(l);
                    let b = heap.text(r);
                    Some(Ok(Applied::Value(Value::Bool(text_less(&a, &b)))))
                },
                _ => None,
            },
            Operator::GreaterThan => match (lhs, rhs) {
                (Value::Str(l), Value::Str(r)) => {
                    let a = heap.text(l);
                    let b = heap.text(r);
                    Some(Ok(Applied::Value(Value::Bool(text_less(&b, &a)))))
                },
                _ => None,
            },
            Operator::Equal => match same(lhs, rhs, heap) {
                Some(b) => Some(Ok(Applied::Value(Value::Bool(b)))),
                None => None,
            },
            Operator::NotEqual => match same(lhs, rhs, heap) {
                Some(b) => Some(Ok(Applied::Value(Value::Bool(!b)))),
                None => None,
            },
            Operator::And => match (lhs, rhs) {
                (Value::Bool(l), Value::Bool(r)) => Some(Ok(Applied::Value(Value::Bool(l && r)))),
                _ => None,
            },
            Operator::Or => match (lhs, rhs) {
                (Value::Bool(l), Value::Bool(r)) => Some(Ok(Applied::Value(Value::Bool(l || r)))),
                _ => None,
            },
            _ => None,
        },
    }
}

fn new_text(op: Operator, lhs: Value, rhs: Value, heap: &Heap) -> (r: Option<Vec<char>>)
    ensures
        match r {
            Some(text) => spec_new_text(op, lhs, rhs, heap) == Some(text@),
            None => spec_new_text(op, lhs, rhs, heap) is None,
        },
{
    match (op, lhs, rhs) {
        (Operator::Add, Value::Str(l), Value::Str(r)) => {
            let mut a = heap.text(l);
            let b = heap.text(r);
            push_range(&mut a, &b, 0, b.len());
            assert(b@.subrange(0, b.len() as int) =~= b@);
            Some(a)
        },
        (Operator::Mult, Value::Str(l), Value::Int(r)) => {
            let a = heap.text(l);
            Some(repeat(&a, magnitude(r)))
        },
        (Operator::Mult, Value::Int(l), Value::Str(r)) => {
            let a = heap.text(r);
            Some(repeat(&a, magnitude(l)))
        },
        _ => None,
    }
}

/// Whether `e` says that `op` does not take values of the types of `lhs`
/// and `rhs`, naming the operator and both types.
pub open spec fn spec_is_type_error(
    e: ErrorKind,
    op: Operator,
    lhs: Value,
    rhs: Value,
    session: &ParseSession,
) -> bool {
    e matches ErrorKind::InvalidOperationForTypes(o, a, b) && o == op && a@
        == session.spec_typename(lhs.spec_typeid()) && b@ == session.spec_typename(
        rhs.spec_typeid(),
    )
}

/// Whether `r`, with the heap going from `before` to `after`, is what
/// applying the binary operator `op` to `lhs` and `rhs` owes.
///
/// Where the operator makes a text ([`spec_new_text`]), the text is stored
/// as a new string and the result names it. Otherwise the heap stays as it
/// is, and the result is what [`spec_pure`] gives, or, where the operator
/// does not take such values, the error that names the operator and the two
/// types.
pub open spec fn spec_binary_is(
    op: Operator,
    lhs: Value,
    rhs: Value,
    before: &Heap,
    after: &Heap,
    session: &ParseSession,
    r: Result<Applied, ErrorKind>,
) -> bool {
    match spec_new_text(op, lhs, rhs, before) {
        Some(text) => {
            &&& r == Ok::<Applied, ErrorKind>(
                Applied::Value(Value::Str(before.strings@.len() as usize)),
            )
            &&& after.strings@.len() == before.strings@.len() + 1
            &&& after.strings@.last()@ == text
            &&& after.strings@.drop_last() == before.strings@
            &&& after.vectors == before.vectors
            &&& after.instances == before.instances
        },
        None => {
            &&& *after == *before
            &&& match spec_pure(op, lhs, rhs, before) {
                Some(x) => r == x,
                None => r matches Err(e) && spec_is_type_error(e, op, lhs, rhs, session),
            }
        },
    }
}

/// Applies a binary operator to two values.
pub fn binary(op: Operator, lhs: Value, rhs: Value, heap: &mut Heap, session: &ParseSession) -> (r:
    Result<Applied, ErrorKind>)
    ensures
        spec_binary_is(op, lhs, rhs, old(heap), final(heap), session, r),
{
    match new_text(op, lhs, rhs, heap) {
        Some(text) => {
            let value = heap.new_string(text);
            assert(heap.strings@.drop_last() =~= old(heap).strings@);
            Ok(Applied::Value(value))
        },
        None => match pure(op, lhs, rhs, heap) {
            Some(x) => x,
            None => Err(
                ErrorKind::InvalidOperationForTypes(
                    op,
                    session.get_typename(lhs.typeid()),
                    session.get_typename(rhs.typeid()),
                ),
            ),
        },
    }
}

#[inline]
pub fn add(lhs: Value, rhs: Value, heap: &mut Heap, session: &ParseSession) -> (r: Result<
    Applied,
    ErrorKind,
>)
    ensures
        spec_binary_is(Operator::Add, lhs, rhs, old(heap), final(heap), session, r),
{
    binary(Operator::Add, lhs, rhs, heap, session)
}

#[inline]
pub fn subtract(lhs: Value, rhs: Value, heap: &mut Heap, session: &ParseSession) -> (r: Result<
    Applied,
    ErrorKind,
>)
    ensures
        spec_binary_is(Operator::Sub, lhs, rhs, old(heap), final(heap), session, r),
{
    binary(Operator::Sub, lhs, rhs, heap, session)
}

#[inline]
pub fn multiply(lhs: Value, rhs: Value, heap: &mut Heap, session: &ParseSession) -> (r: Result<
    Applied,
    ErrorKind,
>)
    ensures
        spec_binary_is(Operator::Mult, lhs, rhs, old(heap), final(heap), session, r),
{
    binary(Operator::Mult, lhs, rhs, heap, session)
}

#[inline]
pub fn divide(lhs: Value, rhs: Value, heap: &mut Heap, session: &ParseSession) -> (r: Result<
    Applied,
    ErrorKind,
>)
    ensures
        spec_binary_is(Operator::Div, lhs, rhs, old(heap), final(heap), session, r),
{
    binary(Operator::Div, lhs, rhs, heap, session)
}

#[inline]
pub fn modulo(lhs: Value, rhs: Value, heap: &mut Heap, session: &ParseSession) -> (r: Result<
    Applied,
    ErrorKind,
>)
    ensures
        spec_binary_is(Operator::Mod, lhs, rhs, old(heap), final(heap), session, r),
{
    binary(Operator::Mod, lhs, rhs, heap, session)
}

#[inline]
pub fn power(lhs: Value, rhs: Value, heap: &mut Heap, session: &ParseSession) -> (r: Result<
    Applied,
    ErrorKind,
>)
    ensures
        spec_binary_is(Operator::Pow, lhs, rhs, old(heap), final(heap), session, r),
{
    binary(Operator::Pow, lhs, rhs, heap, session)
}

#[inline]
pub fn and(lhs: Value, rhs: Value, heap: &mut Heap, session: &ParseSession) -> (r: Result<
    Applied,
    ErrorKind,
>)
    ensures
        spec_binary_is(Operator::And, lhs, rhs, old(heap), final(heap), session, r),
{
    binary(Operator::And, lhs, rhs, heap, session)
}

#[inline]
pub fn or(lhs: Value, rhs: Value, heap: &mut Heap, session: &ParseSession) -> (r: Result<
    Applied,
    ErrorKind,
>)
    ensures
        spec_binary_is(Operator::Or, lhs, rhs, old(heap), final(heap), session, r),
{
    binary(Operator::Or, lhs, rhs, heap, session)
}

#[inline]
pub fn less_than(lhs: Value, rhs: Value, heap: &mut Heap, session: &ParseSession) -> (r: Result<
    Applied,
    ErrorKind,
>)
    ensures
        spec_binary_is(Operator::LessThan, lhs, rhs, old(heap), final(heap), session, r),
{
    binary(Operator::LessThan, lhs, rhs, heap, session)
}

#[inline]
pub fn greater_than(lhs: Value, rhs: Value, heap: &mut Heap, session: &ParseSession) -> (r: Result<
    Applied,
    ErrorKind,
>)
    ensures
        spec_binary_is(Operator::GreaterThan, lhs, rhs, old(heap), final(heap), session, r),
{
    binary(Operator::GreaterThan, lhs, rhs, heap, session)
}

#[inline]
pub fn equal(lhs: Value, rhs: Value, heap: &mut Heap, session: &ParseSession) -> (r: Result<
    Applied,
    ErrorKind,
>)
    ensures
        spec_binary_is(Operator::Equal, lhs, rhs, old(heap), final(heap), session, r),
{
    binary(Operator::Equal, lhs, rhs, heap, session)
}

#[inline]
pub fn not_equal(lhs: Value, rhs: Value, heap: &mut Heap, session: &ParseSession) -> (r: Result<
    Applied,
    ErrorKind,
>)
    ensures
        spec_binary_is(Operator::NotEqual, lhs, rhs, old(heap), final(heap), session, r),
{
    binary(Operator::NotEqual, lhs, rhs, heap, session)
}

/// The negative of an integer, wrapping around at the smallest one.
pub open spec fn spec_negated(n: i64) -> i64 {
    n.wrapping_mul(-1i64)
}

/// Whether `r` is what negating `operand` owes: an integer gives its
/// negative, a float gives the float with the other sign, anything else the
/// error that names the operator and the type.
pub open spec fn spec_negate_is(operand: Value, session: &ParseSession, r: Result<Value, ErrorKind>) -> bool {
    match operand {
        Value::Int(n) => r == Ok::<Value, ErrorKind>(Value::Int(spec_negated(n))),
        Value::Float(f) => r == Ok::<Value, ErrorKind>(Value::Float(f ^ FLOAT_SIGN)),
        _ => r matches Err(ErrorKind::InvalidOperationForType(o, t)) && o == Operator::Neg && t@
            == session.spec_typename(operand.spec_typeid()),
    }
}

#[inline]
pub fn negate(operand: Value, session: &ParseSession) -> (r: Result<Value, ErrorKind>)
    ensures
        spec_negate_is(operand, session, r),
{
    match operand {
        Value::Int(n) => Ok(Value::Int(n.wrapping_mul(-1i64))),
        Value::Float(f) => Ok(Value::Float(f ^ FLOAT_SIGN)),
        _ => Err(
            ErrorKind::InvalidOperationForType(Operator::Neg, session.get_typename(operand.typeid())),
        ),
    }
}

/// Whether `r` is what `not operand` owes: a boolean gives the other
/// boolean, anything else the error that names the operator and the type.
pub open spec fn spec_not_is(operand: Value, session: &ParseSession, r: Result<Value, ErrorKind>) -> bool {
    match operand {
        Value::Bool(b) => r == Ok::<Value, ErrorKind>(Value::Bool(!b)),
        _ => r matches Err(ErrorKind::InvalidOperationForType(o, t)) && o == Operator::Not && t@
            == session.spec_typename(operand.spec_typeid()),
    }
}

#[inline]
pub fn not(operand: Value, session: &ParseSession) -> (r: Result<Value, ErrorKind>)
    ensures
        spec_not_is(operand, session, r),
{
    match operand {
        Value::Bool(b) => Ok(Value::Bool(!b)),
        _ => Err(
            ErrorKind::InvalidOperationForType(Operator::Not, session.get_typename(operand.typeid())),
        ),
    }
}

/// `typeof`: a new string that holds the name of the operand's type.
#[inline]
pub fn gettype(operand: Value, heap: &mut Heap, session: &ParseSession) -> (v: Value)
    ensures
        v == Value::Str(old(heap).strings@.len() as usize),
        final(heap).strings@.len() == old(heap).strings@.len() + 1,
        final(heap).strings@.last()@ == session.spec_typename(operand.spec_typeid()),
        final(heap).strings@.drop_last() == old(heap).strings@,
        final(heap).vectors == old(heap).vectors,
        final(heap).instances == old(heap).instances,
{
    let name = session.get_typename(operand.typeid());
    let v = heap.new_string(to_chars(name.as_str()));
    assert(heap.strings@.drop_last() =~= old(heap).strings@);
    v
}

/// The magnitude of an integer, wrapping around at the smallest one.
pub open spec fn spec_int_abs(n: i64) -> i64 {
    if n < 0 {
        spec_negated(n)
    } else {
        n
    }
}

/// The magnitude of a float: the same bits with the sign cleared.
pub open spec fn spec_float_abs(f: u64) -> u64 {
    f & !FLOAT_SIGN
}

/// An integer and its negative have the same magnitude, the smallest
/// integer apart, which has no negative.
pub proof fn lemma_int_abs_of_negated(n: i64)
    requires
        n != i64::MIN,
    ensures
        spec_int_abs(spec_negated(n)) == spec_int_abs(n),
{
}

/// A float and its negative have the same magnitude, bit for bit.
pub proof fn lemma_float_abs_of_negated(f: u64)
    ensures
        spec_float_abs(f ^ FLOAT_SIGN) == spec_float_abs(f),
{
    assert((f ^ 0x8000_0000_0000_0000u64) & !0x8000_0000_0000_0000u64 == f
        & !0x8000_0000_0000_0000u64) by (bit_vector);
}

} // verus!
