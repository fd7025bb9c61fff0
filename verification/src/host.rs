//! What the interpreter asks of its host, and what the host answers.
//!
//! The interpreter computes on integers, booleans, text and its own objects.
//! Arithmetic on floats, their conversion from and to text, and input and
//! output on the console and the file system belong to the host: the
//! interpreter stops with a [`Request`], the host does what it says, and the
//! interpreter goes on with the [`Reply`].

use vstd::prelude::*;

verus! {

/// A number as an operand of float arithmetic: an integer, to be converted
/// to the nearest float, or the bit pattern of a float.
#[derive(Debug, Clone, Copy, PartialEq, Eq, Structural)]
pub enum Number {
    Int(i64),
    Float(u64),
}

/// The operations on two numbers that give a float or compare floats.
#[derive(Debug, Clone, Copy, PartialEq, Eq, Structural)]
pub enum FloatOp {
    Add,
    Sub,
    Mul,
    Div,
    Rem,
    Pow,
    Less,
    Greater,
    Equal,
    NotEqual,
}

/// The functions of one float.
#[derive(Debug, Clone, Copy, PartialEq, Eq, Structural)]
pub enum FloatFn {
    Sin,
    Sind,
    Asin,
    Asind,
    Cos,
    Cosd,
    Acos,
    Acosd,
    Tan,
    Tand,
    Atan,
    Atand,
    Ln,
    Log,
}

/// The operations on the file system. Each takes one or two texts, in the
/// order of the parameters of the function of the language.
#[derive(Debug, Clone, Copy, PartialEq, Eq, Structural)]
pub enum FileOp {
    Read,
    Write,
    Append,
    CurrentDirectory,
    ChangeDirectory,
    Exists,
    List,
    RemoveFile,
    RemoveDirectory,
    CreateDirectory,
    Copy,
    Move,
}

/// What the host is asked to do.
#[derive(Debug)]
pub enum Request {
    /// Apply the operation to the two numbers. An arithmetic operation is
    /// answered with [`Reply::Float`], a comparison with [`Reply::Bool`].
    Binary(FloatOp, Number, Number),
    /// Apply the function to the float. Answered with [`Reply::Float`].
    Unary(FloatFn, u64),
    /// Convert the integer to the nearest float. Answered with
    /// [`Reply::Float`].
    FromInt(i64),
    /// Round the float to the nearest integer, half away from zero, and
    /// convert it to an integer, taking the nearest one where it does not
    /// fit. Answered with [`Reply::Int`].
    ToInt(u64),
    /// Read a float from its decimal text. Answered with
    /// [`Reply::Parsed`].
    Parse(String),
    /// Write each float with six digits after the decimal point. Answered
    /// with [`Reply::Texts`], one text for each float, in order.
    Format(Vec<u64>),
    /// Show the prompt and read one line from the console, without its line
    /// break. Answered with [`Reply::Text`].
    Input(String),
    /// Perform the file operation on the given texts. Answered with
    /// [`Reply::File`].
    File(FileOp, String, String),
}

/// What a file operation gave.
#[derive(Debug)]
pub enum FileOutcome {
    /// The operation succeeded and gives nothing.
    Done,
    /// The operation succeeded and gives a text.
    Text(String),
    /// The operation succeeded and gives a boolean.
    Bool(bool),
    /// The operation succeeded and gives a list of texts.
    List(Vec<String>),
    /// The operation failed, with the reason.
    Failed(String),
}

/// What the host answers.
#[derive(Debug)]
pub enum Reply {
    Float(u64),
    Bool(bool),
    Int(i64),
    Parsed(Result<u64, String>),
    Texts(Vec<String>),
    Text(String),
    File(FileOutcome),
}

} // verus!
