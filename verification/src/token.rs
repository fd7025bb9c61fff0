//! Lexical tokens of an expression: operators with their precedence table,
//! parentheses, and the token type itself.

use vstd::prelude::*;

verus! {

#[derive(Debug, Clone, Copy, PartialEq, Eq, Structural)]
pub enum Operator {
    Add,
    Sub,
    Mult,
    Div,
    Pow,
    Mod,
    Neg,
    And,
    Or,
    Not,
    LessThan,
    GreaterThan,
    Equal,
    NotEqual,
    Typeof,
    Dot,
}

impl Operator {
    /// Binding strength: a higher number binds tighter.
    pub open spec fn spec_precedence(self) -> int {
        match self {
            Operator::Dot => 8,
            Operator::Pow | Operator::Neg => 7,
            Operator::Mult | Operator::Div | Operator::Mod | Operator::Not => 6,
            Operator::Add | Operator::Sub => 5,
            Operator::LessThan | Operator::GreaterThan => 4,
            Operator::Equal | Operator::NotEqual | Operator::Typeof => 3,
            Operator::And => 2,
            Operator::Or => 1,
        }
    }

    /// The operators that take a single operand, written in front of it.
    pub open spec fn spec_is_unary(self) -> bool {
        self == Operator::Neg || self == Operator::Not || self == Operator::Typeof
    }

    /// Every binary operator groups from the left; the unary ones do not.
    pub open spec fn spec_is_left_associative(self) -> bool {
        !self.spec_is_unary()
    }

    /// The operator as it is written in source text.
    pub open spec fn spec_symbol(self) -> Seq<char> {
        match self {
            Operator::Add => "+"@,
            Operator::Sub => "-"@,
            Operator::Mult => "*"@,
            Operator::Div => "/"@,
            Operator::Mod => "%"@,
            Operator::Pow => "^"@,
            Operator::Neg => "-"@,
            Operator::And => "and"@,
            Operator::Or => "or"@,
            Operator::Not => "not"@,
            Operator::LessThan => "<"@,
            Operator::GreaterThan => ">"@,
            Operator::Equal => "=="@,
            Operator::NotEqual => "!="@,
            Operator::Typeof => "typeof"@,
            Operator::Dot => "."@,
        }
    }

    #[inline]
    pub fn precedence(&self) -> (p: i8)
        ensures
            p as int == self.spec_precedence(),
            1 <= p <= 8,
    {
        match self {
            Operator::Add => 5,
            Operator::Sub => 5,
            Operator::Mult => 6,
            Operator::Div => 6,
            Operator::Mod => 6,
            Operator::Pow => 7,
            Operator::Neg => 7,
            Operator::And => 2,
            Operator::Or => 1,
            Operator::Not => 6,
            Operator::LessThan => 4,
            Operator::GreaterThan => 4,
            Operator::Equal => 3,
            Operator::NotEqual => 3,
            Operator::Typeof => 3,
            Operator::Dot => 8,
        }
    }

    #[inline]
    pub fn is_left_associative(&self) -> (b: bool)
        ensures
            b == self.spec_is_left_associative(),
    {
        match self {
            Operator::Neg => false,
            Operator::Not => false,
            Operator::Typeof => false,
            _ => true,
        }
    }

    #[inline]
    pub fn is_unary(&self) -> (b: bool)
        ensures
            b == self.spec_is_unary(),
    {
        match self {
            Operator::Neg => true,
            Operator::Not => true,
            Operator::Typeof => true,
            _ => false,
        }
    }

    /// The operator as it is written in source text.
    pub fn symbol(&self) -> (s: &'static str)
        ensures
            s@ == self.spec_symbol(),
    {
        match self {
            Operator::Add => "+",
            Operator::Sub => "-",
            Operator::Mult => "*",
            Operator::Div => "/",
            Operator::Mod => "%",
            Operator::Pow => "^",
            Operator::Neg => "-",
            Operator::And => "and",
            Operator::Or => "or",
            Operator::Not => "not",
            Operator::LessThan => "<",
            Operator::GreaterThan => ">",
            Operator::Equal => "==",
            Operator::NotEqual => "!=",
            Operator::Typeof => "typeof",
            Operator::Dot => ".",
        }
    }

    pub fn to_string(&self) -> (s: String)
        ensures
            s@ == self.spec_symbol(),
    {
        String::from_str(self.symbol())
    }
}

#[derive(Debug, Clone, Copy, PartialEq, Eq, Structural)]
pub enum Parenthesis {
    Left,
    Right,
}

impl Parenthesis {
    pub open spec fn spec_symbol(self) -> Seq<char> {
        match self {
            Parenthesis::Left => "("@,
            Parenthesis::Right => ")"@,
        }
    }

    pub fn to_string(&self) -> (s: String)
        ensures
            s@ == self.spec_symbol(),
    {
        match self {
            Parenthesis::Left => String::from_str("("),
            Parenthesis::Right => String::from_str(")"),
        }
    }
}

} // verus!

verus! {

/// A value written out in source text. A float keeps its decimal text: the
/// text is turned into a number when the literal is evaluated.
#[derive(Debug)]
pub enum Literal {
    Nil,
    Int(i64),
    Float(String),
    Str(String),
    Bool(bool),
}

#[derive(Debug)]
pub enum TokenKind {
    Value(Literal),
    Identifier(String),
    FunctionCall(Box<crate::function::FunctionCall>),
    Operator(Operator),
    Parenthesis(Parenthesis),
}

/// A token of an expression with its position, counted in characters from
/// the start of the expression.
#[derive(Debug)]
pub struct Token {
    pub pos: usize,
    pub kind: TokenKind,
}

impl Token {
    #[inline]
    pub fn new_int(pos: usize, value: i64) -> (t: Token)
        ensures
            t.pos == pos,
            t.kind == TokenKind::Value(Literal::Int(value)),
    {
        Token { pos, kind: TokenKind::Value(Literal::Int(value)) }
    }

    /// A float literal, given by its decimal text.
    #[inline]
    pub fn new_float(pos: usize, value: String) -> (t: Token)
        ensures
            t.pos == pos,
            t.kind == TokenKind::Value(Literal::Float(value)),
    {
        Token { pos, kind: TokenKind::Value(Literal::Float(value)) }
    }

    #[inline]
    pub fn new_str(pos: usize, value: String) -> (t: Token)
        ensures
            t.pos == pos,
            t.kind == TokenKind::Value(Literal::Str(value)),
    {
        Token { pos, kind: TokenKind::Value(Literal::Str(value)) }
    }

    #[inline]
    pub fn new_bool(pos: usize, value: bool) -> (t: Token)
        ensures
            t.pos == pos,
            t.kind == TokenKind::Value(Literal::Bool(value)),
    {
        Token { pos, kind: TokenKind::Value(Literal::Bool(value)) }
    }

    #[inline]
    pub fn new_none(pos: usize) -> (t: Token)
        ensures
            t.pos == pos,
            t.kind == TokenKind::Value(Literal::Nil),
    {
        Token { pos, kind: TokenKind::Value(Literal::Nil) }
    }

    #[inline]
    pub fn new_identifier(pos: usize, value: String) -> (t: Token)
        ensures
            t.pos == pos,
            t.kind == TokenKind::Identifier(value),
    {
        Token { pos, kind: TokenKind::Identifier(value) }
    }

    #[inline]
    pub fn new_function_call(pos: usize, value: crate::function::FunctionCall) -> (t: Token)
        ensures
            t.pos == pos,
            t.kind == TokenKind::FunctionCall(Box::new(value)),
    {
        Token { pos, kind: TokenKind::FunctionCall(Box::new(value)) }
    }

    #[inline]
    pub fn new_operator(pos: usize, value: Operator) -> (t: Token)
        ensures
            t.pos == pos,
            t.kind == TokenKind::Operator(value),
    {
        Token { pos, kind: TokenKind::Operator(value) }
    }

    #[inline]
    pub fn new_parenthesis(pos: usize, value: Parenthesis) -> (t: Token)
        ensures
            t.pos == pos,
            t.kind == TokenKind::Parenthesis(value),
    {
        Token { pos, kind: TokenKind::Parenthesis(value) }
    }

    #[inline]
    pub fn pos(&self) -> (p: usize)
        ensures
            p == self.pos,
    {
        self.pos
    }

    #[inline]
    pub fn kind(&self) -> (k: &TokenKind)
        ensures
            *k == self.kind,
    {
        &self.kind
    }
}

} // verus!
