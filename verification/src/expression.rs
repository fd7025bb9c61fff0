//! Expressions: a token sequence in postfix order.

use vstd::prelude::*;
use crate::error::Context;
use crate::token::{Operator, Parenthesis, Token, TokenKind};

verus! {

/// An expression, stored with its tokens in postfix order.
/// `private_access_typeid` is the class inside whose definition the
/// expression was written, if any.
#[derive(Debug)]
pub struct Expression {
    pub tokens: Vec<Token>,
    pub private_access_typeid: Option<usize>,
    pub context: Context,
}

impl Expression {
    #[inline]
    pub fn tokens(&self) -> (t: &Vec<Token>)
        ensures
            *t == self.tokens,
    {
        &self.tokens
    }

    #[inline]
    pub fn context(&self) -> (c: Context)
        ensures
            c == self.context,
    {
        self.context
    }
}

} // verus!

verus! {

/// Whether the operator `top`, on top of the operator stack, leaves the stack
/// before `incoming` is pushed: it does where it binds tighter, or as tight
/// while `incoming` groups from the left. A unary operator never displaces a
/// unary operator that binds tighter.
pub open spec fn spec_displaces(top: Operator, incoming: Operator) -> bool {
    ||| top.spec_precedence() > incoming.spec_precedence() && !(incoming.spec_is_unary()
        && top.spec_is_unary())
    ||| top.spec_precedence() == incoming.spec_precedence()
        && incoming.spec_is_left_associative()
}

/// Operator stack and output after every operator that `incoming` displaces
/// has moved from the top of the stack to the output.
pub open spec fn spec_pop_operators(stack: Seq<Token>, output: Seq<Token>, incoming: Operator) -> (
    Seq<Token>,
    Seq<Token>,
)
    decreases stack.len(),
{
    if stack.len() > 0 && (stack.last().kind matches TokenKind::Operator(top) && spec_displaces(
        top,
        incoming,
    )) {
        spec_pop_operators(stack.drop_last(), output.push(stack.last()), incoming)
    } else {
        (stack, output)
    }
}

/// Operator stack and output after a right parenthesis: what lies above the
/// nearest left parenthesis moves to the output, and that parenthesis is
/// dropped. Without a left parenthesis the whole stack moves.
pub open spec fn spec_pop_to_left(stack: Seq<Token>, output: Seq<Token>) -> (
    Seq<Token>,
    Seq<Token>,
)
    decreases stack.len(),
{
    if stack.len() == 0 {
        (stack, output)
    } else if stack.last().kind == TokenKind::Parenthesis(Parenthesis::Left) {
        (stack.drop_last(), output)
    } else {
        spec_pop_to_left(stack.drop_last(), output.push(stack.last()))
    }
}

/// Operator stack and output after one more token.
pub open spec fn spec_shunt_step(stack: Seq<Token>, output: Seq<Token>, token: Token) -> (
    Seq<Token>,
    Seq<Token>,
) {
    match token.kind {
        TokenKind::Operator(incoming) => {
            let popped = spec_pop_operators(stack, output, incoming);
            (popped.0.push(token), popped.1)
        },
        TokenKind::Parenthesis(Parenthesis::Left) => (stack.push(token), output),
        TokenKind::Parenthesis(Parenthesis::Right) => spec_pop_to_left(stack, output),
        _ => (stack, output.push(token)),
    }
}

/// Operator stack and output after the first `n` tokens.
pub open spec fn spec_shunt(tokens: Seq<Token>, n: int) -> (Seq<Token>, Seq<Token>)
    decreases n,
{
    if n <= 0 || n > tokens.len() {
        (Seq::empty(), Seq::empty())
    } else {
        let before = spec_shunt(tokens, n - 1);
        spec_shunt_step(before.0, before.1, tokens[n - 1])
    }
}

/// The output followed by what is on the stack, top first.
pub open spec fn spec_flush(stack: Seq<Token>, output: Seq<Token>) -> Seq<Token>
    decreases stack.len(),
{
    if stack.len() == 0 {
        output
    } else {
        spec_flush(stack.drop_last(), output.push(stack.last()))
    }
}

/// The tokens of an infix expression in postfix order.
pub open spec fn spec_postfix(tokens: Seq<Token>) -> Seq<Token> {
    let end = spec_shunt(tokens, tokens.len() as int);
    spec_flush(end.0, end.1)
}

/// A token that stands for a value: a literal, an identifier or a call.
pub open spec fn spec_is_operand(token: Token) -> bool {
    !(token.kind is Operator) && !(token.kind is Parenthesis)
}

impl Expression {
    /// Puts the tokens of an infix expression into postfix order.
    pub fn compile(input: Vec<Token>, private_access_typeid: Option<usize>, context: Context) -> (e:
        Expression)
        ensures
            e.tokens@ == spec_postfix(input@),
            e.private_access_typeid == private_access_typeid,
            e.context == context,
    {
        let mut output: Vec<Token> = Vec::new();
        let mut stack: Vec<Token> = Vec::new();
        let ghost tokens = input@;
        for token in it: input
            invariant
                it.seq() == tokens,
                (stack@, output@) == spec_shunt(tokens, it.index() as int),
        {
            match token.kind {
                TokenKind::Operator(_) => {
                    Expression::process_operator(token, &mut stack, &mut output);
                },
                TokenKind::Parenthesis(_) => {
                    Expression::process_parenthesis(token, &mut stack, &mut output);
                },
                _ => {
                    output.push(token);
                },
            }
        }
        while stack.len() > 0
            invariant
                spec_flush(stack@, output@) == spec_postfix(tokens),
            decreases stack.len(),
        {
            let ghost before = stack@;
            let top = stack.pop().unwrap();
            assert(stack@ =~= before.drop_last());
            output.push(top);
        }
        Expression { tokens: output, private_access_typeid, context }
    }

    fn process_operator(token: Token, stack: &mut Vec<Token>, output: &mut Vec<Token>)
        requires
            token.kind is Operator,
        ensures
            (final(stack)@, final(output)@) == spec_shunt_step(old(stack)@, old(output)@, token),
    {
        let incoming = match token.kind {
            TokenKind::Operator(op) => op,
            _ => Operator::Add,
        };
        let precedence = incoming.precedence();
        let left_assoc = incoming.is_left_associative();
        let is_unary = incoming.is_unary();
        loop
            invariant_except_break
                spec_pop_operators(stack@, output@, incoming) == spec_pop_operators(
                    old(stack)@,
                    old(output)@,
                    incoming,
                ),
            invariant
                precedence as int == incoming.spec_precedence(),
                left_assoc == incoming.spec_is_left_associative(),
                is_unary == incoming.spec_is_unary(),
            ensures
                (stack@, output@) == spec_pop_operators(old(stack)@, old(output)@, incoming),
            decreases stack.len(),
        {
            if stack.len() == 0 {
                break ;
            }
            let displaced = match &stack[stack.len() - 1].kind {
                TokenKind::Operator(top) => {
                    let p = top.precedence();
                    (p > precedence && !(is_unary && top.is_unary())) || (p == precedence
                        && left_assoc)
                },
                _ => false,
            };
            assert(stack@.last() == stack@[stack.len() - 1]);
            if !displaced {
                break ;
            }
            let ghost before = stack@;
            let top = stack.pop().unwrap();
            assert(stack@ =~= before.drop_last());
            output.push(top);
        }
        stack.push(token);
    }

    fn process_parenthesis(token: Token, stack: &mut Vec<Token>, output: &mut Vec<Token>)
        requires
            token.kind is Parenthesis,
        ensures
            (final(stack)@, final(output)@) == spec_shunt_step(old(stack)@, old(output)@, token),
    {
        let par = match token.kind {
            TokenKind::Parenthesis(p) => p,
            _ => Parenthesis::Left,
        };
        match par {
            Parenthesis::Left => stack.push(token),
            Parenthesis::Right => {
                loop
                    invariant_except_break
                        spec_pop_to_left(stack@, output@) == spec_pop_to_left(
                            old(stack)@,
                            old(output)@,
                        ),
                    ensures
                        (stack@, output@) == spec_pop_to_left(old(stack)@, old(output)@),
                    decreases stack.len(),
                {
                    let ghost before = stack@;
                    match stack.pop() {
                        None => {
                            break ;
                        },
                        Some(top) => {
                            assert(stack@ =~= before.drop_last());
                            assert(top == before.last());
                            if let TokenKind::Parenthesis(Parenthesis::Left) = top.kind {
                                break ;
                            } else {
                                output.push(top);
                            }
                        },
                    }
                }
            },
        }
    }
}

/// Multiplication binds tighter than addition: `a + b * c` is lowered to
/// `a b c * +`, whatever the operands and the positions of the tokens are.
pub proof fn lemma_product_before_sum(a: Token, plus: Token, b: Token, times: Token, c: Token)
    requires
        spec_is_operand(a),
        spec_is_operand(b),
        spec_is_operand(c),
        plus.kind == TokenKind::Operator(Operator::Add),
        times.kind == TokenKind::Operator(Operator::Mult),
    ensures
        spec_postfix(seq![a, plus, b, times, c]) == seq![a, b, c, times, plus],
{
    let tokens = seq![a, plus, b, times, c];
    let e: Seq<Token> = Seq::empty();
    reveal_with_fuel(spec_shunt, 6);
    reveal_with_fuel(spec_pop_operators, 3);
    reveal_with_fuel(spec_flush, 3);
    assert(spec_shunt(tokens, 0) == (e, e));
    assert(spec_shunt(tokens, 1) == (e, seq![a])) by {
        assert(e.push(a) =~= seq![a]);
    }
    assert(spec_shunt(tokens, 2) == (seq![plus], seq![a])) by {
        assert(e.push(plus) =~= seq![plus]);
    }
    assert(spec_shunt(tokens, 3) == (seq![plus], seq![a, b])) by {
        assert(seq![a].push(b) =~= seq![a, b]);
    }
    assert(spec_shunt(tokens, 4) == (seq![plus, times], seq![a, b])) by {
        assert(seq![plus].push(times) =~= seq![plus, times]);
        assert(seq![plus].last() == plus);
    }
    assert(spec_shunt(tokens, 5) == (seq![plus, times], seq![a, b, c])) by {
        assert(seq![a, b].push(c) =~= seq![a, b, c]);
    }
    assert(spec_flush(seq![plus, times], seq![a, b, c]) == seq![a, b, c, times, plus]) by {
        assert(seq![plus, times].drop_last() =~= seq![plus]);
        assert(seq![plus].drop_last() =~= e);
        assert(seq![a, b, c].push(times) =~= seq![a, b, c, times]);
        assert(seq![a, b, c, times].push(plus) =~= seq![a, b, c, times, plus]);
    }
}

} // verus!
