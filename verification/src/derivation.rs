//! What is written as the grammar says can be lowered: where the relations
//! of the grammar hold of a text, the text is accepted.

use vstd::prelude::*;
use crate::expression::{spec_postfix, Expression};
use crate::branch::{Branch, BranchBody};
use crate::class::{
    ClassDefinition, PropertyDefinition,
};
use crate::for_loop::ForLoop;
use crate::function::{Function, FunctionCall, Return, UserFunction};
use crate::grammar::{
    lemma_skip_blanks, spec_expect, spec_fresh_functions, spec_functions_of, spec_gap,
    spec_gap_self, spec_methods, spec_properties, Item, Member, Expect, Failure, Grammar, Kind, Shape, Tail,
};
use crate::instruction::{Instruction, VariableAssign, VariableInit};
use crate::variable::{AnnotatedIdentifier, OptionallyAnnotatedIdentifier};
use crate::parser::{
    Place, spec_is_blank, spec_binary_operator_at, spec_digits_end, spec_is_digit, spec_is_word_char, spec_looking_at,
    spec_skip_blanks, spec_unary_operator_at, spec_word_at, spec_word_end,
};
use crate::token::{
    Operator, Parenthesis, Token, TokenKind,
};

verus! {

/// A word that is not empty starts with a word character, and the word is
/// what stands between its start and its end.
pub proof fn lemma_word_starts(text: Seq<char>, p: int)
    requires
        0 <= p,
        spec_word_end(text, p) > p,
    ensures
        p < text.len(),
        spec_is_word_char(text[p]),
        p < spec_word_end(text, p) <= text.len(),
        spec_word_at(text, p).len() == spec_word_end(text, p) - p,
        spec_word_at(text, p)[0] == text[p],
{
    lemma_word_end_bounds(text, p);
}

/// The end of a run of digits lies between its start and the end of the
/// text.
pub proof fn lemma_digits_end_bounds(text: Seq<char>, p: int)
    requires
        0 <= p,
    ensures
        p <= spec_digits_end(text, p),
        p <= text.len() ==> spec_digits_end(text, p) <= text.len(),
    decreases text.len() - p,
{
    if p < text.len() && spec_is_digit(text[p]) {
        lemma_digits_end_bounds(text, p + 1);
    }
}

/// The end of a word lies between its start and the end of the text.
pub proof fn lemma_word_end_bounds(text: Seq<char>, p: int)
    requires
        0 <= p,
    ensures
        p <= spec_word_end(text, p),
        p <= text.len() ==> spec_word_end(text, p) <= text.len(),
    decreases text.len() - p,
{
    if p < text.len() && spec_is_word_char(text[p]) {
        lemma_word_end_bounds(text, p + 1);
    }
}

impl Grammar {
    /// Where the text goes on behind the first `i` tokens.
    pub open spec fn spec_cursor_at(
        &self,
        base: int,
        tokens: Seq<Token>,
        i: int,
        private_access_typeid: Option<usize>,
    ) -> int {
        match self.spec_scan(base, tokens, i, private_access_typeid) {
            Some((cursor, _, _)) => cursor,
            None => 0,
        }
    }

    /// How many parentheses are open behind the first `i` tokens.
    pub open spec fn spec_depth_at(
        &self,
        base: int,
        tokens: Seq<Token>,
        i: int,
        private_access_typeid: Option<usize>,
    ) -> int {
        match self.spec_scan(base, tokens, i, private_access_typeid) {
            Some((_, _, depth)) => depth,
            None => 0,
        }
    }

    /// Whether the first `i` tokens are what the text holds, and what is
    /// expected behind them is `expect`.
    pub open spec fn spec_expects(
        &self,
        base: int,
        tokens: Seq<Token>,
        i: int,
        private_access_typeid: Option<usize>,
        expect: Expect,
    ) -> bool {
        self.spec_scan(base, tokens, i, private_access_typeid) matches Some((_, e, _)) && e
            == expect
    }

    /// Where the tokens of an expression are what the text holds up to the
    /// `n`-th, they are up to every token before it, and each of those
    /// starts inside the text.
    pub proof fn lemma_scan_defined(
        &self,
        base: int,
        tokens: Seq<Token>,
        i: int,
        n: int,
        private_access_typeid: Option<usize>,
    )
        requires
            0 <= i <= n <= tokens.len(),
            self.spec_scan(base, tokens, n, private_access_typeid) is Some,
        ensures
            self.spec_scan(base, tokens, i, private_access_typeid) is Some,
            i < n ==> base <= self.spec_cursor_at(base, tokens, i, private_access_typeid)
                <= self.text.len(),
        decreases n - i,
    {
        if i < n {
            self.lemma_scan_defined(base, tokens, i + 1, n, private_access_typeid);
        }
    }

    /// A string is closed at or behind the place where its inside starts.
    pub proof fn lemma_string_end_bounds(&self, p: int)
        requires
            0 <= p,
        ensures
            p <= self.spec_string_end(p) || self.spec_string_end(p) == self.text.len(),
            self.spec_string_end(p) <= self.text.len(),
        decreases self.text.len() - p,
    {
        if p < self.text.len() && self.text[p] != '"' {
            if self.text[p] == '\\' && p + 1 < self.text.len() {
                self.lemma_string_end_bounds(p + 2);
            } else {
                self.lemma_string_end_bounds(p + 1);
            }
        }
    }

    /// No more parentheses are closed than were opened.
    pub proof fn lemma_depth(
        &self,
        base: int,
        tokens: Seq<Token>,
        i: int,
        n: int,
        private_access_typeid: Option<usize>,
    )
        requires
            0 <= i <= n <= tokens.len(),
            self.spec_scan(base, tokens, n, private_access_typeid) is Some,
        ensures
            self.spec_depth_at(base, tokens, i, private_access_typeid) >= 0,
        decreases i,
    {
        self.lemma_scan_defined(base, tokens, i, n, private_access_typeid);
        if i > 0 {
            self.lemma_depth(base, tokens, i - 1, n, private_access_typeid);
            self.lemma_scan_defined(base, tokens, i - 1, n, private_access_typeid);
            match self.spec_scan(base, tokens, i - 1, private_access_typeid) {
                Some((c, x, d)) => {
                    assert(self.spec_scan(base, tokens, i, private_access_typeid)
                        == self.spec_token_at(c, base, x, d, tokens[i - 1], private_access_typeid));
                },
                None => {},
            }
        }
    }

    /// The unary operators among the tokens from the `i`-th on are the
    /// unary operators that stand in the text: gives the first token behind
    /// them.
    pub proof fn lemma_unaries(
        &self,
        base: int,
        tokens: Seq<Token>,
        i: int,
        private_access_typeid: Option<usize>,
    ) -> (k: int)
        requires
            0 <= base,
            0 <= i < tokens.len(),
            self.spec_expects(
                base,
                tokens,
                tokens.len() as int,
                private_access_typeid,
                Expect::Operator,
            ),
            self.spec_expects(base, tokens, i, private_access_typeid, Expect::Operand),
        ensures
            i <= k < tokens.len(),
            !(tokens[k].kind is Operator),
            self.spec_expects(base, tokens, k, private_access_typeid, Expect::Operand),
            self.spec_depth_at(base, tokens, k, private_access_typeid) == self.spec_depth_at(
                base,
                tokens,
                i,
                private_access_typeid,
            ),
            base <= self.spec_cursor_at(base, tokens, k, private_access_typeid) <= self.text.len(),
            spec_skip_blanks(
                self.text,
                self.spec_cursor_at(base, tokens, k, private_access_typeid),
            ) == self.spec_unaries_end(
                spec_skip_blanks(
                    self.text,
                    self.spec_cursor_at(base, tokens, i, private_access_typeid),
                ),
            ),
            spec_unary_operator_at(
                self.text,
                spec_skip_blanks(
                    self.text,
                    self.spec_cursor_at(base, tokens, k, private_access_typeid),
                ),
            ) is None,
            spec_skip_blanks(
                self.text,
                self.spec_cursor_at(base, tokens, i, private_access_typeid),
            ) <= spec_skip_blanks(
                self.text,
                self.spec_cursor_at(base, tokens, k, private_access_typeid),
            ),
        decreases tokens.len() - i,
    {
        let n = tokens.len() as int;
        self.lemma_scan_defined(base, tokens, i + 1, n, private_access_typeid);
        self.lemma_scan_defined(base, tokens, i, n, private_access_typeid);
        let c = self.spec_cursor_at(base, tokens, i, private_access_typeid);
        let d = self.spec_depth_at(base, tokens, i, private_access_typeid);
        let p = spec_skip_blanks(self.text, c);
        lemma_skip_blanks(self.text, c);
        assert(self.spec_scan(base, tokens, i + 1, private_access_typeid) == self.spec_token_at(
            c,
            base,
            Expect::Operand,
            d,
            tokens[i],
            private_access_typeid,
        ));
        match tokens[i].kind {
            TokenKind::Operator(op) => {
                let width = match spec_unary_operator_at(self.text, p) {
                    Some((_, width)) => width,
                    None => 0usize,
                };
                assert(self.spec_scan(base, tokens, i + 1, private_access_typeid) == Some(
                    (p + width, Expect::Operand, d),
                ));
                assert(i + 1 < n);
                self.lemma_scan_defined(base, tokens, i + 2, n, private_access_typeid);
                lemma_skip_blanks(self.text, p + width);
                let k = self.lemma_unaries(base, tokens, i + 1, private_access_typeid);
                assert(self.spec_unaries_end(p) == self.spec_unaries_end(
                    spec_skip_blanks(self.text, p + width),
                ));
                k
            },
            _ => {
                assert(spec_unary_operator_at(self.text, p) is None);
                assert(self.spec_unaries_end(p) == p);
                i
            },
        }
    }

    /// An operand that stands in the text as the grammar says is a primary
    /// that the text is accepted with.
    #[verifier::rlimit(40)]
    pub proof fn lemma_operand(
        &self,
        p: int,
        base: int,
        token: Token,
        literals: bool,
        private_access_typeid: Option<usize>,
        watch: Option<usize>,
        end: int,
    )
        requires
            0 <= p,
            self.spec_operand_at(p, base, token, literals, private_access_typeid) == Some(end),
        ensures
            self.spec_primary_end(p, base, literals, watch) matches Ok((e, _, _)) && e == end,
            p < end,
            end <= self.text.len(),
        decreases self.text.len() - p, 1int, 0int,
    {
        reveal(Grammar::spec_primary_end);
        reveal(Grammar::spec_call_end);
        reveal_strlit("true");
        reveal_strlit("false");
        reveal_strlit("none");
        reveal_strlit("self");
        let text = self.text;
        lemma_word_end_bounds(text, p);
        match token.kind {
            TokenKind::Value(literal) => {
                assert(self.spec_literal_at(p, literal) == Some(end));
                if spec_is_digit(text[p]) {
                    lemma_digits_end_bounds(text, p + 1);
                    assert(spec_digits_end(text, p) > p);
                    lemma_digits_end_bounds(text, spec_digits_end(text, p) + 1);
                } else if text[p] == '"' {
                    self.lemma_string_end_bounds(p + 1);
                } else {
                    assert(spec_word_at(text, p).len() > 0);
                    lemma_word_starts(text, p);
                    assert(self.spec_literal_word(p));
                }
            },
            TokenKind::Identifier(name) => {
                lemma_word_starts(text, p);
            },
            TokenKind::FunctionCall(call) => {
                lemma_word_starts(text, p);
                self.lemma_call(p, &*call, private_access_typeid, watch, end);
            },
            _ => {},
        }
    }

    /// A call that stands in the text as the grammar says is a call that
    /// the text is accepted with.
    pub proof fn lemma_call(
        &self,
        p: int,
        call: &FunctionCall,
        private_access_typeid: Option<usize>,
        watch: Option<usize>,
        end: int,
    )
        requires
            0 <= p,
            self.spec_call_at(p, call, private_access_typeid) == Some(end),
        ensures
            self.spec_call_end(p, watch) matches Ok((e, _)) && e == end,
            p < end,
            end <= self.text.len(),
        decreases self.text.len() - p, 0int, 0int,
    {
        reveal(Grammar::spec_call_end);
        reveal(Grammar::spec_arguments_close);
        let text = self.text;
        let first_end = spec_word_end(text, p);
        lemma_word_end_bounds(text, p);
        let q = spec_skip_blanks(text, first_end);
        lemma_skip_blanks(text, first_end);
        let scoped = spec_looking_at(text, q, "::"@);
        let name_start = if scoped {
            spec_skip_blanks(text, q + 2)
        } else {
            p
        };
        if scoped {
            lemma_skip_blanks(text, q + 2);
        }
        let name_end = spec_word_end(text, name_start);
        lemma_word_end_bounds(text, name_start);
        let open = spec_skip_blanks(text, name_end);
        lemma_skip_blanks(text, name_end);
        lemma_skip_blanks(text, open + 1);
        let a = spec_skip_blanks(text, open + 1);
        assert(self.spec_arguments_end(open + 1, call.arguments@, private_access_typeid) == Some(
            end,
        ));
        if a < text.len() && text[a] == ')' {
            assert(call.arguments@.len() == 0);
        } else {
            assert(call.arguments@.len() > 0);
            self.lemma_arguments_end(open + 1, call.arguments@, private_access_typeid, end);
        }
    }

    /// Arguments that stand in the text as the grammar says are arguments
    /// that the text is accepted with.
    pub proof fn lemma_arguments_end(
        &self,
        pos: int,
        arguments: Seq<Expression>,
        private_access_typeid: Option<usize>,
        end: int,
    )
        requires
            0 <= pos,
            arguments.len() > 0,
            self.spec_arguments_end(pos, arguments, private_access_typeid) == Some(end),
        ensures
            self.spec_arguments_close(pos) == Ok::<int, crate::grammar::Failure>(end),
            pos < end,
            end <= self.text.len(),
        decreases self.text.len() - pos, 7int, 0int,
    {
        reveal(Grammar::spec_arguments_close);
        reveal(Grammar::spec_expression_shape);
        let k = arguments.len() - 1;
        let cursor = match self.spec_argument_cursor(pos, arguments, k, private_access_typeid) {
            Some(cursor) => cursor,
            None => 0,
        };
        self.lemma_arguments(pos, arguments, k, private_access_typeid);
        let last = match self.spec_expression_at(cursor, &arguments.last(), private_access_typeid) {
            Some(last) => last,
            None => 0,
        };
        self.lemma_expression(cursor, &arguments.last(), private_access_typeid, None, last);
        lemma_skip_blanks(self.text, last);
    }

    /// Where an argument starts as the grammar says, the arguments from
    /// there on are accepted exactly where all of them are.
    pub proof fn lemma_arguments(
        &self,
        pos: int,
        arguments: Seq<Expression>,
        k: int,
        private_access_typeid: Option<usize>,
    )
        requires
            0 <= pos,
            0 <= k,
            self.spec_argument_cursor(pos, arguments, k, private_access_typeid) is Some,
        ensures
            self.spec_argument_cursor(pos, arguments, k, private_access_typeid) matches Some(cursor)
                && pos <= cursor && self.spec_arguments_close(cursor) == self.spec_arguments_close(
                pos,
            ),
        decreases self.text.len() - pos, 6int, k,
    {
        reveal(Grammar::spec_arguments_close);
        reveal(Grammar::spec_expression_shape);
        if k > 0 {
            self.lemma_arguments(pos, arguments, k - 1, private_access_typeid);
            let before = match self.spec_argument_cursor(
                pos,
                arguments,
                k - 1,
                private_access_typeid,
            ) {
                Some(cursor) => cursor,
                None => 0,
            };
            let end = match self.spec_expression_at(
                before,
                &arguments[k - 1],
                private_access_typeid,
            ) {
                Some(end) => end,
                None => 0,
            };
            self.lemma_expression(before, &arguments[k - 1], private_access_typeid, None, end);
            lemma_skip_blanks(self.text, end);
        }
    }

    /// An expression that stands in the text as the grammar says is an
    /// expression that the text is accepted with, and ends where the grammar
    /// says.
    #[verifier::rlimit(40)]
    pub proof fn lemma_expression(
        &self,
        pos: int,
        expression: &Expression,
        private_access_typeid: Option<usize>,
        watch: Option<usize>,
        end: int,
    )
        requires
            0 <= pos,
            self.spec_expression_at(pos, expression, private_access_typeid) == Some(end),
        ensures
            self.spec_expression_shape(pos, watch) matches Ok((e, _)) && e == end,
            pos < end,
            end <= self.text.len(),
        decreases self.text.len() - pos, 5int, 0int,
    {
        reveal(Grammar::spec_expression_shape);
        reveal(Grammar::spec_operands_end);
        let start = spec_skip_blanks(self.text, pos);
        lemma_skip_blanks(self.text, pos);
        let infix = choose|infix: Seq<Token>|
            expression.tokens@ == #[trigger] spec_postfix(infix) && self.spec_infix(
                start,
                infix,
                private_access_typeid,
            ) == Some(end);
        self.lemma_infix(start, infix, private_access_typeid, watch, end);
    }

    /// Tokens that stand in the text as the grammar says are an expression
    /// that the text is accepted with.
    pub proof fn lemma_infix(
        &self,
        base: int,
        tokens: Seq<Token>,
        private_access_typeid: Option<usize>,
        watch: Option<usize>,
        end: int,
    )
        requires
            0 <= base <= self.text.len(),
            self.spec_infix(base, tokens, private_access_typeid) == Some(end),
        ensures
            self.spec_operands_end(base, base, true, false, watch) matches Ok((e, _)) && e == end,
            base < end <= self.text.len(),
        decreases self.text.len() - base, 4int, tokens.len() + 1,
    {
        let n = tokens.len() as int;
        assert(self.spec_scan(base, tokens, 0, private_access_typeid) == Some(
            (base, Expect::Operand, 0int),
        ));
        assert(n > 0);
        let j = self.lemma_level(base, tokens, 0, private_access_typeid, base, true, false, watch);
        if j < n {
            self.lemma_scan_defined(base, tokens, j + 1, n, private_access_typeid);
            self.lemma_scan_defined(base, tokens, j, n, private_access_typeid);
            assert(self.spec_scan(base, tokens, j + 1, private_access_typeid)
                == self.spec_token_at(
                self.spec_cursor_at(base, tokens, j, private_access_typeid),
                base,
                Expect::Operator,
                0,
                tokens[j],
                private_access_typeid,
            ));
            assert(false);
        }
    }

    /// The members among the tokens from the `i`-th on are the members that
    /// the text is accepted with: gives the first token behind them.
    #[verifier::rlimit(60)]
    pub proof fn lemma_members(
        &self,
        base: int,
        tokens: Seq<Token>,
        i: int,
        private_access_typeid: Option<usize>,
        tail: Tail,
        name: usize,
        made: bool,
        watch: Option<usize>,
    ) -> (k: int)
        requires
            0 <= base <= self.text.len(),
            0 <= i <= tokens.len(),
            self.spec_infix(base, tokens, private_access_typeid) is Some,
            self.spec_expects(base, tokens, i, private_access_typeid, Expect::Operator),
            base <= self.spec_cursor_at(base, tokens, i, private_access_typeid),
        ensures
            i <= k <= tokens.len(),
            self.spec_expects(base, tokens, k, private_access_typeid, Expect::Operator),
            self.spec_depth_at(base, tokens, k, private_access_typeid) == self.spec_depth_at(
                base,
                tokens,
                i,
                private_access_typeid,
            ),
            k < tokens.len() ==> !(tokens[k].kind matches TokenKind::Operator(o) && o
                == Operator::Dot),
            self.spec_members_end(
                self.spec_cursor_at(base, tokens, i, private_access_typeid),
                base,
                tail,
                name,
                made,
                watch,
            ) matches Ok((e, _, _, _)) && e == self.spec_cursor_at(
                base,
                tokens,
                k,
                private_access_typeid,
            ),
            self.spec_cursor_at(base, tokens, i, private_access_typeid) <= self.spec_cursor_at(
                base,
                tokens,
                k,
                private_access_typeid,
            ),
            self.spec_cursor_at(base, tokens, i, private_access_typeid) <= self.text.len()
                ==> self.spec_cursor_at(base, tokens, k, private_access_typeid)
                <= self.text.len(),
        decreases self.text.len() - base, 4int, tokens.len() - i,
    {
        reveal(Grammar::spec_members_end);
        reveal(Grammar::spec_primary_end);
        reveal_strlit("==");
        reveal_strlit("!=");
        reveal_strlit("and");
        reveal_strlit("or");
        let n = tokens.len() as int;
        let c = self.spec_cursor_at(base, tokens, i, private_access_typeid);
        let d = self.spec_depth_at(base, tokens, i, private_access_typeid);
        let p = spec_skip_blanks(self.text, c);
        if i == n {
            assert(!self.spec_goes_on(c));
            assert(self.spec_members_end(c, base, tail, name, made, watch) == Ok::<
                (int, Tail, usize, bool),
                crate::grammar::Failure,
            >((c, tail, name, made)));
            return i;
        }
        self.lemma_scan_defined(base, tokens, i + 1, n, private_access_typeid);
        self.lemma_scan_defined(base, tokens, i, n, private_access_typeid);
        lemma_skip_blanks(self.text, c);
        lemma_word_end_bounds(self.text, p);
        assert(self.spec_scan(base, tokens, i + 1, private_access_typeid) == self.spec_token_at(
            c,
            base,
            Expect::Operator,
            d,
            tokens[i],
            private_access_typeid,
        ));
        let dotted = tokens[i].kind matches TokenKind::Operator(o) && o == Operator::Dot;
        if dotted {
            assert(self.text[p] == '.');
            assert(self.spec_scan(base, tokens, i + 1, private_access_typeid) == Some(
                (p + 1, Expect::Member, d),
            ));
            assert(i + 1 < n);
            self.lemma_scan_defined(base, tokens, i + 2, n, private_access_typeid);
            lemma_skip_blanks(self.text, p + 1);
            let member = spec_skip_blanks(self.text, p + 1);
            assert(self.spec_scan(base, tokens, i + 2, private_access_typeid)
                == self.spec_token_at(
                p + 1,
                base,
                Expect::Member,
                d,
                tokens[i + 1],
                private_access_typeid,
            ));
            let end = self.spec_cursor_at(base, tokens, i + 2, private_access_typeid);
            assert(self.spec_operand_at(
                member,
                base,
                tokens[i + 1],
                false,
                private_access_typeid,
            ) == Some(end));
            self.lemma_operand(
                member,
                base,
                tokens[i + 1],
                false,
                private_access_typeid,
                watch,
                end,
            );
            let found = self.spec_primary_end(member, base, false, watch);
            let kind = match found {
                Ok((_, kind, _)) => kind,
                Err(_) => Kind::Other,
            };
            let shown = match found {
                Ok((_, _, shown)) => shown,
                Err(_) => false,
            };
            let k = self.lemma_members(
                base,
                tokens,
                i + 2,
                private_access_typeid,
                crate::grammar::spec_member(kind),
                crate::parser::spec_minus(member, base) as usize,
                made || shown,
                watch,
            );
            assert(self.spec_members_end(c, base, tail, name, made, watch)
                == self.spec_members_end(
                end,
                base,
                crate::grammar::spec_member(kind),
                crate::parser::spec_minus(member, base) as usize,
                made || shown,
                watch,
            ));
            k
        } else {
            assert(self.text[p] != '.') by {
                if self.text[p] == '.' {
                    assert(!spec_is_word_char('.'));
                    assert(spec_word_end(self.text, p) == p);
                    assert(spec_word_at(self.text, p).len() == 0);
                    if spec_looking_at(self.text, p, "=="@) {
                        assert(self.text.subrange(p, p + 2)[0] == self.text[p]);
                        assert("=="@[0] == '=');
                    }
                    if spec_looking_at(self.text, p, "!="@) {
                        assert(self.text.subrange(p, p + 2)[0] == self.text[p]);
                        assert("!="@[0] == '!');
                    }
                    assert(spec_binary_operator_at(self.text, p) is None);
                }
            }
            assert(self.spec_members_end(c, base, tail, name, made, watch) == Ok::<
                (int, Tail, usize, bool),
                crate::grammar::Failure,
            >((c, tail, name, made)));
            i
        }
    }

    /// What an expression is accepted with, from its next operand on.
    pub proof fn lemma_operands_unfold(
        &self,
        at: int,
        base: int,
        first: bool,
        made: bool,
        watch: Option<usize>,
    )
        ensures
            self.spec_operands_end(at, base, first, made, watch) == ({
                let start = spec_skip_blanks(self.text, at);
                let operand = self.spec_unaries_end(start);
                if start < at || operand < start || operand > self.text.len() {
                    Err::<(int, Shape), crate::grammar::Failure>(self.spec_syntax(start))
                } else {
                    match self.spec_primary_end(operand, base, true, watch) {
                        Err(f) => Err(f),
                        Ok((behind, kind, shown)) => if behind <= at || behind > self.text.len() {
                            Err(self.spec_syntax(start))
                        } else {
                            match self.spec_members_end(
                                behind,
                                base,
                                if first && operand == start {
                                    crate::grammar::spec_lone(kind)
                                } else {
                                    Tail::Other
                                },
                                crate::parser::spec_minus(operand, base) as usize,
                                made || shown,
                                watch,
                            ) {
                                Err(f) => Err(f),
                                Ok((end, tail, name, all)) => {
                                    let next = spec_skip_blanks(self.text, end);
                                    match spec_binary_operator_at(self.text, next) {
                                        Some((_, width)) => if next + width <= at || next + width
                                            > self.text.len() {
                                            Err(self.spec_syntax(start))
                                        } else {
                                            self.spec_operands_end(
                                                next + width,
                                                base,
                                                false,
                                                all,
                                                watch,
                                            )
                                        },
                                        None => Ok(
                                            (
                                                end,
                                                Shape {
                                                    plain: first && operand == start && kind
                                                        != Kind::Other,
                                                    tail,
                                                    name,
                                                    made: all,
                                                },
                                            ),
                                        ),
                                    }
                                },
                            }
                        },
                    }
                }
            }),
    {
        reveal(Grammar::spec_operands_end);
        reveal(Grammar::spec_primary_end);
        reveal(Grammar::spec_members_end);
    }

    /// What an expression in parentheses is accepted with.
    pub proof fn lemma_parenthesis_unfold(&self, p: int, base: int, watch: Option<usize>)
        requires
            0 <= p < self.text.len(),
            self.text[p] == '(',
        ensures
            self.spec_primary_end(p, base, true, watch) == match self.spec_operands_end(
                p + 1,
                base,
                true,
                false,
                watch,
            ) {
                Err(f) => Err::<(int, Kind, bool), crate::grammar::Failure>(f),
                Ok((inner, shape)) => {
                    let q = spec_skip_blanks(self.text, inner);
                    if 0 <= q < self.text.len() && self.text[q] == ')' {
                        Ok((q + 1, Kind::Other, shape.made))
                    } else {
                        Err(self.spec_syntax(q))
                    }
                },
            },
    {
        reveal(Grammar::spec_operands_end);
        reveal(Grammar::spec_primary_end);
    }

    /// The tokens from the `i`-th on, where an operand is expected, are an
    /// expression that the text is accepted with, up to the token, if any,
    /// that closes the parenthesis around them: gives that token, or the
    /// number of the tokens.
    #[verifier::rlimit(100)]
    pub proof fn lemma_level(
        &self,
        base: int,
        tokens: Seq<Token>,
        i: int,
        private_access_typeid: Option<usize>,
        at: int,
        first: bool,
        made: bool,
        watch: Option<usize>,
    ) -> (j: int)
        requires
            0 <= base <= self.text.len(),
            0 <= i <= tokens.len(),
            self.spec_infix(base, tokens, private_access_typeid) is Some,
            self.spec_expects(base, tokens, i, private_access_typeid, Expect::Operand),
            0 <= at <= self.text.len(),
            base <= at,
            spec_skip_blanks(self.text, at) == spec_skip_blanks(
                self.text,
                self.spec_cursor_at(base, tokens, i, private_access_typeid),
            ),
        ensures
            i < j <= tokens.len(),
            self.spec_expects(base, tokens, j, private_access_typeid, Expect::Operator),
            self.spec_depth_at(base, tokens, j, private_access_typeid) == self.spec_depth_at(
                base,
                tokens,
                i,
                private_access_typeid,
            ),
            j < tokens.len() ==> (tokens[j].kind matches TokenKind::Parenthesis(side) && side
                == Parenthesis::Right),
            self.spec_operands_end(at, base, first, made, watch) matches Ok((e, _)) && e
                == self.spec_cursor_at(base, tokens, j, private_access_typeid),
            at < self.spec_cursor_at(base, tokens, j, private_access_typeid) <= self.text.len(),
        decreases self.text.len() - base, 4int, tokens.len() - i,
    {
        reveal_strlit("==");
        reveal_strlit("!=");
        reveal_strlit("and");
        reveal_strlit("or");
        let n = tokens.len() as int;
        let text = self.text;
        assert(i < n);
        let d = self.spec_depth_at(base, tokens, i, private_access_typeid);
        lemma_skip_blanks(text, at);
        let start = spec_skip_blanks(text, at);
        let k1 = self.lemma_unaries(base, tokens, i, private_access_typeid);
        let c1 = self.spec_cursor_at(base, tokens, k1, private_access_typeid);
        lemma_skip_blanks(text, c1);
        let operand = spec_skip_blanks(text, c1);
        assert(operand == self.spec_unaries_end(start));
        self.lemma_scan_defined(base, tokens, k1 + 1, n, private_access_typeid);
        assert(self.spec_scan(base, tokens, k1 + 1, private_access_typeid)
            == self.spec_token_at(
            c1,
            base,
            Expect::Operand,
            d,
            tokens[k1],
            private_access_typeid,
        ));
        let opened = tokens[k1].kind matches TokenKind::Parenthesis(side) && side
            == Parenthesis::Left;
        let i2: int;
        if opened {
            assert(text[operand] == '(');
            assert(self.spec_scan(base, tokens, k1 + 1, private_access_typeid) == Some(
                (operand + 1, Expect::Operand, d + 1),
            ));
            let j1 = self.lemma_level(
                base,
                tokens,
                k1 + 1,
                private_access_typeid,
                operand + 1,
                true,
                false,
                watch,
            );
            self.lemma_depth(base, tokens, i, n, private_access_typeid);
            assert(self.spec_depth_at(base, tokens, n, private_access_typeid) == 0);
            assert(j1 < n);
            self.lemma_scan_defined(base, tokens, j1 + 1, n, private_access_typeid);
            self.lemma_scan_defined(base, tokens, j1, n, private_access_typeid);
            let inner = self.spec_cursor_at(base, tokens, j1, private_access_typeid);
            lemma_skip_blanks(text, inner);
            assert(self.spec_scan(base, tokens, j1 + 1, private_access_typeid)
                == self.spec_token_at(
                inner,
                base,
                Expect::Operator,
                d + 1,
                tokens[j1],
                private_access_typeid,
            ));
            let q = spec_skip_blanks(text, inner);
            assert(text[q] == ')');
            assert(self.spec_scan(base, tokens, j1 + 1, private_access_typeid) == Some(
                (q + 1, Expect::Operator, d),
            ));
            self.lemma_parenthesis_unfold(operand, base, watch);
            i2 = j1 + 1;
        } else {
            let end = self.spec_cursor_at(base, tokens, k1 + 1, private_access_typeid);
            assert(self.spec_operand_at(operand, base, tokens[k1], true, private_access_typeid)
                == Some(end));
            self.lemma_operand(
                operand,
                base,
                tokens[k1],
                true,
                private_access_typeid,
                watch,
                end,
            );
            i2 = k1 + 1;
        }
        let behind = self.spec_cursor_at(base, tokens, i2, private_access_typeid);
        let found = self.spec_primary_end(operand, base, true, watch);
        assert(found matches Ok((e, _, _)) && e == behind);
        let kind = match found {
            Ok((_, kind, _)) => kind,
            Err(_) => Kind::Other,
        };
        let shown = match found {
            Ok((_, _, shown)) => shown,
            Err(_) => false,
        };
        let tail = if first && operand == start {
            crate::grammar::spec_lone(kind)
        } else {
            Tail::Other
        };
        let name = crate::parser::spec_minus(operand, base) as usize;
        let k3 = self.lemma_members(
            base,
            tokens,
            i2,
            private_access_typeid,
            tail,
            name,
            made || shown,
            watch,
        );
        let ended = self.spec_members_end(behind, base, tail, name, made || shown, watch);
        let end = self.spec_cursor_at(base, tokens, k3, private_access_typeid);
        let all = match ended {
            Ok((_, _, _, all)) => all,
            Err(_) => false,
        };
        lemma_skip_blanks(text, if end <= text.len() { end } else { 0 });
        let next = spec_skip_blanks(text, end);
        assert(ended matches Ok((e, _, _, _)) && e == end);
        assert(behind > at && behind <= text.len());
        self.lemma_operands_unfold(at, base, first, made, watch);
        assert(self.spec_operands_end(at, base, first, made, watch) == match ended {
            Err(f) => Err::<(int, Shape), crate::grammar::Failure>(f),
            Ok((end, tail, name, all)) => {
                let next = spec_skip_blanks(text, end);
                match spec_binary_operator_at(text, next) {
                    Some((_, width)) => if next + width <= at || next + width > text.len() {
                        Err(self.spec_syntax(start))
                    } else {
                        self.spec_operands_end(next + width, base, false, all, watch)
                    },
                    None => Ok(
                        (
                            end,
                            Shape {
                                plain: first && operand == start && kind != Kind::Other,
                                tail,
                                name,
                                made: all,
                            },
                        ),
                    ),
                }
            },
        });
        if k3 == n {
            assert(!self.spec_goes_on(end));
            assert(spec_binary_operator_at(text, next) is None);
            return n;
        }
        self.lemma_scan_defined(base, tokens, k3 + 1, n, private_access_typeid);
        self.lemma_scan_defined(base, tokens, k3, n, private_access_typeid);
        lemma_word_end_bounds(text, next);
        assert(self.spec_scan(base, tokens, k3 + 1, private_access_typeid)
            == self.spec_token_at(
            end,
            base,
            Expect::Operator,
            d,
            tokens[k3],
            private_access_typeid,
        ));
        let closed = tokens[k3].kind matches TokenKind::Parenthesis(side) && side
            == Parenthesis::Right;
        if closed {
            assert(text[next] == ')');
            assert(!spec_is_word_char(')'));
            assert(spec_word_end(text, next) == next);
            assert(spec_word_at(text, next).len() == 0);
            if spec_looking_at(text, next, "=="@) {
                assert(text.subrange(next, next + 2)[0] == text[next]);
                assert("=="@[0] == '=');
            }
            if spec_looking_at(text, next, "!="@) {
                assert(text.subrange(next, next + 2)[0] == text[next]);
                assert("!="@[0] == '!');
            }
            assert(spec_binary_operator_at(text, next) is None);
            k3
        } else {
            let width = match spec_binary_operator_at(text, next) {
                Some((_, width)) => width,
                None => 0usize,
            };
            assert(self.spec_scan(base, tokens, k3 + 1, private_access_typeid) == Some(
                (next + width, Expect::Operand, d),
            ));
            assert(k3 + 1 < n);
            self.lemma_scan_defined(base, tokens, k3 + 2, n, private_access_typeid);
            let j = self.lemma_level(
                base,
                tokens,
                k3 + 1,
                private_access_typeid,
                next + width,
                false,
                all,
                watch,
            );
            j
        }
    }
}

} // verus!

verus! {

impl Grammar {
    /// A name that stands in the text as the grammar says is a name that
    /// the text is accepted with.
    pub proof fn lemma_identifier(
        &self,
        pos: int,
        construct: int,
        name: Seq<char>,
        typeid: Option<usize>,
    )
        requires
            0 <= pos <= self.text.len(),
            self.spec_identifier_at(pos, name, typeid) is Some,
        ensures
            self.spec_identifier_at(pos, name, typeid) matches Some((start, end))
                && self.spec_identifier_end(pos, construct) == Ok::<
                (int, int, Option<usize>),
                Failure,
            >((start, end, typeid)) && pos <= start < end <= self.text.len() && name
                == spec_word_at(self.text, start),
    {
        lemma_skip_blanks(self.text, pos);
        let start = spec_skip_blanks(self.text, pos);
        lemma_word_end_bounds(self.text, start);
        let name_end = spec_word_end(self.text, start);
        lemma_skip_blanks(self.text, name_end);
        let p = spec_skip_blanks(self.text, name_end);
        if p < self.text.len() {
            lemma_skip_blanks(self.text, p + 1);
            lemma_word_end_bounds(self.text, spec_skip_blanks(self.text, p + 1));
        }
    }

    /// Where the `k`-th of the names of a declaration ends as the grammar
    /// says, the names are accepted exactly where the names behind it are.
    pub proof fn lemma_names(
        &self,
        pos: int,
        construct: int,
        ids: Seq<OptionallyAnnotatedIdentifier>,
        k: int,
    )
        requires
            0 <= pos <= self.text.len(),
            self.spec_identifiers_end(pos, ids, k) is Some,
        ensures
            self.spec_identifiers_end(pos, ids, k) matches Some(end) && pos < end
                <= self.text.len() && self.spec_names_end(pos, construct) == ({
                let p = spec_skip_blanks(self.text, end);
                if 0 <= p < self.text.len() && self.text[p] == ',' {
                    self.spec_names_end(p + 1, construct)
                } else {
                    Ok(end)
                }
            }),
        decreases k,
    {
        reveal(Grammar::spec_names_end);
        if k == 1 {
            self.lemma_identifier(pos, construct, ids[0].name@, ids[0].typeid);
            let end = match self.spec_identifiers_end(pos, ids, k) {
                Some(end) => end,
                None => 0,
            };
            lemma_skip_blanks(self.text, end);
        } else {
            self.lemma_names(pos, construct, ids, k - 1);
            let before = match self.spec_identifiers_end(pos, ids, k - 1) {
                Some(end) => end,
                None => 0,
            };
            lemma_skip_blanks(self.text, before);
            let at = spec_skip_blanks(self.text, before) + 1;
            self.lemma_identifier(at, construct, ids[k - 1].name@, ids[k - 1].typeid);
            let end = match self.spec_identifiers_end(pos, ids, k) {
                Some(end) => end,
                None => 0,
            };
            lemma_skip_blanks(self.text, end);
        }
    }

    /// A declaration that stands in the text as the grammar says is a
    /// declaration that the text is accepted with.
    pub proof fn lemma_init(
        &self,
        pos: int,
        init: VariableInit,
        private_access_typeid: Option<usize>,
        end: int,
    )
        requires
            0 <= pos,
            pos + 3 <= self.text.len(),
            self.spec_init_at(pos, init, private_access_typeid) == Some(end),
        ensures
            self.spec_init_end(pos) == Ok::<int, Failure>(end),
            pos < end <= self.text.len(),
    {
        self.lemma_names(pos + 3, pos, init.identifiers@, init.identifiers@.len() as int);
        let at = match self.spec_identifiers_end(
            pos + 3,
            init.identifiers@,
            init.identifiers@.len() as int,
        ) {
            Some(at) => at,
            None => 0,
        };
        lemma_skip_blanks(self.text, at);
        let after = spec_skip_blanks(self.text, at) + 1;
        self.lemma_expression(after, &init.expr, private_access_typeid, None, end);
    }

    /// A `return` that stands in the text as the grammar says is one that
    /// the text is accepted with.
    pub proof fn lemma_return(
        &self,
        pos: int,
        ret: Return,
        private_access_typeid: Option<usize>,
        end: int,
    )
        requires
            0 <= pos,
            pos + 6 <= self.text.len(),
            self.spec_return_at(pos, ret, private_access_typeid) == Some(end),
        ensures
            self.spec_return_end(pos) == Ok::<int, Failure>(end),
            pos < end <= self.text.len(),
    {
        lemma_skip_blanks(self.text, pos + 6);
        let p = spec_skip_blanks(self.text, pos + 6);
        if !(p >= self.text.len() || self.text[p] == ';' || self.text[p] == '}') {
            match ret.expr {
                Some(expr) => {
                    self.lemma_expression(p, &expr, private_access_typeid, None, end);
                },
                None => {},
            }
        }
    }

    /// An assignment that stands in the text as the grammar says is one
    /// that the text is accepted with.
    pub proof fn lemma_assign(
        &self,
        pos: int,
        assign: VariableAssign,
        private_access_typeid: Option<usize>,
        end: int,
    )
        requires
            0 <= pos <= self.text.len(),
            self.spec_assign_at(pos, assign, private_access_typeid) == Some(end),
        ensures
            self.spec_plain_end(pos) == Ok::<int, Failure>(end),
            pos < end <= self.text.len(),
    {
        let p = pos + assign.assign_pos;
        let infix = choose|infix: Seq<Token>| #[trigger]
            self.spec_target(pos, infix, assign, private_access_typeid) && (self.spec_infix(
                pos,
                infix,
                private_access_typeid,
            ) matches Some(target_end) && spec_skip_blanks(self.text, target_end) == p);
        let target_end = match self.spec_infix(pos, infix, private_access_typeid) {
            Some(target_end) => target_end,
            None => 0,
        };
        self.lemma_infix(pos, infix, private_access_typeid, None, target_end);
        lemma_skip_blanks(self.text, target_end);
        self.lemma_expression(p + 1, &assign.expr, private_access_typeid, None, end);
    }

    /// An expression that stands in the text as a statement, as the grammar
    /// says, is one that the text is accepted with.
    pub proof fn lemma_plain(
        &self,
        pos: int,
        expression: &Expression,
        private_access_typeid: Option<usize>,
        end: int,
    )
        requires
            0 <= pos < self.text.len(),
            !spec_is_blank(self.text[pos]),
            self.spec_expression_at(pos, expression, private_access_typeid) == Some(end),
            spec_expect(self.text, end, '=') is None,
        ensures
            self.spec_plain_end(pos) == Ok::<int, Failure>(end),
            pos < end <= self.text.len(),
    {
        self.lemma_expression(pos, expression, private_access_typeid, None, end);
        assert(spec_skip_blanks(self.text, pos) == pos);
        self.lemma_shape_unfold(pos, None);
    }

    /// What an expression is accepted with, from the blanks before it on.
    pub proof fn lemma_shape_unfold(&self, pos: int, watch: Option<usize>)
        ensures
            self.spec_expression_shape(pos, watch) == ({
                let start = spec_skip_blanks(self.text, pos);
                if start < pos || start > self.text.len() {
                    Err::<(int, Shape), Failure>(self.spec_syntax(start))
                } else {
                    self.spec_operands_end(start, start, true, false, watch)
                }
            }),
    {
        reveal(Grammar::spec_expression_shape);
        reveal(Grammar::spec_operands_end);
    }
}

} // verus!

verus! {

impl Grammar {
    /// A statement that stands in the text as the grammar says is a
    /// statement that the text is accepted with.
    pub proof fn lemma_statement(
        &self,
        pos: int,
        instruction: Instruction,
        private_access_typeid: Option<usize>,
        place: Place,
        end: int,
    )
        requires
            0 <= pos,
            self.spec_statement_at(pos, instruction, private_access_typeid, place) == Some(end),
        ensures
            self.spec_statement_end(pos, place) == Ok::<int, Failure>(end),
            pos < end <= self.text.len(),
        decreases self.text.len() - pos, 1int, 0int,
    {
        reveal(Grammar::spec_statement_at);
        self.lemma_statement_end_unfold(pos, place);
        reveal_strlit("if");
        reveal_strlit("while");
        reveal_strlit("for");
        reveal_strlit("break");
        reveal_strlit("return");
        reveal_strlit("let");
        lemma_word_end_bounds(self.text, pos);
        let word = spec_word_at(self.text, pos);
        assert(word.len() == spec_word_end(self.text, pos) - pos);
        if word == "if"@ {
            match instruction {
                Instruction::Branch(branch) => {
                    self.lemma_branch(pos, branch, private_access_typeid, end);
                },
                _ => {},
            }
        } else if word == "while"@ {
            match instruction {
                Instruction::WhileLoop(while_loop) => {
                    self.lemma_guarded(
                        pos + 5,
                        &while_loop.condition,
                        while_loop.body@,
                        private_access_typeid,
                        end,
                    );
                },
                _ => {},
            }
        } else if word == "for"@ {
            match instruction {
                Instruction::ForLoop(for_loop) => {
                    self.lemma_for(pos, for_loop, private_access_typeid, end);
                },
                _ => {},
            }
        } else if word == "break"@ {
        } else if word == "return"@ {
            match instruction {
                Instruction::Return(ret) => {
                    self.lemma_return(pos, ret, private_access_typeid, end);
                },
                _ => {},
            }
        } else if word == "let"@ {
            match instruction {
                Instruction::VariableInit(init) => {
                    self.lemma_init(pos, init, private_access_typeid, end);
                },
                _ => {},
            }
        } else {
            match instruction {
                Instruction::Expression(expression) => {
                    self.lemma_plain(pos, &expression, private_access_typeid, end);
                },
                Instruction::VariableAssign(assign) => {
                    self.lemma_assign(pos, assign, private_access_typeid, end);
                },
                _ => {},
            }
        }
    }

    /// What a statement is accepted with.
    pub proof fn lemma_statement_end_unfold(&self, pos: int, place: Place)
        ensures
            self.spec_statement_end(pos, place) == ({
                let word = spec_word_at(self.text, pos);
                if pos < 0 || pos >= self.text.len() {
                    Err::<int, Failure>(self.spec_syntax(pos))
                } else if word == "if"@ {
                    self.spec_branch_end(pos)
                } else if word == "while"@ {
                    if pos + 5 > self.text.len() {
                        Err(self.spec_syntax(pos))
                    } else {
                        self.spec_guarded_end(pos + 5)
                    }
                } else if word == "for"@ {
                    self.spec_for_end(pos)
                } else if word == "break"@ {
                    if place == Place::Block {
                        Ok(pos + 5)
                    } else {
                        Err(self.spec_fail(pos, pos + 5, pos, crate::grammar::Flaw::Syntax))
                    }
                } else if word == "return"@ {
                    match self.spec_return_end(pos) {
                        Err(f) => Err(f),
                        Ok(end) => if place == Place::Program {
                            Err(self.spec_fail(pos, end, pos, crate::grammar::Flaw::Syntax))
                        } else {
                            Ok(end)
                        },
                    }
                } else if word == "let"@ {
                    self.spec_init_end(pos)
                } else {
                    self.spec_plain_end(pos)
                }
            }),
    {
        reveal(Grammar::spec_statement_end);
        reveal(Grammar::spec_branch_end);
        reveal(Grammar::spec_for_end);
        reveal(Grammar::spec_guarded_end);
    }

    /// A `for` loop that stands in the text as the grammar says is one that
    /// the text is accepted with.
    pub proof fn lemma_for(
        &self,
        pos: int,
        for_loop: ForLoop,
        private_access_typeid: Option<usize>,
        end: int,
    )
        requires
            0 <= pos,
            self.spec_for_at(pos, for_loop, private_access_typeid) == Some(end),
        ensures
            self.spec_for_end(pos) == Ok::<int, Failure>(end),
            pos < end <= self.text.len(),
        decreases self.text.len() - pos, 0int, 0int,
    {
        reveal(Grammar::spec_for_end);
        reveal(Grammar::spec_guarded_end);
        match crate::grammar::spec_word(self.text, pos + 3) {
            Some((alias_start, alias_end)) => {
                match crate::grammar::spec_word(self.text, alias_end) {
                    Some((in_start, in_end)) => {
                        let operand = spec_skip_blanks(self.text, in_end);
                        self.lemma_guarded(
                            operand,
                            &for_loop.operand,
                            for_loop.body@,
                            private_access_typeid,
                            end,
                        );
                    },
                    None => {},
                }
            },
            None => {},
        }
    }

    /// A conditional that stands in the text as the grammar says is one
    /// that the text is accepted with.
    pub proof fn lemma_branch(
        &self,
        pos: int,
        branch: Branch,
        private_access_typeid: Option<usize>,
        end: int,
    )
        requires
            0 <= pos,
            self.spec_branch_at(pos, branch, private_access_typeid) == Some(end),
        ensures
            self.spec_branch_end(pos) == Ok::<int, Failure>(end),
            pos < end <= self.text.len(),
        decreases self.text.len() - pos, 0int, 0int,
    {
        reveal(Grammar::spec_branch_end);
        reveal(Grammar::spec_else_end);
        reveal(Grammar::spec_guarded_end);
        reveal(Grammar::spec_body_end);
        reveal_strlit("else");
        reveal_strlit("if");
        let first_end = match self.spec_guarded_at(
            pos + 2,
            &branch.main_branch.condition,
            branch.main_branch.body@,
            private_access_typeid,
        ) {
            Some(first_end) => first_end,
            None => 0,
        };
        self.lemma_guarded(
            pos + 2,
            &branch.main_branch.condition,
            branch.main_branch.body@,
            private_access_typeid,
            first_end,
        );
        let n = branch.else_if_branches@.len() as int;
        self.lemma_else_ifs(first_end, branch.else_if_branches@, n, private_access_typeid);
        let last = match self.spec_else_ifs(
            first_end,
            branch.else_if_branches@,
            n,
            private_access_typeid,
        ) {
            Some(last) => last,
            None => 0,
        };
        lemma_skip_blanks(self.text, last);
        let p = spec_skip_blanks(self.text, last);
        if spec_word_at(self.text, p) == "else"@ {
            lemma_word_end_bounds(self.text, p);
            lemma_skip_blanks(self.text, p + 4);
            let q = spec_skip_blanks(self.text, p + 4);
            lemma_skip_blanks(self.text, q);
            let open = spec_skip_blanks(self.text, q) + 1;
            self.lemma_block(open, branch.else_branch@, private_access_typeid, Place::Block, end);
        }
    }

    /// Where the `n`-th `else if` of a conditional ends as the grammar says,
    /// the conditional is accepted exactly where its rest from there is.
    pub proof fn lemma_else_ifs(
        &self,
        pos: int,
        branches: Seq<BranchBody>,
        n: int,
        private_access_typeid: Option<usize>,
    )
        requires
            0 <= pos <= self.text.len(),
            self.spec_else_ifs(pos, branches, n, private_access_typeid) is Some,
        ensures
            self.spec_else_ifs(pos, branches, n, private_access_typeid) matches Some(end) && pos
                <= end <= self.text.len() && self.spec_else_end(pos) == self.spec_else_end(end),
        decreases self.text.len() - pos, 6int, n,
    {
        reveal(Grammar::spec_else_end);
        reveal(Grammar::spec_guarded_end);
        reveal_strlit("else");
        reveal_strlit("if");
        if n > 0 {
            self.lemma_else_ifs(pos, branches, n - 1, private_access_typeid);
            let before = match self.spec_else_ifs(pos, branches, n - 1, private_access_typeid) {
                Some(before) => before,
                None => 0,
            };
            lemma_skip_blanks(self.text, before);
            let p = spec_skip_blanks(self.text, before);
            lemma_word_end_bounds(self.text, p);
            lemma_skip_blanks(self.text, p + 4);
            let q = spec_skip_blanks(self.text, p + 4);
            lemma_word_end_bounds(self.text, q);
            let end = match self.spec_else_ifs(pos, branches, n, private_access_typeid) {
                Some(end) => end,
                None => 0,
            };
            self.lemma_guarded(
                q + 2,
                &branches[n - 1].condition,
                branches[n - 1].body@,
                private_access_typeid,
                end,
            );
        }
    }

    /// A condition with its block that stands in the text as the grammar
    /// says is one that the text is accepted with.
    pub proof fn lemma_guarded(
        &self,
        pos: int,
        condition: &Expression,
        body: Seq<Instruction>,
        private_access_typeid: Option<usize>,
        end: int,
    )
        requires
            0 <= pos,
            self.spec_guarded_at(pos, condition, body, private_access_typeid) == Some(end),
        ensures
            self.spec_guarded_end(pos) == Ok::<int, Failure>(end),
            pos < end <= self.text.len(),
        decreases self.text.len() - pos, 5int, 0int,
    {
        reveal(Grammar::spec_guarded_end);
        reveal(Grammar::spec_body_end);
        let after = match self.spec_expression_at(pos, condition, private_access_typeid) {
            Some(after) => after,
            None => 0,
        };
        self.lemma_expression(pos, condition, private_access_typeid, None, after);
        lemma_skip_blanks(self.text, after);
        let open = spec_skip_blanks(self.text, after) + 1;
        self.lemma_block(open, body, private_access_typeid, Place::Block, end);
    }

    /// A block that stands in the text as the grammar says is a block that
    /// the text is accepted with.
    pub proof fn lemma_block(
        &self,
        pos: int,
        body: Seq<Instruction>,
        private_access_typeid: Option<usize>,
        place: Place,
        end: int,
    )
        requires
            0 <= pos <= self.text.len(),
            self.spec_block_at(pos, body, private_access_typeid, place) == Some(end),
        ensures
            self.spec_body_end(pos, place) == Ok::<int, Failure>(end),
            pos < end <= self.text.len(),
        decreases self.text.len() - pos, 4int, 0int,
    {
        reveal(Grammar::spec_body_end);
        self.lemma_statements(pos, body, body.len() as int, private_access_typeid, place);
        let at = match self.spec_statements(
            pos,
            body,
            body.len() as int,
            private_access_typeid,
            place,
        ) {
            Some(at) => at,
            None => 0,
        };
        crate::grammar::lemma_skip_separators(self.text, at);
    }

    /// Where the `n`-th statement of a block ends as the grammar says, the
    /// block is accepted exactly where its rest from there is.
    pub proof fn lemma_statements(
        &self,
        pos: int,
        statements: Seq<Instruction>,
        n: int,
        private_access_typeid: Option<usize>,
        place: Place,
    )
        requires
            0 <= pos <= self.text.len(),
            self.spec_statements(pos, statements, n, private_access_typeid, place) is Some,
        ensures
            self.spec_statements(pos, statements, n, private_access_typeid, place) matches Some(
                at,
            ) && pos <= at <= self.text.len() && self.spec_body_end(pos, place)
                == self.spec_body_end(at, place),
        decreases self.text.len() - pos, 3int, n,
    {
        reveal(Grammar::spec_body_end);
        reveal(Grammar::spec_statement_end);
        reveal(Grammar::spec_statement_at);
        if n > 0 {
            self.lemma_statements(pos, statements, n - 1, private_access_typeid, place);
            let before = match self.spec_statements(
                pos,
                statements,
                n - 1,
                private_access_typeid,
                place,
            ) {
                Some(before) => before,
                None => 0,
            };
            crate::grammar::lemma_skip_separators(self.text, before);
            let s = crate::grammar::spec_skip_separators(self.text, before);
            let at = match self.spec_statements(pos, statements, n, private_access_typeid, place) {
                Some(at) => at,
                None => 0,
            };
            self.lemma_statement(s, statements[n - 1], private_access_typeid, place, at);
        }
    }
}

} // verus!

verus! {

/// The names of the properties given.
pub open spec fn spec_names(properties: Seq<PropertyDefinition>) -> Set<Seq<char>> {
    Set::new(
        |name: Seq<char>|
            exists|i: int| 0 <= i < properties.len() && (#[trigger] properties[i]).id.name@ == name,
    )
}

/// A run of blanks, commas and the word `self` ends inside the text or at
/// its end, at a character that is none of these.
pub proof fn lemma_gap_stops(text: Seq<char>, at: int, with_self: bool)
    requires
        0 <= at <= text.len(),
    ensures
        at <= spec_gap(text, at, with_self) <= text.len(),
        spec_skip_blanks(text, spec_gap(text, at, with_self)) == spec_gap(text, at, with_self),
        spec_gap(text, at, with_self) < text.len() ==> text[spec_gap(text, at, with_self)] != ','
            && !(with_self && spec_word_at(text, spec_gap(text, at, with_self)) == "self"@),
    decreases text.len() - at,
{
    reveal_strlit("self");
    lemma_skip_blanks(text, at);
    let p = spec_skip_blanks(text, at);
    if p < text.len() {
        lemma_word_end_bounds(text, p);
        if text[p] == ',' {
            lemma_gap_stops(text, p + 1, with_self);
        } else if with_self && spec_word_at(text, p) == "self"@ {
            assert(spec_word_at(text, p).len() == spec_word_end(text, p) - p);
            lemma_gap_stops(text, p + 4, with_self);
        }
    }
}

impl Grammar {
    /// A name that the text is accepted with ends behind its start, inside
    /// the text.
    pub proof fn lemma_identifier_end_bounds(&self, pos: int, construct: int)
        requires
            0 <= pos <= self.text.len(),
        ensures
            self.spec_identifier_end(pos, construct) matches Ok((start, end, _)) ==> pos <= start
                < end <= self.text.len(),
    {
        lemma_skip_blanks(self.text, pos);
        let start = spec_skip_blanks(self.text, pos);
        lemma_word_end_bounds(self.text, start);
        let name_end = spec_word_end(self.text, start);
        lemma_skip_blanks(self.text, name_end);
        let p = spec_skip_blanks(self.text, name_end);
        if p < self.text.len() {
            lemma_skip_blanks(self.text, p + 1);
            lemma_word_end_bounds(self.text, spec_skip_blanks(self.text, p + 1));
        }
    }

    /// Parameters are accepted from a place on exactly where they are from
    /// behind the blanks, the commas and the word `self` that stand there.
    pub proof fn lemma_gap(&self, at: int, construct: int, with_self: bool, is_method: bool)
        requires
            0 <= at <= self.text.len(),
            with_self && spec_gap_self(self.text, at) ==> is_method,
        ensures
            self.spec_parameters_close(at, construct, with_self, is_method)
                == self.spec_parameters_close(
                spec_gap(self.text, at, with_self),
                construct,
                with_self,
                is_method,
            ),
        decreases self.text.len() - at,
    {
        reveal(Grammar::spec_parameters_close);
        reveal_strlit("self");
        let text = self.text;
        lemma_skip_blanks(text, at);
        let p = spec_skip_blanks(text, at);
        if p < text.len() {
            lemma_word_end_bounds(text, p);
            if text[p] == ',' {
                self.lemma_gap(p + 1, construct, with_self, is_method);
            } else if with_self && spec_word_at(text, p) == "self"@ {
                assert(spec_word_at(text, p).len() == spec_word_end(text, p) - p);
                self.lemma_gap(p + 4, construct, with_self, is_method);
            } else {
                self.lemma_identifier_end_bounds(p, construct);
            }
        } else {
            self.lemma_identifier_end_bounds(p, construct);
        }
    }

    /// Where the `n`-th parameter ends as the grammar says, the parameters
    /// are accepted exactly where the parameters behind it are.
    pub proof fn lemma_parameters(
        &self,
        pos: int,
        construct: int,
        parameters: Seq<AnnotatedIdentifier>,
        n: int,
        with_self: bool,
        is_method: bool,
    )
        requires
            0 <= pos <= self.text.len(),
            self.spec_parameters(pos, parameters, n, with_self) matches Some((_, uses_self)) && (
            uses_self ==> is_method),
        ensures
            self.spec_parameters(pos, parameters, n, with_self) matches Some((end, _)) && pos <= end
                <= self.text.len() && self.spec_parameters_close(
                pos,
                construct,
                with_self,
                is_method,
            ) == self.spec_parameters_close(end, construct, with_self, is_method),
        decreases n,
    {
        reveal(Grammar::spec_parameters_close);
        reveal_strlit("self");
        if n > 0 {
            self.lemma_parameters(pos, construct, parameters, n - 1, with_self, is_method);
            let at = match self.spec_parameters(pos, parameters, n - 1, with_self) {
                Some((at, _)) => at,
                None => 0,
            };
            self.lemma_gap(at, construct, with_self, is_method);
            lemma_gap_stops(self.text, at, with_self);
            let p = spec_gap(self.text, at, with_self);
            self.lemma_identifier(
                p,
                construct,
                parameters[n - 1].name@,
                Some(parameters[n - 1].typeid),
            );
        }
    }

    /// A list of parameters that stands in the text as the grammar says is
    /// one that the text is accepted with.
    pub proof fn lemma_parameter_list(
        &self,
        pos: int,
        construct: int,
        parameters: Seq<AnnotatedIdentifier>,
        with_self: bool,
        is_method: bool,
    )
        requires
            0 <= pos <= self.text.len(),
            self.spec_parameter_list(pos, parameters, with_self) matches Some((_, uses_self)) && (
            uses_self ==> is_method),
        ensures
            self.spec_parameter_list(pos, parameters, with_self) matches Some((after, _)) && pos
                < after <= self.text.len() && self.spec_parameters_close(
                pos,
                construct,
                with_self,
                is_method,
            ) == Ok::<int, Failure>(after),
    {
        reveal(Grammar::spec_parameters_close);
        self.lemma_parameters(
            pos,
            construct,
            parameters,
            parameters.len() as int,
            with_self,
            is_method,
        );
        let at = match self.spec_parameters(pos, parameters, parameters.len() as int, with_self) {
            Some((at, _)) => at,
            None => 0,
        };
        self.lemma_gap(at, construct, with_self, is_method);
        lemma_gap_stops(self.text, at, with_self);
    }

    /// A function that is defined in the text as the grammar says is one
    /// that the text is accepted with.
    pub proof fn lemma_function(
        &self,
        pos: int,
        name: Seq<char>,
        uses_self: bool,
        function: UserFunction,
        is_method: bool,
        private_access_typeid: Option<usize>,
        end: int,
    )
        requires
            0 <= pos,
            self.spec_function_at(
                pos,
                name,
                uses_self,
                function,
                is_method,
                private_access_typeid,
            ) == Some(end),
        ensures
            self.spec_function_end(pos, is_method) matches Ok((name_start, name_end, _, e)) && e
                == end && name == self.text.subrange(name_start, name_end),
            pos < end <= self.text.len(),
    {
        reveal(Grammar::spec_function_at);
        reveal(Grammar::spec_function_end);
        reveal_strlit("->");
        let text = self.text;
        match crate::grammar::spec_word(text, pos + 2) {
            Some((name_start, name_end)) => {
                lemma_skip_blanks(text, pos + 2);
                lemma_word_end_bounds(text, name_start);
                lemma_skip_blanks(text, name_end);
                let open = spec_skip_blanks(text, name_end) + 1;
                self.lemma_parameter_list(open, pos, function.arguments@, true, is_method);
                let after = match self.spec_parameter_list(open, function.arguments@, true) {
                    Some((after, _)) => after,
                    None => 0,
                };
                lemma_skip_blanks(text, after);
                let p = spec_skip_blanks(text, after);
                if spec_looking_at(text, p, "->"@) {
                    lemma_skip_blanks(text, p + 2);
                    lemma_word_end_bounds(text, spec_skip_blanks(text, p + 2));
                }
                let signature_end = match self.spec_return_type(after) {
                    Some((_, signature_end)) => signature_end,
                    None => 0,
                };
                lemma_skip_blanks(text, signature_end);
                let body = spec_skip_blanks(text, signature_end) + 1;
                self.lemma_block(
                    body,
                    function.body@,
                    private_access_typeid,
                    Place::Function,
                    end,
                );
            },
            None => {},
        }
    }

    /// A property that stands in the text as the grammar says, under a name
    /// that no property before it has, is one that the text is accepted
    /// with.
    pub proof fn lemma_property(
        &self,
        start: int,
        at: int,
        property: PropertyDefinition,
        typeid: usize,
        names: Set<Seq<char>>,
        end: int,
    )
        requires
            0 <= start <= at <= self.text.len(),
            self.spec_property_at(start, at, property, typeid) == Some(end),
            !names.contains(property.id.name@),
        ensures
            self.spec_property_end(start, at, typeid, names) matches Ok((name_start, e)) && e
                == end && spec_word_at(self.text, name_start) == property.id.name@,
            at < end <= self.text.len(),
    {
        reveal(Grammar::spec_property_end);
        self.lemma_identifier(at, start, property.id.name@, Some(property.id.typeid));
        let id_end = match self.spec_identifier_at(
            at,
            property.id.name@,
            Some(property.id.typeid),
        ) {
            Some((_, id_end)) => id_end,
            None => 0,
        };
        lemma_skip_blanks(self.text, id_end);
        let after = spec_skip_blanks(self.text, id_end) + 1;
        self.lemma_expression(
            after,
            &property.init_expression,
            Some(typeid),
            Some(typeid),
            end,
        );
    }
}

} // verus!

verus! {

impl Grammar {
    /// Without the word `self` among them, parameters do not show it.
    pub proof fn lemma_no_self(&self, pos: int, parameters: Seq<AnnotatedIdentifier>, n: int)
        ensures
            self.spec_parameters(pos, parameters, n, false) matches Some((_, uses_self))
                ==> !uses_self,
        decreases n,
    {
        if n > 0 {
            self.lemma_no_self(pos, parameters, n - 1);
        }
    }

    /// Where the `n`-th member of a class ends as the grammar says, the
    /// body of the class is accepted exactly where its rest from there is,
    /// behind the members before.
    pub proof fn lemma_members_list(&self, pos: int, members: Seq<Member>, n: int, typeid: usize)
        requires
            0 <= pos <= self.text.len(),
            self.spec_members(pos, members, n, typeid) is Some,
        ensures
            self.spec_members(pos, members, n, typeid) matches Some(at) && pos <= at
                <= self.text.len() && self.spec_members_close(
                pos,
                typeid,
                Set::empty(),
                Set::empty(),
            ) == self.spec_members_close(
                at,
                typeid,
                spec_names(spec_properties(members, n)),
                spec_methods(members, n).dom(),
            ),
        decreases n,
    {
        reveal(Grammar::spec_members_close);
        reveal_strlit("pub");
        reveal_strlit("fn");
        if n <= 0 {
            assert(spec_names(spec_properties(members, n)) =~= Set::<Seq<char>>::empty());
            assert(spec_methods(members, n).dom() =~= Set::<Seq<char>>::empty());
        } else {
            self.lemma_members_list(pos, members, n - 1, typeid);
            let before = match self.spec_members(pos, members, n - 1, typeid) {
                Some(before) => before,
                None => 0,
            };
            let at = match self.spec_members(pos, members, n, typeid) {
                Some(at) => at,
                None => 0,
            };
            let properties = spec_properties(members, n - 1);
            let methods = spec_methods(members, n - 1);
            crate::grammar::lemma_skip_separators(self.text, before);
            let start = crate::grammar::spec_skip_separators(self.text, before);
            lemma_word_end_bounds(self.text, start);
            let is_public = spec_word_at(self.text, start) == "pub"@;
            if is_public {
                assert(spec_word_at(self.text, start).len() == spec_word_end(self.text, start)
                    - start);
                lemma_skip_blanks(self.text, start + 3);
            }
            let member = if is_public {
                spec_skip_blanks(self.text, start + 3)
            } else {
                start
            };
            match members[n - 1] {
                Member::Function(name, f) => {
                    match f.function {
                        Function::UserFunction(function) => {
                            self.lemma_function(
                                member,
                                name@,
                                f.uses_self,
                                function,
                                true,
                                Some(typeid),
                                at,
                            );
                            assert(spec_methods(members, n).dom() =~= methods.dom().insert(name@));
                            assert(spec_properties(members, n) == properties);
                        },
                        _ => {},
                    }
                },
                Member::Property(property) => {
                    assert(!spec_names(properties).contains(property.id.name@));
                    self.lemma_property(
                        start,
                        member,
                        property,
                        typeid,
                        spec_names(properties),
                        at,
                    );
                    let next = spec_properties(members, n);
                    assert(next == properties.push(property));
                    assert(spec_names(next) =~= spec_names(properties).insert(
                        property.id.name@,
                    )) by {
                        assert forall|name: Seq<char>|
                            spec_names(next).contains(name) == spec_names(properties).insert(
                                property.id.name@,
                            ).contains(name) by {
                            if spec_names(next).contains(name) {
                                let i = choose|i: int|
                                    0 <= i < next.len() && (#[trigger] next[i]).id.name@ == name;
                                if i < properties.len() {
                                    assert(properties[i].id.name@ == name);
                                }
                            }
                            if spec_names(properties).contains(name) {
                                let i = choose|i: int|
                                    0 <= i < properties.len() && (#[trigger] properties[i]).id.name@
                                        == name;
                                assert(next[i].id.name@ == name);
                            }
                            if name == property.id.name@ {
                                assert(next[properties.len() as int].id.name@ == name);
                            }
                        }
                    }
                    assert(spec_methods(members, n) == methods);
                },
            }
        }
    }

    /// A class that is defined in the text as the grammar says is one that
    /// the text is accepted with.
    pub proof fn lemma_class(
        &self,
        pos: int,
        name: Seq<char>,
        class: ClassDefinition,
        members: Seq<Member>,
        typeid: usize,
        end: int,
    )
        requires
            0 <= pos,
            self.spec_class_at(pos, name, class, members, typeid) == Some(end),
        ensures
            self.spec_class_end(pos, typeid) matches Ok((name_start, name_end, e)) && e == end
                && name == self.text.subrange(name_start, name_end),
            pos < end <= self.text.len(),
    {
        reveal(Grammar::spec_class_at);
        reveal(Grammar::spec_members_close);
        let text = self.text;
        let inner = self.spec_with_type(name, typeid);
        let constructor = class.function_definitions@["new"@];
        match (crate::grammar::spec_word(text, pos + 5), constructor.function) {
            (Some((name_start, name_end)), Function::BuiltinFunction(b)) => {
                lemma_skip_blanks(text, pos + 5);
                lemma_word_end_bounds(text, name_start);
                lemma_skip_blanks(text, name_end);
                let a = spec_skip_blanks(text, name_end);
                if a < text.len() && text[a] == '(' {
                    inner.lemma_no_self(a + 1, b.arguments@, b.arguments@.len() as int);
                    inner.lemma_parameter_list(a + 1, name_end, b.arguments@, false, false);
                }
                let after = if a < text.len() && text[a] == '(' {
                    match inner.spec_parameter_list(a + 1, b.arguments@, false) {
                        Some((after, _)) => after,
                        None => 0,
                    }
                } else {
                    a
                };
                lemma_skip_blanks(text, after);
                let open = match self.spec_class_head(pos, name, b.arguments@, typeid) {
                    Some(open) => open,
                    None => 0,
                };
                assert(open == spec_skip_blanks(text, after) + 1);
                inner.lemma_members_list(open, members, members.len() as int, typeid);
                let at = match inner.spec_members(open, members, members.len() as int, typeid) {
                    Some(at) => at,
                    None => 0,
                };
                crate::grammar::lemma_skip_separators(text, at);
            },
            _ => {},
        }
    }

    /// Where the `n`-th item of a program ends as the grammar says, the
    /// program is accepted exactly where its rest from there is, with the
    /// types and the functions of the items before.
    pub proof fn lemma_items(
        &self,
        first: int,
        store: Map<Seq<char>, Function>,
        items: Seq<Item>,
        n: int,
    )
        requires
            0 <= first <= usize::MAX,
            self.spec_items(first, items, n) is Some,
            spec_fresh_functions(store, items),
        ensures
            self.spec_items(first, items, n) matches Some((at, types, next)) && 0 <= at
                <= self.text.len() && first <= next <= usize::MAX && self.spec_program_stands(
                0,
                self.types,
                first as usize,
                store.dom(),
            ) == self.spec_program_stands(
                at,
                types,
                next as usize,
                spec_functions_of(store, items, n).dom(),
            ),
        decreases n,
    {
        reveal(Grammar::spec_program_stands);
        reveal(Grammar::spec_item_at);
        reveal_strlit("class");
        reveal_strlit("fn");
        if n > 0 {
            self.lemma_items(first, store, items, n - 1);
            match self.spec_items(first, items, n - 1) {
                Some((before, types, next)) => {
                    crate::grammar::lemma_skip_separators(self.text, before);
                    let start = crate::grammar::spec_skip_separators(self.text, before);
                    let here = self.spec_with_types(types);
                    let known = spec_functions_of(store, items, n - 1);
                    match self.spec_items(first, items, n) {
                        Some((at, _, _)) => {
                            match items[n - 1] {
                                Item::Class(name, class, members) => {
                                    here.lemma_class(
                                        start,
                                        name@,
                                        class,
                                        members,
                                        next as usize,
                                        at,
                                    );
                                },
                                Item::Function(name, function) => {
                                    here.lemma_function(
                                        start,
                                        name@,
                                        false,
                                        function,
                                        false,
                                        None,
                                        at,
                                    );
                                    assert(!known.contains_key(name@));
                                    assert(spec_functions_of(store, items, n).dom()
                                        =~= known.dom().insert(name@));
                                },
                                Item::Statement(instruction) => {
                                    here.lemma_statement(
                                        start,
                                        instruction,
                                        None,
                                        Place::Program,
                                        at,
                                    );
                                },
                            }
                        },
                        None => {},
                    }
                },
                None => {},
            }
        }
    }

    /// A program that stands in the text as the grammar says, with
    /// functions whose names are new, is a program that the text is
    /// accepted with.
    pub proof fn lemma_program(
        &self,
        first: int,
        store: Map<Seq<char>, Function>,
        items: Seq<Item>,
    )
        requires
            0 <= first <= usize::MAX,
            self.spec_program(first, items),
            spec_fresh_functions(store, items),
        ensures
            self.spec_program_stands(0, self.types, first as usize, store.dom()) is Ok,
    {
        reveal(Grammar::spec_program_stands);
        self.lemma_items(first, store, items, items.len() as int);
        match self.spec_items(first, items, items.len() as int) {
            Some((at, _, _)) => {
                crate::grammar::lemma_skip_separators(self.text, at);
            },
            None => {},
        }
    }
}

} // verus!
