//! The grammar of the language, as relations between source text and the
//! instruction tree.

use vstd::prelude::*;
use crate::branch::{Branch, BranchBody};
use crate::error::{Context, Error, ErrorKind};
use crate::expression::{spec_postfix, Expression};
use crate::for_loop::ForLoop;
use crate::builtin::{Builtin, TYPEID_DYN, TYPEID_NONE};
use crate::class::{ClassDefinition, ClassFunction, PropertyDefinition};
use crate::function::{Function, FunctionCall, Return, UserFunction};
use crate::instruction::{Instruction, VariableAssign, VariableInit};
use crate::parser::{
    Place, spec_binary_operator_at, spec_digits_end, spec_is_blank, spec_is_digit, spec_is_keyword,
    spec_clamp, spec_line_column, spec_line_end, spec_line_start, spec_looking_at, spec_minus, spec_plus, spec_skip_blanks,
    spec_unary_operator_at, spec_unescape, spec_word_at, spec_word_end,
};
use crate::session::ParseSession;
use crate::token::{Literal, Operator, Parenthesis, Token, TokenKind};
use crate::variable::{AnnotatedIdentifier, OptionallyAnnotatedIdentifier};

verus! {

/// What lowering reads, as plain values: the text, where it starts in the
/// source buffer, the whole buffer, and the type-id of every type that is
/// known by name. The grammar is stated over these.
pub struct Grammar {
    pub offset: usize,
    pub text: Seq<char>,
    pub source: Seq<char>,
    pub types: Map<Seq<char>, usize>,
}

/// Skipping blanks leads forwards to a character that is no blank, or to
/// the end of the text; from there, skipping blanks leads nowhere else.
pub proof fn lemma_skip_blanks(text: Seq<char>, pos: int)
    requires
        0 <= pos <= text.len(),
    ensures
        pos <= spec_skip_blanks(text, pos) <= text.len(),
        spec_skip_blanks(text, pos) < text.len() ==> !spec_is_blank(
            text[spec_skip_blanks(text, pos)],
        ),
        spec_skip_blanks(text, spec_skip_blanks(text, pos)) == spec_skip_blanks(text, pos),
        forall|k: int|
            pos <= k <= spec_skip_blanks(text, pos) ==> #[trigger] spec_skip_blanks(text, k)
                == spec_skip_blanks(text, pos),
    decreases text.len() - pos,
{
    if pos < text.len() && spec_is_blank(text[pos]) {
        lemma_skip_blanks(text, pos + 1);
    }
}

/// What an expression expects next, read from left to right: an operand,
/// the name or call behind a `.`, or an operator.
#[derive(Debug, Clone, Copy, PartialEq, Eq, Structural)]
pub enum Expect {
    Operand,
    Member,
    Operator,
}

impl Grammar {
    /// Character index `pos` of this text as an index of the source buffer.
    pub open spec fn spec_global(&self, pos: int) -> usize {
        spec_plus(self.offset as int, pos) as usize
    }

    /// Whether a name may be used as an identifier.
    pub open spec fn spec_valid_identifier(&self, name: Seq<char>) -> bool {
        !spec_is_keyword(name) && !self.types.contains_key(name)
    }

    /// Where the string literal whose inside starts at `pos` is closed: at
    /// the first `"` that no backslash escapes, or at the end of the text.
    pub open spec fn spec_string_end(&self, pos: int) -> int
        decreases self.text.len() - pos,
    {
        if pos < 0 || pos >= self.text.len() {
            self.text.len() as int
        } else if self.text[pos] == '"' {
            pos
        } else if self.text[pos] == '\\' && pos + 1 < self.text.len() {
            self.spec_string_end(pos + 2)
        } else {
            self.spec_string_end(pos + 1)
        }
    }

    /// Whether a number that starts at `pos` has a fraction: a `.` behind
    /// its digits, and a digit behind that.
    pub open spec fn spec_has_fraction(&self, pos: int) -> bool {
        let whole = spec_digits_end(self.text, pos);
        whole + 1 < self.text.len() && self.text[whole] == '.' && spec_is_digit(
            self.text[whole + 1],
        )
    }

    /// Whether no call starts with the word that ends at `end`: neither
    /// `::` nor `(` follows it.
    pub open spec fn spec_no_call(&self, end: int) -> bool {
        let q = spec_skip_blanks(self.text, end);
        !spec_looking_at(self.text, q, "::"@) && !(q < self.text.len() && self.text[q] == '(')
    }

    /// Whether `token` is the literal written at `p`; gives where it ends.
    pub open spec fn spec_literal_at(&self, p: int, literal: Literal) -> Option<int> {
        let text = self.text;
        if p < 0 || p >= text.len() {
            None
        } else if spec_is_digit(text[p]) {
            let whole = spec_digits_end(text, p);
            if self.spec_has_fraction(p) {
                let end = spec_digits_end(text, whole + 1);
                if literal matches Literal::Float(t) && t@ == text.subrange(p, end) {
                    Some(end)
                } else {
                    None
                }
            } else {
                match crate::text::spec_parse_int(text.subrange(p, whole)) {
                    Ok(i) => if literal == Literal::Int(i) {
                        Some(whole)
                    } else {
                        None
                    },
                    Err(_) => if literal matches Literal::Float(t) && t@ == text.subrange(p, whole) {
                        Some(whole)
                    } else {
                        None
                    },
                }
            }
        } else if text[p] == '"' {
            let close = self.spec_string_end(p + 1);
            if close < text.len() && (literal matches Literal::Str(s) && s@ == spec_unescape(
                text.subrange(p + 1, close),
            )) {
                Some(close + 1)
            } else {
                None
            }
        } else if spec_word_at(text, p) == "true"@ {
            if literal == Literal::Bool(true) {
                Some(spec_word_end(text, p))
            } else {
                None
            }
        } else if spec_word_at(text, p) == "false"@ {
            if literal == Literal::Bool(false) {
                Some(spec_word_end(text, p))
            } else {
                None
            }
        } else if spec_word_at(text, p) == "none"@ {
            if literal is Nil {
                Some(spec_word_end(text, p))
            } else {
                None
            }
        } else {
            None
        }
    }

    /// Whether a literal word stands at `p`: `true`, `false` or `none`.
    pub open spec fn spec_literal_word(&self, p: int) -> bool {
        let word = spec_word_at(self.text, p);
        word == "true"@ || word == "false"@ || word == "none"@
    }

    /// Whether a word that can name something starts at `p`: it is not
    /// empty and does not start with a digit.
    pub open spec fn spec_name_starts(&self, p: int) -> bool {
        0 <= p < self.text.len() && spec_word_end(self.text, p) > p && !spec_is_digit(
            self.text[p],
        )
    }
}

} // verus!

verus! {

impl Grammar {
    /// Every position of this text is a position of the source buffer that
    /// an index can hold.
    pub open spec fn spec_fits(&self) -> bool {
        self.offset + self.text.len() <= usize::MAX
    }

    /// The span `[start, end)` of this text as a span of the source buffer.
    pub open spec fn spec_context(&self, start: usize, end: usize) -> Context {
        Context {
            start: spec_plus(self.offset as int, start as int) as usize,
            end: spec_plus(self.offset as int, end as int) as usize,
        }
    }

    /// The state behind the tokens depends on no token behind them.
    pub proof fn lemma_scan_prefix(
        &self,
        start: int,
        a: Seq<Token>,
        b: Seq<Token>,
        k: int,
        private_access_typeid: Option<usize>,
    )
        requires
            0 <= k <= a.len(),
            k <= b.len(),
            forall|i: int| 0 <= i < k ==> a[i] == b[i],
        ensures
            self.spec_scan(start, a, k, private_access_typeid) == self.spec_scan(
                start,
                b,
                k,
                private_access_typeid,
            ),
        decreases k,
    {
        if k > 0 {
            self.lemma_scan_prefix(start, a, b, k - 1, private_access_typeid);
        }
    }

    /// The state behind one more token is the state behind the tokens
    /// before it, advanced by that token.
    pub proof fn lemma_scan_push(
        &self,
        start: int,
        tokens: Seq<Token>,
        token: Token,
        private_access_typeid: Option<usize>,
    )
        ensures
            self.spec_scan(
                start,
                tokens.push(token),
                (tokens.len() + 1) as int,
                private_access_typeid,
            ) == match self.spec_scan(start, tokens, tokens.len() as int, private_access_typeid) {
                None => None,
                Some((cursor, expect, depth)) => if cursor < start || cursor > self.text.len() {
                    None
                } else {
                    self.spec_token_at(cursor, start, expect, depth, token, private_access_typeid)
                },
            },
    {
        self.lemma_scan_prefix(
            start,
            tokens,
            tokens.push(token),
            tokens.len() as int,
            private_access_typeid,
        );
    }

    /// Where an argument starts depends on no argument behind it.
    pub proof fn lemma_argument_prefix(
        &self,
        pos: int,
        a: Seq<Expression>,
        b: Seq<Expression>,
        k: int,
        private_access_typeid: Option<usize>,
    )
        requires
            0 <= k <= a.len(),
            k <= b.len(),
            forall|i: int| 0 <= i < k ==> a[i] == b[i],
        ensures
            self.spec_argument_cursor(pos, a, k, private_access_typeid)
                == self.spec_argument_cursor(pos, b, k, private_access_typeid),
        decreases k,
    {
        if k > 0 {
            self.lemma_argument_prefix(pos, a, b, k - 1, private_access_typeid);
        }
    }

    /// With one more argument, the arguments before it start where they
    /// started.
    pub proof fn lemma_argument_push(
        &self,
        pos: int,
        arguments: Seq<Expression>,
        argument: Expression,
        private_access_typeid: Option<usize>,
    )
        ensures
            self.spec_argument_cursor(
                pos,
                arguments.push(argument),
                arguments.len() as int,
                private_access_typeid,
            ) == self.spec_argument_cursor(
                pos,
                arguments,
                arguments.len() as int,
                private_access_typeid,
            ),
    {
        self.lemma_argument_prefix(
            pos,
            arguments,
            arguments.push(argument),
            arguments.len() as int,
            private_access_typeid,
        );
    }

    /// An expression that holds, in postfix order, the tokens that stand in
    /// the text is the expression written there.
    pub proof fn lemma_expression_at(
        &self,
        pos: int,
        expression: &Expression,
        private_access_typeid: Option<usize>,
        infix: Seq<Token>,
        end: int,
    )
        requires
            pos <= spec_skip_blanks(self.text, pos) <= self.text.len(),
            expression.private_access_typeid == private_access_typeid,
            end == spec_minus(expression.context.end as int, self.offset as int),
            expression.context == self.spec_context(
                spec_skip_blanks(self.text, pos) as usize,
                end as usize,
            ),
            self.spec_infix(spec_skip_blanks(self.text, pos), infix, private_access_typeid)
                == Some(end),
            expression.tokens@ == spec_postfix(infix),
        ensures
            self.spec_expression_at(pos, expression, private_access_typeid) == Some(end),
    {
        assert(expression.tokens@ == spec_postfix(infix));
    }

    /// Whether `call` is the call written at `p`; gives where it ends.
    ///
    /// A call is a name and, in parentheses, its arguments. In the scoped
    /// form the name of a type and `::` stand in front of the name: the type
    /// must be known, and the call holds its type-id with the place of the
    /// `::`. Blanks may stand between the parts.
    pub open spec fn spec_call_at(
        &self,
        p: int,
        call: &FunctionCall,
        private_access_typeid: Option<usize>,
    ) -> Option<int>
        decreases self.text.len() - p, 0int, 0int,
    {
        let text = self.text;
        if !self.spec_name_starts(p) {
            None
        } else {
            let first_end = spec_word_end(text, p);
            let q = spec_skip_blanks(text, first_end);
            let scoped = spec_looking_at(text, q, "::"@);
            let name_start = if scoped {
                spec_skip_blanks(text, q + 2)
            } else {
                p
            };
            let name_end = spec_word_end(text, name_start);
            let open = spec_skip_blanks(text, name_end);
            if name_end <= name_start || open < p || open >= text.len() || text[open] != '(' {
                None
            } else if scoped && !self.types.contains_key(text.subrange(p, first_end)) {
                None
            } else {
                match self.spec_arguments_end(open + 1, call.arguments@, private_access_typeid) {
                    None => None,
                    Some(end) => if call.name@ == text.subrange(name_start, name_end)
                        && call.private_access_typeid == private_access_typeid && call.context
                        == self.spec_context(p as usize, end as usize) && (call.line_col.0 as int,
                        call.line_col.1 as int,
                    ) == spec_line_column(spec_plus(self.offset as int, p), self.source)
                        && call.associated_type == (if scoped {
                        Some((self.types[text.subrange(p, first_end)], (q - p) as usize))
                    } else {
                        None
                    }) && call.name_pos == (if scoped {
                        (name_start - p) as usize
                    } else {
                        0usize
                    }) {
                        Some(end)
                    } else {
                        None
                    },
                }
            }
        }
    }

    /// Where argument `k` of a call starts to be read, the arguments
    /// starting behind the `(` at `pos`: behind the `,` that follows the
    /// argument before it.
    pub open spec fn spec_argument_cursor(
        &self,
        pos: int,
        arguments: Seq<Expression>,
        k: int,
        private_access_typeid: Option<usize>,
    ) -> Option<int>
        decreases self.text.len() - pos, 6int, k,
    {
        let text = self.text;
        if k < 0 || k > arguments.len() || pos < 0 {
            None
        } else if k == 0 {
            Some(pos)
        } else {
            match self.spec_argument_cursor(pos, arguments, k - 1, private_access_typeid) {
                None => None,
                Some(cursor) => if cursor < pos || cursor > text.len() {
                    None
                } else {
                    match self.spec_expression_at(
                        cursor,
                        &arguments[k - 1],
                        private_access_typeid,
                    ) {
                        None => None,
                        Some(end) => {
                            let q = spec_skip_blanks(text, end);
                            if 0 <= q < text.len() && text[q] == ',' {
                                Some(q + 1)
                            } else {
                                None
                            }
                        },
                    }
                },
            }
        }
    }

    /// Where the arguments of a call end, behind the closing `)`, the
    /// arguments starting behind the `(` at `pos`. Arguments are separated
    /// by `,`; a call may have none.
    pub open spec fn spec_arguments_end(
        &self,
        pos: int,
        arguments: Seq<Expression>,
        private_access_typeid: Option<usize>,
    ) -> Option<int>
        decreases self.text.len() - pos, 7int, 0int,
    {
        let text = self.text;
        let first = spec_skip_blanks(text, pos);
        if arguments.len() == 0 {
            if 0 <= first < text.len() && text[first] == ')' {
                Some(first + 1)
            } else {
                None
            }
        } else if 0 <= first < text.len() && text[first] == ')' {
            None
        } else {
            match self.spec_argument_cursor(
                pos,
                arguments,
                arguments.len() - 1,
                private_access_typeid,
            ) {
                None => None,
                Some(cursor) => if cursor < pos || cursor > text.len() {
                    None
                } else {
                    match self.spec_expression_at(
                        cursor,
                        &arguments.last(),
                        private_access_typeid,
                    ) {
                        None => None,
                        Some(end) => {
                            let q = spec_skip_blanks(text, end);
                            if 0 <= q < text.len() && text[q] == ')' {
                                Some(q + 1)
                            } else {
                                None
                            }
                        },
                    }
                },
            }
        }
    }

    /// Whether `expression` is the expression written at or after `pos`;
    /// gives where it ends.
    ///
    /// The expression holds, in postfix order, the tokens that stand in the
    /// text from its first token on ([`Grammar::spec_infix`]); its span
    /// reaches from the first token to the end of the last one.
    pub open spec fn spec_expression_at(
        &self,
        pos: int,
        expression: &Expression,
        private_access_typeid: Option<usize>,
    ) -> Option<int>
        decreases self.text.len() - pos, 5int, 0int,
    {
        let start = spec_skip_blanks(self.text, pos);
        let end = spec_minus(expression.context.end as int, self.offset as int);
        if start < pos || start > self.text.len() || expression.private_access_typeid
            != private_access_typeid
            || expression.context != self.spec_context(start as usize, end as usize) {
            None
        } else if exists|infix: Seq<Token>|
            expression.tokens@ == #[trigger] spec_postfix(infix) && self.spec_infix(
                start,
                infix,
                private_access_typeid,
            ) == Some(end) {
            Some(end)
        } else {
            None
        }
    }

    /// Whether `tokens` are the tokens of the expression whose first token
    /// stands at `start`; gives where the expression ends. The tokens are
    /// read one after the other ([`Grammar::spec_scan`]); the expression ends
    /// behind an operand, with every parenthesis closed, where neither a
    /// `.` nor a binary operator follows.
    pub open spec fn spec_infix(
        &self,
        start: int,
        tokens: Seq<Token>,
        private_access_typeid: Option<usize>,
    ) -> Option<int>
        decreases self.text.len() - start, 4int, 0int,
    {
        match self.spec_scan(start, tokens, tokens.len() as int, private_access_typeid) {
            Some((cursor, Expect::Operator, depth)) => if depth == 0 && !self.spec_goes_on(
                cursor,
            ) {
                Some(cursor)
            } else {
                None
            },
            _ => None,
        }
    }

    /// Whether an expression goes on behind an operand that ends at
    /// `cursor`: a `.` or a binary operator follows.
    pub open spec fn spec_goes_on(&self, cursor: int) -> bool {
        let p = spec_skip_blanks(self.text, cursor);
        (0 <= p < self.text.len() && self.text[p] == '.') || spec_binary_operator_at(
            self.text,
            p,
        ) is Some
    }

    /// The state behind the first `k` tokens of an expression that starts
    /// at `start`: where the text goes on, what is expected there, and how
    /// many parentheses are open. `None` where the tokens are not what the
    /// text holds.
    pub open spec fn spec_scan(
        &self,
        start: int,
        tokens: Seq<Token>,
        k: int,
        private_access_typeid: Option<usize>,
    ) -> Option<(int, Expect, int)>
        decreases self.text.len() - start, 3int, k,
    {
        if k <= 0 || k > tokens.len() {
            if k == 0 {
                Some((start, Expect::Operand, 0int))
            } else {
                None
            }
        } else {
            match self.spec_scan(start, tokens, k - 1, private_access_typeid) {
                None => None,
                Some((cursor, expect, depth)) => if cursor < start || cursor > self.text.len() {
                    None
                } else {
                    self.spec_token_at(
                        cursor,
                        start,
                        expect,
                        depth,
                        tokens[k - 1],
                        private_access_typeid,
                    )
                },
            }
        }
    }

    /// The state behind one token, read where the text goes on at `cursor`
    /// behind blanks. The position of the token is counted from `base`.
    ///
    /// Where an operand is expected, a unary operator or `(` may stand in
    /// front of it. Behind an operand, `.` asks for a name or a call, a
    /// binary operator for another operand, and `)` closes a parenthesis
    /// that is open.
    pub open spec fn spec_token_at(
        &self,
        cursor: int,
        base: int,
        expect: Expect,
        depth: int,
        token: Token,
        private_access_typeid: Option<usize>,
    ) -> Option<(int, Expect, int)>
        decreases self.text.len() - cursor, 2int, 0int,
    {
        let text = self.text;
        let p = spec_skip_blanks(text, cursor);
        if p < cursor || p >= text.len() || token.pos != spec_minus(p, base) {
            None
        } else {
            match expect {
                Expect::Operator => match token.kind {
                    TokenKind::Operator(Operator::Dot) => if text[p] == '.' {
                        Some((p + 1, Expect::Member, depth))
                    } else {
                        None
                    },
                    TokenKind::Operator(op) => match spec_binary_operator_at(text, p) {
                        Some((found, width)) => if found == op {
                            Some((p + width, Expect::Operand, depth))
                        } else {
                            None
                        },
                        None => None,
                    },
                    TokenKind::Parenthesis(Parenthesis::Right) => if depth > 0 && text[p] == ')' {
                        Some((p + 1, Expect::Operator, depth - 1))
                    } else {
                        None
                    },
                    _ => None,
                },
                Expect::Operand => match token.kind {
                    TokenKind::Operator(op) => match spec_unary_operator_at(text, p) {
                        Some((found, width)) => if found == op {
                            Some((p + width, Expect::Operand, depth))
                        } else {
                            None
                        },
                        None => None,
                    },
                    TokenKind::Parenthesis(Parenthesis::Left) => if text[p] == '('
                        && spec_unary_operator_at(text, p) is None {
                        Some((p + 1, Expect::Operand, depth + 1))
                    } else {
                        None
                    },
                    TokenKind::Parenthesis(Parenthesis::Right) => None,
                    _ => if spec_unary_operator_at(text, p) is None {
                        match self.spec_operand_at(p, base, token, true, private_access_typeid) {
                            Some(end) => Some((end, Expect::Operator, depth)),
                            None => None,
                        }
                    } else {
                        None
                    },
                },
                Expect::Member => match self.spec_operand_at(
                    p,
                    base,
                    token,
                    false,
                    private_access_typeid,
                ) {
                    Some(end) => Some((end, Expect::Operator, depth)),
                    None => None,
                },
            }
        }
    }

    /// Whether `token` is the operand written at `p`: a literal, where
    /// `literals` may stand, an identifier or a call; gives where it ends.
    ///
    /// A word is an identifier unless a call starts with it. An identifier
    /// other than `self` must be valid
    /// ([`Grammar::spec_valid_identifier`]).
    pub open spec fn spec_operand_at(
        &self,
        p: int,
        base: int,
        token: Token,
        literals: bool,
        private_access_typeid: Option<usize>,
    ) -> Option<int>
        decreases self.text.len() - p, 1int, 0int,
    {
        let text = self.text;
        match token.kind {
            TokenKind::Value(literal) => if literals {
                self.spec_literal_at(p, literal)
            } else {
                None
            },
            TokenKind::Identifier(name) => if self.spec_name_starts(p) && !(literals
                && self.spec_literal_word(p)) && self.spec_no_call(spec_word_end(text, p))
                && name@ == spec_word_at(text, p) && (name@ == "self"@
                || self.spec_valid_identifier(name@)) {
                Some(spec_word_end(text, p))
            } else {
                None
            },
            TokenKind::FunctionCall(call) => if self.spec_name_starts(p) && !(literals
                && self.spec_literal_word(p)) && !self.spec_no_call(spec_word_end(text, p)) {
                self.spec_call_at(p, &*call, private_access_typeid)
            } else {
                None
            },
            _ => None,
        }
    }
}

} // verus!

verus! {

/// End of the longest run of blanks and `;` that starts at `pos`.
pub open spec fn spec_skip_separators(text: Seq<char>, pos: int) -> int
    decreases text.len() - pos,
{
    if 0 <= pos < text.len() && (spec_is_blank(text[pos]) || text[pos] == ';') {
        spec_skip_separators(text, pos + 1)
    } else {
        pos
    }
}

/// Skipping blanks and `;` leads forwards, to the end of the text or to a
/// character that is neither.
pub proof fn lemma_skip_separators(text: Seq<char>, pos: int)
    requires
        0 <= pos <= text.len(),
    ensures
        pos <= spec_skip_separators(text, pos) <= text.len(),
        spec_skip_separators(text, pos) < text.len() ==> !spec_is_blank(
            text[spec_skip_separators(text, pos)],
        ) && text[spec_skip_separators(text, pos)] != ';',
    decreases text.len() - pos,
{
    if pos < text.len() && (spec_is_blank(text[pos]) || text[pos] == ';') {
        lemma_skip_separators(text, pos + 1);
    }
}

/// Where the character `c` ends that stands at `pos` or behind the blanks
/// there, if it does.
pub open spec fn spec_expect(text: Seq<char>, pos: int, c: char) -> Option<int> {
    let p = spec_skip_blanks(text, pos);
    if 0 <= p < text.len() && text[p] == c {
        Some(p + 1)
    } else {
        None
    }
}

/// Where the word starts and ends that stands at `pos` or behind the blanks
/// there. A word is not empty and does not start with a digit.
pub open spec fn spec_word(text: Seq<char>, pos: int) -> Option<(int, int)> {
    let start = spec_skip_blanks(text, pos);
    let end = spec_word_end(text, start);
    if 0 <= start < text.len() && end > start && !spec_is_digit(text[start]) {
        Some((start, end))
    } else {
        None
    }
}

/// End of the longest run of blanks and commas that starts at `pos`; with
/// `with_self`, the word `self` belongs to the run too.
pub open spec fn spec_gap(text: Seq<char>, pos: int, with_self: bool) -> int
    decreases text.len() - pos,
{
    let p = spec_skip_blanks(text, pos);
    if p < pos || p >= text.len() {
        p
    } else if text[p] == ',' {
        spec_gap(text, p + 1, with_self)
    } else if with_self && spec_word_at(text, p) == "self"@ && p + 4 <= text.len() {
        spec_gap(text, p + 4, with_self)
    } else {
        p
    }
}

/// Whether the word `self` stands in the run of blanks, commas and that word
/// that starts at `pos`.
pub open spec fn spec_gap_self(text: Seq<char>, pos: int) -> bool
    decreases text.len() - pos,
{
    let p = spec_skip_blanks(text, pos);
    if p < pos || p >= text.len() {
        false
    } else if text[p] == ',' {
        spec_gap_self(text, p + 1)
    } else {
        spec_word_at(text, p) == "self"@ && p + 4 <= text.len()
    }
}

impl Grammar {
    /// Whether `id` is the name written at `pos`, and `typeid` the type that
    /// is annotated behind it, if one is; gives where the name starts and
    /// where the whole ends.
    ///
    /// The name is an identifier. An annotation is a `:` that is not the
    /// start of `::`, and the name of a known type behind it.
    pub open spec fn spec_identifier_at(
        &self,
        pos: int,
        id: Seq<char>,
        typeid: Option<usize>,
    ) -> Option<(int, int)> {
        match spec_word(self.text, pos) {
            None => None,
            Some((start, name_end)) => {
                let name = self.text.subrange(start, name_end);
                let p = spec_skip_blanks(self.text, name_end);
                if !self.spec_valid_identifier(name) || id != name {
                    None
                } else if 0 <= p < self.text.len() && self.text[p] == ':' && !spec_looking_at(
                    self.text,
                    p,
                    "::"@,
                ) {
                    match spec_word(self.text, p + 1) {
                        None => None,
                        Some((type_start, type_end)) => {
                            let typename = self.text.subrange(type_start, type_end);
                            if self.types.contains_key(typename) && typeid == Some(
                                self.types[typename],
                            ) {
                                Some((start, type_end))
                            } else {
                                None
                            }
                        },
                    }
                } else if typeid is None {
                    Some((start, name_end))
                } else {
                    None
                }
            },
        }
    }

    /// Where the `n`-th of the names ends that stand, with commas between
    /// them, from `pos` on.
    pub open spec fn spec_identifiers_end(
        &self,
        pos: int,
        ids: Seq<OptionallyAnnotatedIdentifier>,
        n: int,
    ) -> Option<int>
        decreases n,
    {
        if n <= 0 || n > ids.len() {
            None
        } else {
            let at = if n == 1 {
                Some(pos)
            } else {
                match self.spec_identifiers_end(pos, ids, n - 1) {
                    None => None,
                    Some(end) => spec_expect(self.text, end, ','),
                }
            };
            match at {
                None => None,
                Some(a) => match self.spec_identifier_at(a, ids[n - 1].name@, ids[n - 1].typeid) {
                    None => None,
                    Some((_, end)) => Some(end),
                },
            }
        }
    }

    /// Where a name ends depends on no name behind it.
    pub proof fn lemma_identifiers_prefix(
        &self,
        pos: int,
        a: Seq<OptionallyAnnotatedIdentifier>,
        b: Seq<OptionallyAnnotatedIdentifier>,
        k: int,
    )
        requires
            k <= a.len(),
            k <= b.len(),
            forall|i: int| 0 <= i < k ==> a[i] == b[i],
        ensures
            self.spec_identifiers_end(pos, a, k) == self.spec_identifiers_end(pos, b, k),
        decreases k,
    {
        if k > 1 {
            self.lemma_identifiers_prefix(pos, a, b, k - 1);
        }
    }

    /// Whether `init` is the declaration written at `pos`, where `let`
    /// stands; gives where it ends.
    ///
    /// Behind `let` stand one or more names, `=` and an expression.
    pub open spec fn spec_init_at(
        &self,
        pos: int,
        init: VariableInit,
        private_access_typeid: Option<usize>,
    ) -> Option<int> {
        match self.spec_identifiers_end(
            pos + 3,
            init.identifiers@,
            init.identifiers@.len() as int,
        ) {
            None => None,
            Some(at) => match spec_expect(self.text, at, '=') {
                None => None,
                Some(after_assign) => match self.spec_expression_at(
                    after_assign,
                    &init.expr,
                    private_access_typeid,
                ) {
                    None => None,
                    Some(end) => if init.assign_pos == after_assign - 1 - pos && init.context
                        == self.spec_context(pos as usize, end as usize) {
                        Some(end)
                    } else {
                        None
                    },
                },
            },
        }
    }

    /// Whether `ret` is the `return` written at `pos`; gives where it ends.
    ///
    /// Behind `return` stands an expression, unless the text, a `;` or a
    /// `}` comes first.
    pub open spec fn spec_return_at(
        &self,
        pos: int,
        ret: Return,
        private_access_typeid: Option<usize>,
    ) -> Option<int> {
        let p = spec_skip_blanks(self.text, pos + 6);
        if p < 0 || p >= self.text.len() || self.text[p] == ';' || self.text[p] == '}' {
            if ret.expr is None && ret.context == self.spec_context(
                pos as usize,
                (pos + 6) as usize,
            ) {
                Some(pos + 6)
            } else {
                None
            }
        } else {
            match ret.expr {
                None => None,
                Some(expr) => match self.spec_expression_at(p, &expr, private_access_typeid) {
                    None => None,
                    Some(end) => if ret.context == self.spec_context(pos as usize, end as usize) {
                        Some(end)
                    } else {
                        None
                    },
                },
            }
        }
    }

    /// Whether the tokens `infix`, which stand from `pos` on, are the
    /// target of `assign`: its last token is the name that is assigned to;
    /// where tokens stand before it, the last of them is a `.`, and those
    /// before that are the expression whose property is assigned to.
    pub open spec fn spec_target(
        &self,
        pos: int,
        infix: Seq<Token>,
        assign: VariableAssign,
        private_access_typeid: Option<usize>,
    ) -> bool {
        &&& infix.len() >= 1
        &&& infix.last().pos == assign.id_pos
        &&& infix.last().kind matches TokenKind::Identifier(name) && name@ == assign.identifier@
        &&& if infix.len() == 1 {
            assign.source_expr is None
        } else {
            let dot = infix[infix.len() - 2];
            (dot.kind matches TokenKind::Operator(o) && o == Operator::Dot) && (
            assign.source_expr matches Some((source, dot_pos)) && dot_pos == dot.pos
                && source.tokens@ == spec_postfix(infix.drop_last().drop_last())
                && source.private_access_typeid == private_access_typeid && source.context
                == self.spec_context(pos as usize, spec_plus(pos, dot.pos as int) as usize))
        }
    }

    /// Whether `assign` is the assignment written at `pos`; gives where it
    /// ends.
    ///
    /// An assignment is a target, `=` and an expression. The target is a
    /// chain of members ([`Grammar::spec_chain_stands`]) that ends in a name,
    /// which must be an identifier.
    pub open spec fn spec_assign_at(
        &self,
        pos: int,
        assign: VariableAssign,
        private_access_typeid: Option<usize>,
    ) -> Option<int> {
        let p = pos + assign.assign_pos;
        if p >= self.text.len() || self.text[p] != '=' || assign.private_access_typeid
            != private_access_typeid || !self.spec_valid_identifier(assign.identifier@)
            || !self.spec_chain_stands(pos) {
            None
        } else if !(exists|infix: Seq<Token>| #[trigger]
            self.spec_target(pos, infix, assign, private_access_typeid) && (self.spec_infix(
                pos,
                infix,
                private_access_typeid,
            ) matches Some(target_end) && spec_skip_blanks(self.text, target_end) == p)) {
            None
        } else {
            match self.spec_expression_at(p + 1, &assign.expr, private_access_typeid) {
                None => None,
                Some(end) => if assign.context == self.spec_context(pos as usize, end as usize) {
                    Some(end)
                } else {
                    None
                },
            }
        }
    }

    /// An assignment whose target holds the tokens that stand in the text
    /// is the assignment written there.
    pub proof fn lemma_assign_at(
        &self,
        pos: int,
        assign: VariableAssign,
        private_access_typeid: Option<usize>,
        infix: Seq<Token>,
        target_end: int,
        end: int,
    )
        requires
            self.spec_target(pos, infix, assign, private_access_typeid),
            self.spec_infix(pos, infix, private_access_typeid) == Some(target_end),
            spec_skip_blanks(self.text, target_end) == pos + assign.assign_pos,
            spec_expect(self.text, target_end, '=') is Some,
            assign.private_access_typeid == private_access_typeid,
            self.spec_valid_identifier(assign.identifier@),
            self.spec_chain_stands(pos),
            self.spec_expression_at(
                pos + assign.assign_pos + 1,
                &assign.expr,
                private_access_typeid,
            ) == Some(end),
            assign.context == self.spec_context(pos as usize, end as usize),
        ensures
            self.spec_assign_at(pos, assign, private_access_typeid) == Some(end),
    {
        assert(self.spec_target(pos, infix, assign, private_access_typeid) && (self.spec_infix(
            pos,
            infix,
            private_access_typeid,
        ) matches Some(e) && spec_skip_blanks(self.text, e) == pos + assign.assign_pos));
    }

    /// Whether `instruction` is the statement written at `pos`, at a place
    /// of the given kind; gives where it ends.
    ///
    /// The word at `pos` decides what stands there: `if`, `while`, `for`,
    /// `break`, `return` and `let` start the statement of that name. Anything
    /// else is an assignment where a single `=` follows the expression that
    /// stands there, and that expression where none does. `break` stands
    /// only inside a block, `return` nowhere at the top of a program.
    #[verifier::opaque]
    pub open spec fn spec_statement_at(
        &self,
        pos: int,
        instruction: Instruction,
        private_access_typeid: Option<usize>,
        place: Place,
    ) -> Option<int>
        decreases self.text.len() - pos, 1int, 0int,
    {
        let word = spec_word_at(self.text, pos);
        if pos < 0 || pos >= self.text.len() || spec_is_blank(self.text[pos]) {
            None
        } else if word == "if"@ {
            match instruction {
                Instruction::Branch(branch) => self.spec_branch_at(
                    pos,
                    branch,
                    private_access_typeid,
                ),
                _ => None,
            }
        } else if word == "while"@ {
            match instruction {
                Instruction::WhileLoop(while_loop) => match if pos + 5 > self.text.len() {
                    None
                } else {
                    self.spec_guarded_at(
                        pos + 5,
                        &while_loop.condition,
                        while_loop.body@,
                        private_access_typeid,
                    )
                } {
                    None => None,
                    Some(end) => if while_loop.context == self.spec_context(
                        pos as usize,
                        end as usize,
                    ) {
                        Some(end)
                    } else {
                        None
                    },
                },
                _ => None,
            }
        } else if word == "for"@ {
            match instruction {
                Instruction::ForLoop(for_loop) => self.spec_for_at(
                    pos,
                    for_loop,
                    private_access_typeid,
                ),
                _ => None,
            }
        } else if word == "break"@ {
            if place == Place::Block && (instruction matches Instruction::Break(b) && b.context
                == self.spec_context(pos as usize, (pos + 5) as usize)) {
                Some(pos + 5)
            } else {
                None
            }
        } else if word == "return"@ {
            match instruction {
                Instruction::Return(ret) => if place == Place::Program {
                    None
                } else {
                    self.spec_return_at(pos, ret, private_access_typeid)
                },
                _ => None,
            }
        } else if word == "let"@ {
            match instruction {
                Instruction::VariableInit(init) => self.spec_init_at(
                    pos,
                    init,
                    private_access_typeid,
                ),
                _ => None,
            }
        } else {
            match instruction {
                Instruction::Expression(expression) => match self.spec_expression_at(
                    pos,
                    &expression,
                    private_access_typeid,
                ) {
                    None => None,
                    Some(end) => if spec_expect(self.text, end, '=') is None {
                        Some(end)
                    } else {
                        None
                    },
                },
                Instruction::VariableAssign(assign) => self.spec_assign_at(
                    pos,
                    assign,
                    private_access_typeid,
                ),
                _ => None,
            }
        }
    }

    /// Where a statement ends that stands behind the statements given.
    pub proof fn lemma_statements_push(
        &self,
        pos: int,
        statements: Seq<Instruction>,
        statement: Instruction,
        private_access_typeid: Option<usize>,
        place: Place,
    )
        ensures
            self.spec_statements(
                pos,
                statements.push(statement),
                (statements.len() + 1) as int,
                private_access_typeid,
                place,
            ) == match self.spec_statements(
                pos,
                statements,
                statements.len() as int,
                private_access_typeid,
                place,
            ) {
                None => None,
                Some(at) => {
                    let s = spec_skip_separators(self.text, at);
                    if s < pos || s >= self.text.len() || self.text[s] == '}' {
                        None
                    } else {
                        self.spec_statement_at(s, statement, private_access_typeid, place)
                    }
                },
            },
    {
        reveal(Grammar::spec_statement_at);
        self.lemma_statements_prefix(
            pos,
            statements,
            statements.push(statement),
            statements.len() as int,
            private_access_typeid,
            place,
        );
    }

    /// Where a statement ends depends on no statement behind it.
    pub proof fn lemma_statements_prefix(
        &self,
        pos: int,
        a: Seq<Instruction>,
        b: Seq<Instruction>,
        k: int,
        private_access_typeid: Option<usize>,
        place: Place,
    )
        requires
            k <= a.len(),
            k <= b.len(),
            forall|i: int| 0 <= i < k ==> a[i] == b[i],
        ensures
            self.spec_statements(pos, a, k, private_access_typeid, place) == self.spec_statements(
                pos,
                b,
                k,
                private_access_typeid,
                place,
            ),
        decreases k,
    {
        if k > 0 {
            self.lemma_statements_prefix(pos, a, b, k - 1, private_access_typeid, place);
        }
    }

    /// Where an `else if` branch ends depends on no branch behind it.
    pub proof fn lemma_else_ifs_prefix(
        &self,
        pos: int,
        a: Seq<BranchBody>,
        b: Seq<BranchBody>,
        k: int,
        private_access_typeid: Option<usize>,
    )
        requires
            k <= a.len(),
            k <= b.len(),
            forall|i: int| 0 <= i < k ==> a[i] == b[i],
        ensures
            self.spec_else_ifs(pos, a, k, private_access_typeid) == self.spec_else_ifs(
                pos,
                b,
                k,
                private_access_typeid,
            ),
        decreases k,
    {
        if k > 0 {
            self.lemma_else_ifs_prefix(pos, a, b, k - 1, private_access_typeid);
        }
    }

    /// Whether `for_loop` is the loop written at `pos`, where `for` stands;
    /// gives where it ends.
    ///
    /// Behind `for` stand the name of the item, the word `in`, the
    /// expression to walk through, and a block.
    pub open spec fn spec_for_at(
        &self,
        pos: int,
        for_loop: ForLoop,
        private_access_typeid: Option<usize>,
    ) -> Option<int>
        decreases self.text.len() - pos, 0int, 0int,
    {
        match spec_word(self.text, pos + 3) {
            None => None,
            Some((alias_start, alias_end)) => match spec_word(self.text, alias_end) {
                None => None,
                Some((in_start, in_end)) => {
                    let operand_start = spec_skip_blanks(self.text, in_end);
                    if for_loop.alias@ != self.text.subrange(alias_start, alias_end)
                        || self.text.subrange(in_start, in_end) != "in"@ || operand_start <= pos
                        || operand_start > self.text.len() || for_loop.operand_pos != operand_start - pos {
                        None
                    } else {
                        match self.spec_guarded_at(
                            operand_start,
                            &for_loop.operand,
                            for_loop.body@,
                            private_access_typeid,
                        ) {
                            None => None,
                            Some(end) => if for_loop.context == self.spec_context(
                                pos as usize,
                                end as usize,
                            ) {
                                Some(end)
                            } else {
                                None
                            },
                        }
                    }
                },
            },
        }
    }

    /// Whether `branch` is the conditional written at `pos`, where `if`
    /// stands; gives where it ends.
    ///
    /// Behind `if` stand a condition and a block; then, any number of times,
    /// `else if` with a condition and a block; then, or not, `else` with a
    /// block.
    pub open spec fn spec_branch_at(
        &self,
        pos: int,
        branch: Branch,
        private_access_typeid: Option<usize>,
    ) -> Option<int>
        decreases self.text.len() - pos, 0int, 0int,
    {
        match if pos + 2 > self.text.len() {
            None
        } else {
            self.spec_guarded_at(
                pos + 2,
                &branch.main_branch.condition,
                branch.main_branch.body@,
                private_access_typeid,
            )
        } {
            None => None,
            Some(first_end) => if first_end <= pos || first_end > self.text.len() {
                None
            } else {
                match self.spec_else_ifs(
                    first_end,
                    branch.else_if_branches@,
                    branch.else_if_branches@.len() as int,
                    private_access_typeid,
                ) {
                    None => None,
                    Some(end) => {
                        let p = spec_skip_blanks(self.text, end);
                        let q = spec_skip_blanks(self.text, p + 4);
                        if spec_word_at(self.text, p) != "else"@ {
                            if branch.else_branch@.len() == 0 && branch.context
                                == self.spec_context(pos as usize, end as usize) {
                                Some(end)
                            } else {
                                None
                            }
                        } else if spec_word_at(self.text, q) == "if"@ {
                            None
                        } else {
                            match spec_expect(self.text, q, '{') {
                                None => None,
                                Some(open) => if open <= pos || open > self.text.len() {
                                    None
                                } else {
                                    match self.spec_block_at(
                                        open,
                                        branch.else_branch@,
                                        private_access_typeid,
                                        Place::Block,
                                    ) {
                                        None => None,
                                        Some(last) => if branch.context == self.spec_context(
                                            pos as usize,
                                            last as usize,
                                        ) {
                                            Some(last)
                                        } else {
                                            None
                                        },
                                    }
                                },
                            }
                        }
                    },
                }
            },
        }
    }

    /// Where the `n`-th of the `else if` branches ends that stand from
    /// `pos` on.
    pub open spec fn spec_else_ifs(
        &self,
        pos: int,
        branches: Seq<BranchBody>,
        n: int,
        private_access_typeid: Option<usize>,
    ) -> Option<int>
        decreases self.text.len() - pos, 6int, n,
    {
        if n < 0 || n > branches.len() {
            None
        } else if n == 0 {
            Some(pos)
        } else {
            match self.spec_else_ifs(pos, branches, n - 1, private_access_typeid) {
                None => None,
                Some(end) => {
                    let p = spec_skip_blanks(self.text, end);
                    let q = spec_skip_blanks(self.text, p + 4);
                    if spec_word_at(self.text, p) != "else"@ || spec_word_at(self.text, q) != "if"@
                        || q + 2 <= pos || q + 2 > self.text.len() {
                        None
                    } else {
                        self.spec_guarded_at(
                            q + 2,
                            &branches[n - 1].condition,
                            branches[n - 1].body@,
                            private_access_typeid,
                        )
                    }
                },
            }
        }
    }

    /// Whether `condition` and `body` are the expression written at `pos`
    /// and the block behind it; gives where the block ends.
    pub open spec fn spec_guarded_at(
        &self,
        pos: int,
        condition: &Expression,
        body: Seq<Instruction>,
        private_access_typeid: Option<usize>,
    ) -> Option<int>
        decreases self.text.len() - pos, 5int, 0int,
    {
        match self.spec_expression_at(pos, condition, private_access_typeid) {
            None => None,
            Some(after) => match spec_expect(self.text, after, '{') {
                None => None,
                Some(open) => if open <= pos || open > self.text.len() {
                    None
                } else {
                    self.spec_block_at(open, body, private_access_typeid, Place::Block)
                },
            },
        }
    }

    /// Whether `body` holds the statements of the block whose inside starts
    /// at `pos`; gives where the block ends, behind its `}`.
    pub open spec fn spec_block_at(
        &self,
        pos: int,
        body: Seq<Instruction>,
        private_access_typeid: Option<usize>,
        place: Place,
    ) -> Option<int>
        decreases self.text.len() - pos, 4int, 0int,
    {
        match self.spec_statements(pos, body, body.len() as int, private_access_typeid, place) {
            None => None,
            Some(at) => {
                let s = spec_skip_separators(self.text, at);
                if 0 <= s < self.text.len() && self.text[s] == '}' {
                    Some(s + 1)
                } else {
                    None
                }
            },
        }
    }

    /// Where the `n`-th of the statements ends that stand from `pos` on,
    /// with blanks and `;` between them, inside a block.
    pub open spec fn spec_statements(
        &self,
        pos: int,
        statements: Seq<Instruction>,
        n: int,
        private_access_typeid: Option<usize>,
        place: Place,
    ) -> Option<int>
        decreases self.text.len() - pos, 3int, n,
    {
        if n < 0 || n > statements.len() {
            None
        } else if n == 0 {
            Some(pos)
        } else {
            match self.spec_statements(pos, statements, n - 1, private_access_typeid, place) {
                None => None,
                Some(at) => {
                    let s = spec_skip_separators(self.text, at);
                    if s < pos || s >= self.text.len() || self.text[s] == '}' {
                        None
                    } else {
                        self.spec_statement_at(s, statements[n - 1], private_access_typeid, place)
                    }
                },
            }
        }
    }
}

} // verus!

verus! {

impl Grammar {
    /// Where the `n`-th of the parameters ends that stand from `pos` on, and
    /// whether the word `self` stands before it. Blanks and commas, and with
    /// `with_self` the word `self`, stand between the parameters; each is a
    /// name with a type.
    pub open spec fn spec_parameters(
        &self,
        pos: int,
        parameters: Seq<AnnotatedIdentifier>,
        n: int,
        with_self: bool,
    ) -> Option<(int, bool)>
        decreases n,
    {
        if n < 0 || n > parameters.len() {
            None
        } else if n == 0 {
            Some((pos, false))
        } else {
            match self.spec_parameters(pos, parameters, n - 1, with_self) {
                None => None,
                Some((at, uses_self)) => {
                    let p = spec_gap(self.text, at, with_self);
                    if p < 0 || p >= self.text.len() || self.text[p] == ')' {
                        None
                    } else {
                        match self.spec_identifier_at(
                            p,
                            parameters[n - 1].name@,
                            Some(parameters[n - 1].typeid),
                        ) {
                            None => None,
                            Some((_, end)) => Some(
                                (end, uses_self || (with_self && spec_gap_self(self.text, at))),
                            ),
                        }
                    }
                },
            }
        }
    }

    /// Where a parameter ends depends on no parameter behind it.
    pub proof fn lemma_parameters_prefix(
        &self,
        pos: int,
        a: Seq<AnnotatedIdentifier>,
        b: Seq<AnnotatedIdentifier>,
        k: int,
        with_self: bool,
    )
        requires
            k <= a.len(),
            k <= b.len(),
            forall|i: int| 0 <= i < k ==> a[i] == b[i],
        ensures
            self.spec_parameters(pos, a, k, with_self) == self.spec_parameters(pos, b, k, with_self),
        decreases k,
    {
        if k > 0 {
            self.lemma_parameters_prefix(pos, a, b, k - 1, with_self);
        }
    }

    /// Whether the parameters are those of the list whose inside starts at
    /// `pos`; gives where the list ends, behind its `)`, and whether the
    /// word `self` stands in it.
    pub open spec fn spec_parameter_list(
        &self,
        pos: int,
        parameters: Seq<AnnotatedIdentifier>,
        with_self: bool,
    ) -> Option<(int, bool)> {
        match self.spec_parameters(pos, parameters, parameters.len() as int, with_self) {
            None => None,
            Some((at, uses_self)) => {
                let p = spec_gap(self.text, at, with_self);
                if 0 <= p < self.text.len() && self.text[p] == ')' {
                    Some((p + 1, uses_self || (with_self && spec_gap_self(self.text, at))))
                } else {
                    None
                }
            },
        }
    }

    /// The return type that is written at `pos`, with the place where the
    /// signature ends. Behind `->` stands the name of a known type, and the
    /// function returns a value of that type, or of any type where it is
    /// `dyn`. Without `->` the function returns `none`.
    pub open spec fn spec_return_type(&self, pos: int) -> Option<(Option<(usize, usize)>, int)> {
        let p = spec_skip_blanks(self.text, pos);
        if !spec_looking_at(self.text, p, "->"@) {
            Some((Some((TYPEID_NONE, 0usize)), pos))
        } else {
            match spec_word(self.text, p + 2) {
                None => None,
                Some((type_start, type_end)) => {
                    let typename = self.text.subrange(type_start, type_end);
                    if !self.types.contains_key(typename) {
                        None
                    } else if self.types[typename] == TYPEID_DYN {
                        Some((None, type_end))
                    } else {
                        Some((Some((self.types[typename], self.spec_global(type_start))), type_end))
                    }
                },
            }
        }
    }

    /// Whether `function` is the function defined at `pos`, where `fn`
    /// stands, under the name `name`; gives where the definition ends.
    ///
    /// Behind `fn` stand the name, an identifier; the parameters in
    /// parentheses; the return type, or none; and the body, a block. The
    /// word `self` may stand among the parameters of a method only, and
    /// `uses_self` tells whether it does. The span of the function is its
    /// signature.
    #[verifier::opaque]
    pub open spec fn spec_function_at(
        &self,
        pos: int,
        name: Seq<char>,
        uses_self: bool,
        function: UserFunction,
        is_method: bool,
        private_access_typeid: Option<usize>,
    ) -> Option<int> {
        match spec_word(self.text, pos + 2) {
            None => None,
            Some((name_start, name_end)) => match spec_expect(self.text, name_end, '(') {
                None => None,
                Some(open) => match self.spec_parameter_list(open, function.arguments@, true) {
                    None => None,
                    Some((after, with_self)) => match self.spec_return_type(after) {
                        None => None,
                        Some((return_typeid, signature_end)) => match spec_expect(
                            self.text,
                            signature_end,
                            '{',
                        ) {
                            None => None,
                            Some(body) => if name != self.text.subrange(name_start, name_end)
                                || !self.spec_valid_identifier(name) || uses_self != with_self || (
                            uses_self && !is_method) || function.return_typeid != return_typeid
                                || function.context != self.spec_context(
                                pos as usize,
                                signature_end as usize,
                            ) {
                                None
                            } else {
                                self.spec_block_at(
                                    body,
                                    function.body@,
                                    private_access_typeid,
                                    Place::Function,
                                )
                            },
                        },
                    },
                },
            },
        }
    }
}

} // verus!

verus! {

/// A member of a class as it stands in the text: a property, or a function
/// with its name.
pub enum Member {
    Property(PropertyDefinition),
    Function(String, ClassFunction),
}

/// The properties among the first `n` members, in their order.
pub open spec fn spec_properties(members: Seq<Member>, n: int) -> Seq<PropertyDefinition>
    decreases n,
{
    if n <= 0 || n > members.len() {
        Seq::empty()
    } else {
        match members[n - 1] {
            Member::Property(property) => spec_properties(members, n - 1).push(property),
            Member::Function(_, _) => spec_properties(members, n - 1),
        }
    }
}

/// The functions among the first `n` members, by name.
pub open spec fn spec_methods(members: Seq<Member>, n: int) -> Map<Seq<char>, ClassFunction>
    decreases n,
{
    if n <= 0 || n > members.len() {
        Map::empty()
    } else {
        match members[n - 1] {
            Member::Property(_) => spec_methods(members, n - 1),
            Member::Function(name, function) => spec_methods(members, n - 1).insert(
                name@,
                function,
            ),
        }
    }
}

/// The members before a member do not depend on it, nor on those behind it.
pub proof fn lemma_members_prefix(a: Seq<Member>, b: Seq<Member>, k: int)
    requires
        k <= a.len(),
        k <= b.len(),
        forall|i: int| 0 <= i < k ==> a[i] == b[i],
    ensures
        spec_properties(a, k) == spec_properties(b, k),
        spec_methods(a, k) == spec_methods(b, k),
    decreases k,
{
    if k > 0 {
        lemma_members_prefix(a, b, k - 1);
    }
}

impl Grammar {
    /// The same text, read with one more type known.
    pub open spec fn spec_with_type(&self, name: Seq<char>, typeid: usize) -> Grammar {
        Grammar {
            offset: self.offset,
            text: self.text,
            source: self.source,
            types: self.types.insert(name, typeid),
        }
    }

    /// Whether `property` is the property of the class `typeid` that is
    /// written at `at`, as a member that starts at `start`; gives where it
    /// ends.
    ///
    /// A property is a name with a type, `=` and the expression for its
    /// first value, which has private access to the class. The type is not
    /// the class, and the first value does not construct the class
    /// ([`Grammar::spec_constructs`]).
    pub open spec fn spec_property_at(
        &self,
        start: int,
        at: int,
        property: PropertyDefinition,
        typeid: usize,
    ) -> Option<int> {
        match self.spec_identifier_at(at, property.id.name@, Some(property.id.typeid)) {
            None => None,
            Some((_, id_end)) => match spec_expect(self.text, id_end, '=') {
                None => None,
                Some(after_assign) => match self.spec_expression_at(
                    after_assign,
                    &property.init_expression,
                    Some(typeid),
                ) {
                    None => None,
                    Some(end) => if property.id.typeid == typeid || self.spec_constructs(
                        after_assign,
                        typeid,
                    ) || property.context != self.spec_context(start as usize, end as usize)
                        || property.assign_pos != after_assign - 1 - start {
                        None
                    } else {
                        Some(end)
                    },
                },
            },
        }
    }

    /// Whether `member` is the member of the class `typeid` that is written
    /// at `start`, behind the members given; gives where it ends.
    ///
    /// The word `pub` in front makes a member public. Behind it stands a
    /// function, which has private access to the class and whose name no
    /// function before it has; or a property, whose name no property before
    /// it has.
    pub open spec fn spec_member_at(
        &self,
        start: int,
        member: Member,
        typeid: usize,
        properties: Seq<PropertyDefinition>,
        functions: Map<Seq<char>, ClassFunction>,
    ) -> Option<int> {
        let is_public = spec_word_at(self.text, start) == "pub"@;
        let at = if is_public {
            spec_skip_blanks(self.text, start + 3)
        } else {
            start
        };
        if at < 0 || at >= self.text.len() {
            None
        } else if spec_word_at(self.text, at) == "fn"@ {
            match member {
                Member::Function(name, f) => match f.function {
                    Function::UserFunction(function) => if f.is_public != is_public
                        || functions.contains_key(name@) {
                        None
                    } else {
                        self.spec_function_at(
                            at,
                            name@,
                            f.uses_self,
                            function,
                            true,
                            Some(typeid),
                        )
                    },
                    _ => None,
                },
                _ => None,
            }
        } else {
            match member {
                Member::Property(p) => if p.is_public != is_public || (exists|i: int|
                    0 <= i < properties.len() && (#[trigger] properties[i]).id.name@
                        == p.id.name@) {
                    None
                } else {
                    self.spec_property_at(start, at, p, typeid)
                },
                _ => None,
            }
        }
    }

    /// Where the `n`-th of the members ends that stand from `pos` on, with
    /// blanks and `;` between them, in the body of the class `typeid`.
    pub open spec fn spec_members(
        &self,
        pos: int,
        members: Seq<Member>,
        n: int,
        typeid: usize,
    ) -> Option<int>
        decreases n,
    {
        if n < 0 || n > members.len() {
            None
        } else if n == 0 {
            Some(pos)
        } else {
            match self.spec_members(pos, members, n - 1, typeid) {
                None => None,
                Some(at) => {
                    let start = spec_skip_separators(self.text, at);
                    if start < 0 || start >= self.text.len() || self.text[start] == '}' {
                        None
                    } else {
                        self.spec_member_at(
                            start,
                            members[n - 1],
                            typeid,
                            spec_properties(members, n - 1),
                            spec_methods(members, n - 1),
                        )
                    }
                },
            }
        }
    }

    /// Where a member ends depends on no member behind it.
    pub proof fn lemma_members_end_prefix(
        &self,
        pos: int,
        a: Seq<Member>,
        b: Seq<Member>,
        k: int,
        typeid: usize,
    )
        requires
            k <= a.len(),
            k <= b.len(),
            forall|i: int| 0 <= i < k ==> a[i] == b[i],
        ensures
            self.spec_members(pos, a, k, typeid) == self.spec_members(pos, b, k, typeid),
        decreases k,
    {
        if k > 0 {
            self.lemma_members_end_prefix(pos, a, b, k - 1, typeid);
            lemma_members_prefix(a, b, k - 1);
        }
    }

    /// Whether `members` are the members that stand in the body of the
    /// class `typeid`, whose inside starts at `pos`; gives where the body
    /// ends, behind its `}`.
    pub open spec fn spec_class_body(&self, pos: int, members: Seq<Member>, typeid: usize) -> Option<
        int,
    > {
        match self.spec_members(pos, members, members.len() as int, typeid) {
            None => None,
            Some(at) => {
                let s = spec_skip_separators(self.text, at);
                if 0 <= s < self.text.len() && self.text[s] == '}' {
                    Some(s + 1)
                } else {
                    None
                }
            },
        }
    }

    /// Whether a class is defined at `pos`, where `class` stands, under
    /// the name `name`, with the parameters given for its constructor; gives
    /// where its body starts, behind the `{`.
    ///
    /// Behind `class` stand the name, an identifier, and the parameters of
    /// the constructor in parentheses, or none. For the parameters the name
    /// is known as a type already.
    pub open spec fn spec_class_head(
        &self,
        pos: int,
        name: Seq<char>,
        parameters: Seq<AnnotatedIdentifier>,
        typeid: usize,
    ) -> Option<int> {
        match spec_word(self.text, pos + 5) {
            None => None,
            Some((name_start, name_end)) => {
                let a = spec_skip_blanks(self.text, name_end);
                let list = if 0 <= a < self.text.len() && self.text[a] == '(' {
                    self.spec_with_type(name, typeid).spec_parameter_list(a + 1, parameters, false)
                } else if parameters.len() == 0 {
                    Some((a, false))
                } else {
                    None
                };
                match list {
                    None => None,
                    Some((after, _)) => if name != self.text.subrange(name_start, name_end)
                        || !self.spec_valid_identifier(name) {
                        None
                    } else {
                        spec_expect(self.text, after, '{')
                    },
                }
            },
        }
    }

    /// Whether `class` is the class defined at `pos`, where `class` stands,
    /// under the name `name` and the type-id `typeid`, with the members
    /// given; gives where the definition ends.
    ///
    /// Behind the head of the class ([`Grammar::spec_class_head`]) stand in
    /// braces the members, with blanks and `;` between them. Inside the
    /// definition the name is known as a type. The class holds the
    /// properties in their order and the functions by name, and besides them
    /// the public constructor `new` with the parameters written.
    #[verifier::opaque]
    pub open spec fn spec_class_at(
        &self,
        pos: int,
        name: Seq<char>,
        class: ClassDefinition,
        members: Seq<Member>,
        typeid: usize,
    ) -> Option<int> {
        let constructor = class.function_definitions@["new"@];
        match constructor.function {
            Function::BuiltinFunction(b) => match self.spec_class_head(
                pos,
                name,
                b.arguments@,
                typeid,
            ) {
                None => None,
                Some(open) => match self.spec_with_type(name, typeid).spec_class_body(
                    open,
                    members,
                    typeid,
                ) {
                    None => None,
                    Some(end) => {
                        if !class.function_definitions@.contains_key("new"@)
                            || constructor.uses_self || !constructor.is_public || b.body
                            != Builtin::ClassConstructor || class.typeid != typeid
                            || class.context != self.spec_context(pos as usize, end as usize)
                            || class.property_definitions@ != spec_properties(
                            members,
                            members.len() as int,
                        ) || class.function_definitions@ != spec_methods(
                            members,
                            members.len() as int,
                        ).insert("new"@, constructor) {
                            None
                        } else {
                            Some(end)
                        }
                    },
                },
            },
            _ => None,
        }
    }
}

} // verus!

verus! {

/// What stands at the top of a program: a class with its name and its
/// members, a function with its name, or a statement.
pub enum Item {
    Class(String, ClassDefinition, Seq<Member>),
    Function(String, UserFunction),
    Statement(Instruction),
}

/// The statements among the first `n` items, in their order.
pub open spec fn spec_statements_of(items: Seq<Item>, n: int) -> Seq<Instruction>
    decreases n,
{
    if n <= 0 || n > items.len() {
        Seq::empty()
    } else {
        match items[n - 1] {
            Item::Statement(instruction) => spec_statements_of(items, n - 1).push(instruction),
            _ => spec_statements_of(items, n - 1),
        }
    }
}

/// The classes among the first `n` items, in their order.
pub open spec fn spec_classes_of(items: Seq<Item>, n: int) -> Seq<ClassDefinition>
    decreases n,
{
    if n <= 0 || n > items.len() {
        Seq::empty()
    } else {
        match items[n - 1] {
            Item::Class(_, class, _) => spec_classes_of(items, n - 1).push(class),
            _ => spec_classes_of(items, n - 1),
        }
    }
}

/// The names of the classes among the first `n` items, in their order.
pub open spec fn spec_class_names_of(items: Seq<Item>, n: int) -> Seq<String>
    decreases n,
{
    if n <= 0 || n > items.len() {
        Seq::empty()
    } else {
        match items[n - 1] {
            Item::Class(name, _, _) => spec_class_names_of(items, n - 1).push(name),
            _ => spec_class_names_of(items, n - 1),
        }
    }
}

/// The table of functions `store` with the functions among the first `n`
/// items entered under their names.
pub open spec fn spec_functions_of(store: Map<Seq<char>, Function>, items: Seq<Item>, n: int) -> Map<
    Seq<char>,
    Function,
>
    decreases n,
{
    if n <= 0 || n > items.len() {
        store
    } else {
        match items[n - 1] {
            Item::Function(name, function) => spec_functions_of(store, items, n - 1).insert(
                name@,
                Function::UserFunction(function),
            ),
            _ => spec_functions_of(store, items, n - 1),
        }
    }
}

/// Whether every function among the items has a name that is new: neither
/// `store` nor a function before it has it.
pub open spec fn spec_fresh_functions(store: Map<Seq<char>, Function>, items: Seq<Item>) -> bool {
    forall|k: int|
        0 <= k < items.len() ==> ((#[trigger] items[k]) matches Item::Function(name, _)
            ==> !spec_functions_of(store, items, k).contains_key(name@))
}

/// What the first items give depends on no item behind them.
pub proof fn lemma_items_prefix(store: Map<Seq<char>, Function>, a: Seq<Item>, b: Seq<Item>, k: int)
    requires
        k <= a.len(),
        k <= b.len(),
        forall|i: int| 0 <= i < k ==> a[i] == b[i],
    ensures
        spec_statements_of(a, k) == spec_statements_of(b, k),
        spec_classes_of(a, k) == spec_classes_of(b, k),
        spec_class_names_of(a, k) == spec_class_names_of(b, k),
        spec_functions_of(store, a, k) == spec_functions_of(store, b, k),
    decreases k,
{
    if k > 0 {
        lemma_items_prefix(store, a, b, k - 1);
    }
}

/// Functions with new names still have new names when an item joins that
/// is no function, or a function with a new name.
pub proof fn lemma_fresh_push(store: Map<Seq<char>, Function>, items: Seq<Item>, item: Item)
    requires
        spec_fresh_functions(store, items),
        item matches Item::Function(name, _) ==> !spec_functions_of(
            store,
            items,
            items.len() as int,
        ).contains_key(name@),
    ensures
        spec_fresh_functions(store, items.push(item)),
{
    let next = items.push(item);
    assert forall|k: int| 0 <= k < next.len() implies ((#[trigger] next[k]) matches Item::Function(
        name,
        _,
    ) ==> !spec_functions_of(store, next, k).contains_key(name@)) by {
        lemma_items_prefix(store, items, next, k);
        if k < items.len() {
            assert(next[k] == items[k]);
        }
    }
}

impl Grammar {
    /// The same text, read with the types given.
    pub open spec fn spec_with_types(&self, types: Map<Seq<char>, usize>) -> Grammar {
        Grammar { offset: self.offset, text: self.text, source: self.source, types }
    }

    /// Whether `item` is what stands at `pos` at the top of a program, where
    /// the next class gets the type-id `next`; gives where it ends, the
    /// types known behind it, and the type-id that the next class gets.
    ///
    /// The word `class` starts a class, which is known as a type from there
    /// on. The word `fn` starts a function, which is no method. Anything
    /// else is a statement.
    #[verifier::opaque]
    pub open spec fn spec_item_at(&self, pos: int, item: Item, next: int) -> Option<
        (int, Map<Seq<char>, usize>, int),
    > {
        let word = spec_word_at(self.text, pos);
        if word == "class"@ {
            match item {
                Item::Class(name, class, members) => if next < 0 || next >= usize::MAX {
                    None
                } else {
                    match self.spec_class_at(pos, name@, class, members, next as usize) {
                        None => None,
                        Some(end) => Some((end, self.types.insert(name@, next as usize), next + 1)),
                    }
                },
                _ => None,
            }
        } else if word == "fn"@ {
            match item {
                Item::Function(name, function) => match self.spec_function_at(
                    pos,
                    name@,
                    false,
                    function,
                    false,
                    None,
                ) {
                    None => None,
                    Some(end) => Some((end, self.types, next)),
                },
                _ => None,
            }
        } else {
            match item {
                Item::Statement(instruction) => match self.spec_statement_at(
                    pos,
                    instruction,
                    None,
                    Place::Program,
                ) {
                    None => None,
                    Some(end) => Some((end, self.types, next)),
                },
                _ => None,
            }
        }
    }

    /// A class that is defined at `pos` is the item that stands there.
    pub proof fn lemma_class_item(
        &self,
        pos: int,
        name: String,
        class: ClassDefinition,
        members: Seq<Member>,
        next: int,
        end: int,
    )
        requires
            spec_word_at(self.text, pos) == "class"@,
            0 <= next < usize::MAX,
            self.spec_class_at(pos, name@, class, members, next as usize) == Some(end),
        ensures
            self.spec_item_at(pos, Item::Class(name, class, members), next) == Some(
                (end, self.types.insert(name@, next as usize), next + 1),
            ),
    {
        reveal(Grammar::spec_item_at);
    }

    /// A function that is defined at `pos` is the item that stands there.
    pub proof fn lemma_function_item(
        &self,
        pos: int,
        name: String,
        function: UserFunction,
        next: int,
        end: int,
    )
        requires
            spec_word_at(self.text, pos) == "fn"@,
            spec_word_at(self.text, pos) != "class"@,
            self.spec_function_at(pos, name@, false, function, false, None) == Some(end),
        ensures
            self.spec_item_at(pos, Item::Function(name, function), next) == Some(
                (end, self.types, next),
            ),
    {
        reveal(Grammar::spec_item_at);
    }

    /// A statement at `pos`, where neither `class` nor `fn` stands, is the
    /// item that stands there.
    pub proof fn lemma_statement_item(&self, pos: int, instruction: Instruction, next: int, end: int)
        requires
            spec_word_at(self.text, pos) != "fn"@,
            spec_word_at(self.text, pos) != "class"@,
            self.spec_statement_at(pos, instruction, None, Place::Program) == Some(end),
        ensures
            self.spec_item_at(pos, Item::Statement(instruction), next) == Some(
                (end, self.types, next),
            ),
    {
        reveal(Grammar::spec_item_at);
    }

    /// Where the `n`-th of the items ends that stand in the text, with
    /// blanks and `;` between them; the types known behind it; and the
    /// type-id that the next class gets. The first class gets `first`.
    pub open spec fn spec_items(&self, first: int, items: Seq<Item>, n: int) -> Option<
        (int, Map<Seq<char>, usize>, int),
    >
        decreases n,
    {
        if n < 0 || n > items.len() {
            None
        } else if n == 0 {
            Some((0, self.types, first))
        } else {
            match self.spec_items(first, items, n - 1) {
                None => None,
                Some((at, types, next)) => {
                    let start = spec_skip_separators(self.text, at);
                    if start < 0 || start >= self.text.len() {
                        None
                    } else {
                        self.spec_with_types(types).spec_item_at(start, items[n - 1], next)
                    }
                },
            }
        }
    }

    /// Where an item ends depends on no item behind it.
    pub proof fn lemma_items_end_prefix(&self, first: int, a: Seq<Item>, b: Seq<Item>, k: int)
        requires
            k <= a.len(),
            k <= b.len(),
            forall|i: int| 0 <= i < k ==> a[i] == b[i],
        ensures
            self.spec_items(first, a, k) == self.spec_items(first, b, k),
        decreases k,
    {
        if k > 0 {
            self.lemma_items_end_prefix(first, a, b, k - 1);
        }
    }

    /// What one more item adds to the items before it.
    pub proof fn lemma_item_push(
        &self,
        first: int,
        store: Map<Seq<char>, Function>,
        items: Seq<Item>,
        item: Item,
    )
        ensures
            ({
                let next = items.push(item);
                let n = items.len() as int;
                &&& self.spec_items(first, next, n + 1) == match self.spec_items(first, items, n) {
                    None => None,
                    Some((at, types, id)) => {
                        let start = spec_skip_separators(self.text, at);
                        if start < 0 || start >= self.text.len() {
                            None
                        } else {
                            self.spec_with_types(types).spec_item_at(start, item, id)
                        }
                    },
                }
                &&& spec_statements_of(next, n + 1) == match item {
                    Item::Statement(instruction) => spec_statements_of(items, n).push(instruction),
                    _ => spec_statements_of(items, n),
                }
                &&& spec_classes_of(next, n + 1) == match item {
                    Item::Class(_, class, _) => spec_classes_of(items, n).push(class),
                    _ => spec_classes_of(items, n),
                }
                &&& spec_class_names_of(next, n + 1) == match item {
                    Item::Class(name, _, _) => spec_class_names_of(items, n).push(name),
                    _ => spec_class_names_of(items, n),
                }
                &&& spec_functions_of(store, next, n + 1) == match item {
                    Item::Function(name, function) => spec_functions_of(store, items, n).insert(
                        name@,
                        Function::UserFunction(function),
                    ),
                    _ => spec_functions_of(store, items, n),
                }
            }),
    {
        let next = items.push(item);
        lemma_items_prefix(store, items, next, items.len() as int);
        self.lemma_items_end_prefix(first, items, next, items.len() as int);
    }

    /// Whether `items` is what stands in the whole text, where the first
    /// class gets the type-id `first`.
    pub open spec fn spec_program(&self, first: int, items: Seq<Item>) -> bool {
        self.spec_items(first, items, items.len() as int) matches Some((at, _, _))
            && spec_skip_separators(self.text, at) >= self.text.len()
    }
}

/// Whether lowering the text of `grammar` up to `at` has led from the
/// session `before` to the session `now`, to the types `types` and to the
/// instructions given, by way of the items that stand in the text up to
/// there.
#[verifier::opaque]
pub open spec fn spec_lowering(
    grammar: Grammar,
    before: ParseSession,
    now: ParseSession,
    types: Map<Seq<char>, usize>,
    items: Seq<Item>,
    instructions: Seq<Instruction>,
    at: int,
) -> bool {
    let n = items.len() as int;
    &&& grammar.spec_items(before.spec_next_typeid(), items, n) == Some(
        (at, types, now.spec_next_typeid()),
    )
    &&& instructions == spec_statements_of(items, n)
    &&& now.class_definitions@ == before.class_definitions@ + spec_classes_of(items, n)
    &&& now.type_names@ == before.type_names@ + spec_class_names_of(items, n)
    &&& spec_fresh_functions(before.function_store@, items)
    &&& now.function_store@ == spec_functions_of(before.function_store@, items, n)
}

/// What an item that stands in the text does to a session: a class joins
/// the classes, with its name; a function joins the functions, under a name
/// that is new; a statement changes nothing.
pub open spec fn spec_registered(now: ParseSession, next: ParseSession, item: Item) -> bool {
    match item {
        Item::Class(name, class, _) => next.class_definitions@ == now.class_definitions@.push(class)
            && next.type_names@ == now.type_names@.push(name) && next.function_store@
            == now.function_store@,
        Item::Function(name, function) => next.class_definitions@ == now.class_definitions@
            && next.type_names@ == now.type_names@ && !now.function_store@.contains_key(name@)
            && next.function_store@ == now.function_store@.insert(
            name@,
            Function::UserFunction(function),
        ),
        Item::Statement(_) => next.class_definitions@ == now.class_definitions@ && next.type_names@
            == now.type_names@ && next.function_store@ == now.function_store@,
    }
}

/// Lowering starts at the start of the text, with the session and the types
/// as they are and with no item.
pub proof fn lemma_lowering_start(grammar: Grammar, before: ParseSession)
    ensures
        spec_lowering(grammar, before, before, grammar.types, Seq::empty(), Seq::empty(), 0),
{
    reveal(spec_lowering);
    assert(before.class_definitions@ + Seq::<ClassDefinition>::empty()
        =~= before.class_definitions@);
    assert(before.type_names@ + Seq::<String>::empty() =~= before.type_names@);
}

/// Lowering ends where only blanks and `;` are left of the text.
pub proof fn lemma_lowering_end(
    grammar: Grammar,
    before: ParseSession,
    now: ParseSession,
    types: Map<Seq<char>, usize>,
    items: Seq<Item>,
    instructions: Seq<Instruction>,
    at: int,
)
    requires
        spec_lowering(grammar, before, now, types, items, instructions, at),
        spec_skip_separators(grammar.text, at) >= grammar.text.len(),
    ensures
        spec_lowered(grammar, before, now, items, instructions),
{
    reveal(spec_lowering);
    reveal(spec_lowered);
}

/// What was lowered starting from one session was lowered starting from
/// any session with the same classes and functions.
pub proof fn lemma_lowered_from(
    grammar: Grammar,
    before: ParseSession,
    other: ParseSession,
    after: ParseSession,
    items: Seq<Item>,
    instructions: Seq<Instruction>,
)
    requires
        spec_lowered(grammar, before, after, items, instructions),
        before.type_names == other.type_names,
        before.class_definitions == other.class_definitions,
        before.function_store == other.function_store,
    ensures
        spec_lowered(grammar, other, after, items, instructions),
{
    reveal(spec_lowered);
}

/// Lowering goes on by one item.
pub proof fn lemma_lowering_step(
    grammar: Grammar,
    before: ParseSession,
    now: ParseSession,
    next: ParseSession,
    types: Map<Seq<char>, usize>,
    items: Seq<Item>,
    instructions: Seq<Instruction>,
    at: int,
    item: Item,
    end: int,
    next_types: Map<Seq<char>, usize>,
)
    requires
        spec_lowering(grammar, before, now, types, items, instructions, at),
        0 <= spec_skip_separators(grammar.text, at) < grammar.text.len(),
        grammar.spec_with_types(types).spec_item_at(
            spec_skip_separators(grammar.text, at),
            item,
            now.spec_next_typeid(),
        ) == Some((end, next_types, next.spec_next_typeid())),
        spec_registered(now, next, item),
    ensures
        spec_lowering(
            grammar,
            before,
            next,
            next_types,
            items.push(item),
            match item {
                Item::Statement(instruction) => instructions.push(instruction),
                _ => instructions,
            },
            end,
        ),
{
    reveal(spec_lowering);
    let n = items.len() as int;
    grammar.lemma_item_push(before.spec_next_typeid(), before.function_store@, items, item);
    lemma_fresh_push(before.function_store@, items, item);
    match item {
        Item::Class(name, class, _) => {
            assert(before.class_definitions@ + spec_classes_of(items, n).push(class) =~= (
            before.class_definitions@ + spec_classes_of(items, n)).push(class));
            assert(before.type_names@ + spec_class_names_of(items, n).push(name) =~= (
            before.type_names@ + spec_class_names_of(items, n)).push(name));
        },
        _ => {},
    }
}

/// Whether lowering the text of `grammar` has led from the session `before`
/// to the session `after` and to the instructions given, by way of the items
/// that stand in the text.
///
/// The items are the program that is written in the text. Their statements
/// are the instructions, in their order. Their classes have joined the
/// classes of the session, with their names, in their order. Their functions
/// have joined the functions of the session, each under a name that was new.
#[verifier::opaque]
pub open spec fn spec_lowered(
    grammar: Grammar,
    before: ParseSession,
    after: ParseSession,
    items: Seq<Item>,
    instructions: Seq<Instruction>,
) -> bool {
    let n = items.len() as int;
    &&& grammar.spec_program(before.spec_next_typeid(), items)
    &&& instructions == spec_statements_of(items, n)
    &&& after.class_definitions@ == before.class_definitions@ + spec_classes_of(items, n)
    &&& after.type_names@ == before.type_names@ + spec_class_names_of(items, n)
    &&& spec_fresh_functions(before.function_store@, items)
    &&& after.function_store@ == spec_functions_of(before.function_store@, items, n)
}

/// Whether lowering the text of `grammar`, which failed, has led from the
/// session `before` to the session `after`, by way of the items that stand
/// in the text before the place where it failed: their classes and functions
/// have joined the session as those of a text that is lowered do
/// ([`spec_lowered`]).
#[verifier::opaque]
pub open spec fn spec_halted(
    grammar: Grammar,
    before: ParseSession,
    after: ParseSession,
    items: Seq<Item>,
) -> bool {
    let n = items.len() as int;
    &&& grammar.spec_items(before.spec_next_typeid(), items, n) is Some
    &&& after.class_definitions@ == before.class_definitions@ + spec_classes_of(items, n)
    &&& after.type_names@ == before.type_names@ + spec_class_names_of(items, n)
    &&& spec_fresh_functions(before.function_store@, items)
    &&& after.function_store@ == spec_functions_of(before.function_store@, items, n)
}

/// Lowering that fails leaves the session as the items before the failure
/// have made it.
pub proof fn lemma_lowering_halt(
    grammar: Grammar,
    before: ParseSession,
    now: ParseSession,
    after: ParseSession,
    types: Map<Seq<char>, usize>,
    items: Seq<Item>,
    instructions: Seq<Instruction>,
    at: int,
)
    requires
        spec_lowering(grammar, before, now, types, items, instructions, at),
        after.class_definitions@ == now.class_definitions@,
        after.type_names@ == now.type_names@,
        after.function_store@ == now.function_store@,
    ensures
        spec_halted(grammar, before, after, items),
        after.class_definitions@ == before.class_definitions@ + spec_classes_of(
            items,
            items.len() as int,
        ),
{
    reveal(spec_lowering);
    reveal(spec_halted);
}

/// What was lowered before a failure starting from one session was lowered
/// starting from any session with the same classes and functions.
pub proof fn lemma_halted_from(
    grammar: Grammar,
    before: ParseSession,
    other: ParseSession,
    after: ParseSession,
    items: Seq<Item>,
)
    requires
        spec_halted(grammar, before, after, items),
        before.type_names == other.type_names,
        before.class_definitions == other.class_definitions,
        before.function_store == other.function_store,
    ensures
        spec_halted(grammar, other, after, items),
{
    reveal(spec_halted);
}

} // verus!

verus! {

/// What kind of operand stands in the text: an identifier, the word `self`,
/// a call, or anything else (a literal, or an expression in parentheses).
#[derive(Debug, Clone, Copy, PartialEq, Eq, Structural)]
pub enum Kind {
    Name,
    Own,
    Call,
    Other,
}

/// How an expression ends: as one identifier that is all of it, as an
/// identifier behind a `.`, as the word `self` in one of these two places,
/// or otherwise.
#[derive(Debug, Clone, Copy, PartialEq, Eq, Structural)]
pub enum Tail {
    Lone,
    Member,
    Own,
    Other,
}

/// What the text of an expression shows of it besides its end: whether it
/// is a chain of names and calls joined by `.`, how it ends, where its last
/// operand starts, counted from the start of the expression, and whether it
/// calls, outside the arguments of any call, the constructor `new` of the
/// type that is watched for.
#[derive(Debug, Clone, Copy, PartialEq, Eq, Structural)]
pub struct Shape {
    pub plain: bool,
    pub tail: Tail,
    pub name: usize,
    pub made: bool,
}

/// What is wrong with a text that cannot be lowered.
pub enum Flaw {
    Syntax,
    Keyword,
    Typename,
    UnknownType(Seq<char>),
    MissingAnnotation,
    SelfOutsideMethod,
    FunctionAlreadyDefined,
    MemberAlreadyDefined,
    RecursiveType,
    Other,
}

/// Why a text cannot be lowered: what is wrong, the span of the construct
/// in the source buffer, and the place in that span.
pub struct Failure {
    pub context: Context,
    pub pos: usize,
    pub flaw: Flaw,
}

/// What a kind of error says is wrong with the text.
pub open spec fn spec_flaw(kind: ErrorKind) -> Flaw {
    match kind {
        ErrorKind::SyntaxError => Flaw::Syntax,
        ErrorKind::IdentifierIsKeyword => Flaw::Keyword,
        ErrorKind::IdentifierIsTypename => Flaw::Typename,
        ErrorKind::UnknownType(name) => Flaw::UnknownType(name@),
        ErrorKind::MissingAnnotation => Flaw::MissingAnnotation,
        ErrorKind::SelfOutsideMethod => Flaw::SelfOutsideMethod,
        ErrorKind::FunctionAlreadyDefined => Flaw::FunctionAlreadyDefined,
        ErrorKind::MemberAlreadyDefined => Flaw::MemberAlreadyDefined,
        ErrorKind::RecursiveType => Flaw::RecursiveType,
        _ => Flaw::Other,
    }
}

/// The failure that an error reports.
pub open spec fn spec_failure(e: Error) -> Failure {
    Failure { context: e.context, pos: e.pos, flaw: spec_flaw(e.kind) }
}

/// How an expression that consists of the one operand of the kind given
/// ends.
pub open spec fn spec_lone(kind: Kind) -> Tail {
    match kind {
        Kind::Name => Tail::Lone,
        Kind::Own => Tail::Own,
        _ => Tail::Other,
    }
}

/// How an expression ends whose last operand, of the kind given, stands
/// behind a `.`.
pub open spec fn spec_member(kind: Kind) -> Tail {
    match kind {
        Kind::Name => Tail::Member,
        Kind::Own => Tail::Own,
        _ => Tail::Other,
    }
}

/// Whether the tokens, of which the first `n` stood before, end as `tail`
/// says, in a name at the position `name`.
pub open spec fn spec_tail_fits(
    n: int,
    tokens: Seq<Token>,
    tail: Tail,
    name: usize,
    types: Map<Seq<char>, usize>,
) -> bool {
    match tail {
        Tail::Other => true,
        _ => {
            &&& tokens.len() >= n + 1
            &&& tokens.last().pos == name
            &&& tokens.last().kind matches TokenKind::Identifier(word) && (if tail == Tail::Own {
                word@ == "self"@
            } else {
                !spec_is_keyword(word@) && !types.contains_key(word@)
            })
            &&& tail == Tail::Lone ==> tokens.len() == n + 1
            &&& tokens.len() > n + 1 ==> (tokens[tokens.len() - 2].kind matches TokenKind::Operator(
                o,
            ) && o == Operator::Dot)
        },
    }
}

impl Grammar {
    /// The failure of a text that breaks the syntax at character `at`: its
    /// span is the line that holds the character, and the place is the
    /// character.
    pub open spec fn spec_syntax(&self, at: int) -> Failure {
        let p = spec_clamp(at, self.text.len() as int);
        let start = spec_line_start(self.text, p);
        Failure {
            context: self.spec_context(start as usize, spec_line_end(self.text, p) as usize),
            pos: (p - start) as usize,
            flaw: Flaw::Syntax,
        }
    }

    /// The failure of the construct `[start, end)` at character `at`.
    pub open spec fn spec_fail(&self, start: int, end: int, at: int, flaw: Flaw) -> Failure {
        Failure {
            context: self.spec_context(start as usize, end as usize),
            pos: spec_minus(at, start) as usize,
            flaw,
        }
    }

    /// Why a name may not be used as an identifier, if it may not: it is a
    /// keyword, or else the name of a type.
    pub open spec fn spec_refused(&self, name: Seq<char>, context: Context, pos: usize) -> Option<
        Failure,
    > {
        if spec_is_keyword(name) {
            Some(Failure { context, pos, flaw: Flaw::Keyword })
        } else if self.types.contains_key(name) {
            Some(Failure { context, pos, flaw: Flaw::Typename })
        } else {
            None
        }
    }

    /// Where the character `c` ends that stands at `pos` or behind the
    /// blanks there; where another stands there, the syntax breaks at it.
    pub open spec fn spec_expected(&self, pos: int, c: char) -> Result<int, Failure> {
        match spec_expect(self.text, pos, c) {
            Some(end) => Ok(end),
            None => Err(self.spec_syntax(spec_skip_blanks(self.text, pos))),
        }
    }

    /// Where the word starts and ends that stands at `pos` or behind the
    /// blanks there; where none stands there, the syntax breaks there.
    pub open spec fn spec_worded(&self, pos: int) -> Result<(int, int), Failure> {
        match spec_word(self.text, pos) {
            Some(found) => Ok(found),
            None => Err(self.spec_syntax(spec_skip_blanks(self.text, pos))),
        }
    }

    /// End of the unary operators that stand at `at`, one behind the other
    /// with blanks between them, and of the blanks behind the last.
    pub open spec fn spec_unaries_end(&self, at: int) -> int
        decreases self.text.len() - at,
    {
        match spec_unary_operator_at(self.text, at) {
            Some((_, width)) => {
                let next = spec_skip_blanks(self.text, at + width);
                if next <= at || next > self.text.len() {
                    at
                } else {
                    self.spec_unaries_end(next)
                }
            },
            None => at,
        }
    }

    /// Where the call ends that starts at `p`, and whether it is the scoped
    /// call of the constructor `new` of the type `watch`; or why no call
    /// stands there.
    ///
    /// A call is a name, or the name of a known type, `::` and a name, and
    /// behind it in parentheses the arguments: expressions with `,` between
    /// them, or nothing.
    #[verifier::opaque]
    pub open spec fn spec_call_end(&self, p: int, watch: Option<usize>) -> Result<
        (int, bool),
        Failure,
    >
        decreases self.text.len() - p, 2int,
    {
        let text = self.text;
        let first_end = spec_word_end(text, p);
        let q = spec_skip_blanks(text, first_end);
        let scoped = spec_looking_at(text, q, "::"@);
        let typename = text.subrange(p, first_end);
        let name_start = if scoped {
            spec_skip_blanks(text, q + 2)
        } else {
            p
        };
        let name_end = if scoped {
            spec_word_end(text, name_start)
        } else {
            first_end
        };
        let open = spec_skip_blanks(text, name_end);
        if scoped && !self.types.contains_key(typename) {
            Err(self.spec_fail(p, q + 2, p, Flaw::UnknownType(typename)))
        } else if scoped && name_end == name_start {
            Err(self.spec_syntax(name_start))
        } else if !(0 <= open < text.len() && text[open] == '(') || first_end == p {
            Err(self.spec_syntax(open))
        } else {
            let made = scoped && watch == Some(self.types[typename]) && text.subrange(
                name_start,
                name_end,
            ) == "new"@;
            let a = spec_skip_blanks(text, open + 1);
            if 0 <= a < text.len() && text[a] == ')' {
                Ok((a + 1, made))
            } else if open + 1 <= p || open + 1 > text.len() {
                Err(self.spec_syntax(open))
            } else {
                match self.spec_arguments_close(open + 1) {
                    Err(f) => Err(f),
                    Ok(end) => Ok((end, made)),
                }
            }
        }
    }

    /// Where the arguments of a call end, behind the `)`, of which the next
    /// starts at or behind `at`.
    #[verifier::opaque]
    pub open spec fn spec_arguments_close(&self, at: int) -> Result<int, Failure>
        decreases self.text.len() - at, 8int,
    {
        match self.spec_expression_shape(at, None) {
            Err(f) => Err(f),
            Ok((end, _)) => {
                let q = spec_skip_blanks(self.text, end);
                if 0 <= q < self.text.len() && self.text[q] == ',' && q + 1 > at {
                    self.spec_arguments_close(q + 1)
                } else if 0 <= q < self.text.len() && self.text[q] == ')' {
                    Ok(q + 1)
                } else {
                    Err(self.spec_syntax(q))
                }
            },
        }
    }

    /// Where the expression ends that starts at `pos` or behind the blanks
    /// there, and its shape; or why no expression stands there.
    #[verifier::opaque]
    pub open spec fn spec_expression_shape(&self, pos: int, watch: Option<usize>) -> Result<
        (int, Shape),
        Failure,
    >
        decreases self.text.len() - pos, 7int,
    {
        let start = spec_skip_blanks(self.text, pos);
        if start < pos || start > self.text.len() {
            Err(self.spec_syntax(start))
        } else {
            self.spec_operands_end(start, start, true, false, watch)
        }
    }

    /// Where the expression that starts at `base` ends, and its shape, of
    /// which the next operand starts at or behind `at`. `first` tells that
    /// no operand stands before; `made` tells what the operands before have
    /// shown.
    ///
    /// An operand is any number of unary operators, a primary
    /// ([`Grammar::spec_primary_end`]), and any number of members behind it
    /// ([`Grammar::spec_members_end`]). A binary operator behind an operand
    /// asks for another operand; where none follows, the expression ends.
    #[verifier::opaque]
    pub open spec fn spec_operands_end(
        &self,
        at: int,
        base: int,
        first: bool,
        made: bool,
        watch: Option<usize>,
    ) -> Result<(int, Shape), Failure>
        decreases self.text.len() - at, 5int,
    {
        let start = spec_skip_blanks(self.text, at);
        let operand = self.spec_unaries_end(start);
        if start < at || operand < start || operand > self.text.len() {
            Err(self.spec_syntax(start))
        } else {
            match self.spec_primary_end(operand, base, true, watch) {
                Err(f) => Err(f),
                Ok((behind, kind, shown)) => if behind <= at || behind > self.text.len() {
                    Err(self.spec_syntax(start))
                } else {
                    match self.spec_members_end(
                        behind,
                        base,
                        if first && operand == start {
                            spec_lone(kind)
                        } else {
                            Tail::Other
                        },
                        spec_minus(operand, base) as usize,
                        made || shown,
                        watch,
                    ) {
                        Err(f) => Err(f),
                        Ok((end, tail, name, all)) => {
                            let next = spec_skip_blanks(self.text, end);
                            match spec_binary_operator_at(self.text, next) {
                                Some((_, width)) => if next + width <= at || next + width
                                    > self.text.len() {
                                    Err(self.spec_syntax(start))
                                } else {
                                    self.spec_operands_end(next + width, base, false, all, watch)
                                },
                                None => Ok(
                                    (
                                        end,
                                        Shape {
                                            plain: first && operand == start && kind
                                                != Kind::Other,
                                            tail,
                                            name,
                                            made: all,
                                        },
                                    ),
                                ),
                            }
                        },
                    }
                },
            }
        }
    }

    /// Where the members end that stand behind an operand that ends at
    /// `at`: each a `.` and a name or a call. `tail`, `name` and `made` tell
    /// what stands before.
    #[verifier::opaque]
    pub open spec fn spec_members_end(
        &self,
        at: int,
        base: int,
        tail: Tail,
        name: usize,
        made: bool,
        watch: Option<usize>,
    ) -> Result<(int, Tail, usize, bool), Failure>
        decreases self.text.len() - at, 4int,
    {
        let p = spec_skip_blanks(self.text, at);
        let member = spec_skip_blanks(self.text, p + 1);
        if at <= p < self.text.len() && self.text[p] == '.' && at < member
            <= self.text.len() {
            match self.spec_primary_end(member, base, false, watch) {
                Err(f) => Err(f),
                Ok((end, kind, shown)) => if end <= at || end > self.text.len() {
                    Err(self.spec_syntax(member))
                } else {
                    self.spec_members_end(
                        end,
                        base,
                        spec_member(kind),
                        spec_minus(member, base) as usize,
                        made || shown,
                        watch,
                    )
                },
            }
        } else {
            Ok((at, tail, name, made))
        }
    }

    /// Where the primary ends that starts at `p`, what kind it is of, and
    /// whether it shows a call of the constructor that is watched for; or
    /// why no primary stands there. `base` is where the expression starts.
    ///
    /// Where `literals` may stand, a primary is an expression in
    /// parentheses, a number, a string that is closed, or one of the words
    /// `true`, `false` and `none`. Else it is a word that does not start
    /// with a digit: a call where `(` or `::` follows, else the word `self`
    /// or an identifier.
    #[verifier::opaque]
    pub open spec fn spec_primary_end(
        &self,
        p: int,
        base: int,
        literals: bool,
        watch: Option<usize>,
    ) -> Result<(int, Kind, bool), Failure>
        decreases self.text.len() - p, 3int,
    {
        let text = self.text;
        if p < 0 || p >= text.len() {
            Err(self.spec_syntax(p))
        } else if literals && text[p] == '(' {
            match self.spec_operands_end(p + 1, base, true, false, watch) {
                Err(f) => Err(f),
                Ok((inner, shape)) => {
                    let q = spec_skip_blanks(text, inner);
                    if 0 <= q < text.len() && text[q] == ')' {
                        Ok((q + 1, Kind::Other, shape.made))
                    } else {
                        Err(self.spec_syntax(q))
                    }
                },
            }
        } else if literals && spec_is_digit(text[p]) {
            let whole = spec_digits_end(text, p);
            if whole == p {
                Err(self.spec_syntax(p))
            } else if self.spec_has_fraction(p) {
                Ok((spec_digits_end(text, whole + 1), Kind::Other, false))
            } else {
                Ok((whole, Kind::Other, false))
            }
        } else if literals && text[p] == '"' {
            let close = self.spec_string_end(p + 1);
            if close >= text.len() {
                Err(self.spec_syntax(p))
            } else {
                Ok((close + 1, Kind::Other, false))
            }
        } else {
            let end = spec_word_end(text, p);
            if end == p || spec_is_digit(text[p]) {
                Err(self.spec_syntax(p))
            } else if literals && self.spec_literal_word(p) {
                Ok((end, Kind::Other, false))
            } else if !self.spec_no_call(end) {
                match self.spec_call_end(p, watch) {
                    Err(f) => Err(f),
                    Ok((after, made)) => Ok((after, Kind::Call, made)),
                }
            } else if text.subrange(p, end) == "self"@ {
                Ok((end, Kind::Own, false))
            } else {
                match self.spec_refused(
                    text.subrange(p, end),
                    self.spec_context(base as usize, end as usize),
                    spec_minus(p, base) as usize,
                ) {
                    Some(f) => Err(f),
                    None => Ok((end, Kind::Name, false)),
                }
            }
        }
    }
}

} // verus!

verus! {

impl Grammar {
    /// Where the name stands that is written at `pos` or behind the blanks
    /// there, where the whole ends with its annotation, and the type that is
    /// annotated, if one is; or why no name with or without an annotation
    /// stands there. `construct` is where the construct around it starts.
    ///
    /// The name is an identifier. An annotation is a `:` that is not the
    /// start of `::`, and the name of a known type behind it.
    pub open spec fn spec_identifier_end(&self, pos: int, construct: int) -> Result<
        (int, int, Option<usize>),
        Failure,
    > {
        match self.spec_worded(pos) {
            Err(f) => Err(f),
            Ok((start, name_end)) => {
                let p = spec_skip_blanks(self.text, name_end);
                match self.spec_refused(
                    self.text.subrange(start, name_end),
                    self.spec_context(construct as usize, name_end as usize),
                    spec_minus(start, construct) as usize,
                ) {
                    Some(f) => Err(f),
                    None => if 0 <= p < self.text.len() && self.text[p] == ':' && !spec_looking_at(
                        self.text,
                        p,
                        "::"@,
                    ) {
                        match self.spec_worded(p + 1) {
                            Err(f) => Err(f),
                            Ok((type_start, type_end)) => {
                                let typename = self.text.subrange(type_start, type_end);
                                if self.types.contains_key(typename) {
                                    Ok((start, type_end, Some(self.types[typename])))
                                } else {
                                    Err(
                                        self.spec_fail(
                                            construct,
                                            type_end,
                                            type_start,
                                            Flaw::UnknownType(typename),
                                        ),
                                    )
                                }
                            },
                        }
                    } else {
                        Ok((start, name_end, None))
                    },
                }
            },
        }
    }

    /// As [`Grammar::spec_identifier_end`], for a name that must have an
    /// annotation.
    pub open spec fn spec_annotated_end(&self, pos: int, construct: int) -> Result<
        (int, int, usize),
        Failure,
    > {
        match self.spec_identifier_end(pos, construct) {
            Err(f) => Err(f),
            Ok((start, end, Some(typeid))) => Ok((start, end, typeid)),
            Ok((start, end, None)) => Err(
                self.spec_fail(construct, end, start, Flaw::MissingAnnotation),
            ),
        }
    }

    /// Where the names end that stand from `at` on with commas between
    /// them, in the declaration that starts at `construct`.
    #[verifier::opaque]
    pub open spec fn spec_names_end(&self, at: int, construct: int) -> Result<int, Failure>
        decreases self.text.len() - at,
    {
        match self.spec_identifier_end(at, construct) {
            Err(f) => Err(f),
            Ok((_, end, _)) => {
                let p = spec_skip_blanks(self.text, end);
                if 0 <= p < self.text.len() && self.text[p] == ',' && at < p + 1
                    <= self.text.len() {
                    self.spec_names_end(p + 1, construct)
                } else {
                    Ok(end)
                }
            },
        }
    }

    /// Where the declaration ends that starts at `pos`, where `let` stands:
    /// behind `let` stand one or more names, `=` and an expression.
    pub open spec fn spec_init_end(&self, pos: int) -> Result<int, Failure> {
        match self.spec_names_end(pos + 3, pos) {
            Err(f) => Err(f),
            Ok(at) => match self.spec_expected(at, '=') {
                Err(f) => Err(f),
                Ok(after) => match self.spec_expression_shape(after, None) {
                    Err(f) => Err(f),
                    Ok((end, _)) => Ok(end),
                },
            },
        }
    }

    /// Where the `return` ends that stands at `pos`: behind the word stands
    /// an expression, unless the text, a `;` or a `}` comes first.
    pub open spec fn spec_return_end(&self, pos: int) -> Result<int, Failure> {
        let p = spec_skip_blanks(self.text, pos + 6);
        if p < 0 || p >= self.text.len() || self.text[p] == ';' || self.text[p] == '}' {
            Ok(pos + 6)
        } else {
            match self.spec_expression_shape(p, None) {
                Err(f) => Err(f),
                Ok((end, _)) => Ok(end),
            }
        }
    }

    /// Whether the expression that starts at `pos` is a chain of members
    /// that ends in an identifier: names and calls with a `.` between each
    /// two of them, the last of them a name of its own choosing.
    pub open spec fn spec_chain_stands(&self, pos: int) -> bool {
        self.spec_operands_end(pos, pos, true, false, None) matches Ok((_, shape)) && shape.plain
            && (shape.tail == Tail::Lone || shape.tail == Tail::Member)
    }

    /// Whether the expression that starts at `pos` or behind the blanks
    /// there calls the constructor `new` of the class `typeid` outside the
    /// arguments of any call.
    pub open spec fn spec_constructs(&self, pos: int, typeid: usize) -> bool {
        self.spec_expression_shape(pos, Some(typeid)) matches Ok((_, shape)) && shape.made
    }

    /// Where the assignment ends that starts at `pos`, whose target, of the
    /// shape given, ends at `target_end`, where `=` follows: the target is a
    /// chain of members that ends in an identifier, and behind the `=`
    /// stands an expression.
    pub open spec fn spec_assignment_end(&self, pos: int, target_end: int, shape: Shape) -> Result<
        int,
        Failure,
    > {
        let p = spec_skip_blanks(self.text, target_end);
        if !shape.plain || shape.tail == Tail::Other {
            Err(self.spec_syntax(p))
        } else if shape.tail == Tail::Own {
            Err(
                Failure {
                    context: self.spec_context(pos as usize, (p + 1) as usize),
                    pos: shape.name,
                    flaw: Flaw::Keyword,
                },
            )
        } else {
            match self.spec_expression_shape(p + 1, None) {
                Err(f) => Err(f),
                Ok((end, _)) => Ok(end),
            }
        }
    }

    /// Where the assignment or the expression ends that starts at `pos`: an
    /// expression stands there, and it is the target of an assignment where
    /// a `=` follows it.
    pub open spec fn spec_plain_end(&self, pos: int) -> Result<int, Failure> {
        match self.spec_operands_end(pos, pos, true, false, None) {
            Err(f) => Err(f),
            Ok((target_end, shape)) => if spec_expect(self.text, target_end, '=') is None {
                Ok(target_end)
            } else {
                self.spec_assignment_end(pos, target_end, shape)
            },
        }
    }

    /// Where the statement ends that starts at `pos`, at a place of the
    /// given kind; or why no statement stands there.
    ///
    /// The word at `pos` decides what stands there: `if`, `while`, `for`,
    /// `break`, `return` and `let` start the statement of that name; anything
    /// else is an assignment or an expression. `break` stands only inside a
    /// block, `return` nowhere at the top of a program.
    #[verifier::opaque]
    pub open spec fn spec_statement_end(&self, pos: int, place: Place) -> Result<int, Failure>
        decreases self.text.len() - pos, 1int,
    {
        let word = spec_word_at(self.text, pos);
        if pos < 0 || pos >= self.text.len() {
            Err(self.spec_syntax(pos))
        } else if word == "if"@ {
            self.spec_branch_end(pos)
        } else if word == "while"@ {
            if pos + 5 > self.text.len() {
                Err(self.spec_syntax(pos))
            } else {
                self.spec_guarded_end(pos + 5)
            }
        } else if word == "for"@ {
            self.spec_for_end(pos)
        } else if word == "break"@ {
            if place == Place::Block {
                Ok(pos + 5)
            } else {
                Err(self.spec_fail(pos, pos + 5, pos, Flaw::Syntax))
            }
        } else if word == "return"@ {
            match self.spec_return_end(pos) {
                Err(f) => Err(f),
                Ok(end) => if place == Place::Program {
                    Err(self.spec_fail(pos, end, pos, Flaw::Syntax))
                } else {
                    Ok(end)
                },
            }
        } else if word == "let"@ {
            self.spec_init_end(pos)
        } else {
            self.spec_plain_end(pos)
        }
    }

    /// Where the `for` loop ends that starts at `pos`: behind `for` stand a
    /// word, the word `in`, an expression and a block.
    #[verifier::opaque]
    pub open spec fn spec_for_end(&self, pos: int) -> Result<int, Failure>
        decreases self.text.len() - pos, 0int,
    {
        match self.spec_worded(pos + 3) {
            Err(f) => Err(f),
            Ok((_, alias_end)) => match self.spec_worded(alias_end) {
                Err(f) => Err(f),
                Ok((in_start, in_end)) => {
                    let operand = spec_skip_blanks(self.text, in_end);
                    if spec_word_at(self.text, in_start) != "in"@ || operand <= pos || operand
                        > self.text.len() {
                        Err(self.spec_syntax(in_start))
                    } else {
                        self.spec_guarded_end(operand)
                    }
                },
            },
        }
    }

    /// Where the conditional ends that starts at `pos`: behind `if` stand a
    /// condition and a block, and behind them what [`Grammar::spec_else_end`]
    /// says.
    #[verifier::opaque]
    pub open spec fn spec_branch_end(&self, pos: int) -> Result<int, Failure>
        decreases self.text.len() - pos, 0int,
    {
        if pos + 2 > self.text.len() {
            Err(self.spec_syntax(pos))
        } else {
            match self.spec_guarded_end(pos + 2) {
                Err(f) => Err(f),
                Ok(end) => if end <= pos || end > self.text.len() {
                    Err(self.spec_syntax(pos))
                } else {
                    self.spec_else_end(end)
                },
            }
        }
    }

    /// Where a conditional ends of which a block ends at `at`: there, unless
    /// `else` follows; behind `else if` stand a condition and a block, and
    /// the conditional goes on; behind `else` alone stands a block, and the
    /// conditional ends with it.
    #[verifier::opaque]
    pub open spec fn spec_else_end(&self, at: int) -> Result<int, Failure>
        decreases self.text.len() - at, 6int,
    {
        let p = spec_skip_blanks(self.text, at);
        let q = spec_skip_blanks(self.text, p + 4);
        if spec_word_at(self.text, p) != "else"@ {
            Ok(at)
        } else if q <= at || q > self.text.len() {
            Err(self.spec_syntax(q))
        } else if spec_word_at(self.text, q) == "if"@ {
            if q + 2 > self.text.len() {
                Err(self.spec_syntax(q))
            } else {
                match self.spec_guarded_end(q + 2) {
                    Err(f) => Err(f),
                    Ok(end) => if end <= at || end > self.text.len() {
                        Err(self.spec_syntax(q))
                    } else {
                        self.spec_else_end(end)
                    },
                }
            }
        } else {
            match self.spec_expected(q, '{') {
                Err(f) => Err(f),
                Ok(open) => if open <= at || open > self.text.len() {
                    Err(self.spec_syntax(q))
                } else {
                    self.spec_body_end(open, Place::Block)
                },
            }
        }
    }

    /// Where the block ends that stands behind the condition at `pos`.
    #[verifier::opaque]
    pub open spec fn spec_guarded_end(&self, pos: int) -> Result<int, Failure>
        decreases self.text.len() - pos, 5int,
    {
        match self.spec_expression_shape(pos, None) {
            Err(f) => Err(f),
            Ok((after, _)) => match self.spec_expected(after, '{') {
                Err(f) => Err(f),
                Ok(open) => if open <= pos || open > self.text.len() {
                    Err(self.spec_syntax(pos))
                } else {
                    self.spec_body_end(open, Place::Block)
                },
            },
        }
    }

    /// Where the block ends, behind its `}`, of which the next statement
    /// starts at or behind `at`: statements stand there with blanks and `;`
    /// between them, up to the `}`.
    #[verifier::opaque]
    pub open spec fn spec_body_end(&self, at: int, place: Place) -> Result<int, Failure>
        decreases self.text.len() - at, 3int,
    {
        let s = spec_skip_separators(self.text, at);
        if s < at || s >= self.text.len() {
            Err(self.spec_syntax(s))
        } else if self.text[s] == '}' {
            Ok(s + 1)
        } else {
            match self.spec_statement_end(s, place) {
                Err(f) => Err(f),
                Ok(end) => if end <= at || end > self.text.len() {
                    Err(self.spec_syntax(s))
                } else {
                    self.spec_body_end(end, place)
                },
            }
        }
    }
}

} // verus!

verus! {

impl Grammar {
    /// Where the list of parameters ends, behind its `)`, of which the next
    /// stands at or behind `at`, in the definition that starts at
    /// `construct`. Blanks and commas stand between the parameters, each of
    /// which is a name with a type. With `with_self` the word `self` may
    /// stand among them, in a method only.
    #[verifier::opaque]
    pub open spec fn spec_parameters_close(
        &self,
        at: int,
        construct: int,
        with_self: bool,
        is_method: bool,
    ) -> Result<int, Failure>
        decreases self.text.len() - at,
    {
        let p = spec_skip_blanks(self.text, at);
        if at <= p < self.text.len() && self.text[p] == ')' {
            Ok(p + 1)
        } else if at <= p < self.text.len() && self.text[p] == ',' {
            self.spec_parameters_close(p + 1, construct, with_self, is_method)
        } else if at <= p && with_self && spec_word_at(self.text, p) == "self"@ {
            if !is_method || p + 4 > self.text.len() {
                Err(self.spec_fail(construct, p + 4, p, Flaw::SelfOutsideMethod))
            } else {
                self.spec_parameters_close(p + 4, construct, with_self, is_method)
            }
        } else {
            match self.spec_annotated_end(p, construct) {
                Err(f) => Err(f),
                Ok((_, end, _)) => if end <= at || end > self.text.len() {
                    Err(self.spec_syntax(p))
                } else {
                    self.spec_parameters_close(end, construct, with_self, is_method)
                },
            }
        }
    }

    /// Where the signature of the function that starts at `construct` ends,
    /// whose parameters end at `at`: behind `->` and the name of a known
    /// type, or at `at` where no `->` follows.
    pub open spec fn spec_signature_end(&self, at: int, construct: int) -> Result<int, Failure> {
        let p = spec_skip_blanks(self.text, at);
        if !spec_looking_at(self.text, p, "->"@) {
            Ok(at)
        } else {
            match self.spec_worded(p + 2) {
                Err(f) => Err(f),
                Ok((type_start, type_end)) => {
                    let typename = self.text.subrange(type_start, type_end);
                    if self.types.contains_key(typename) {
                        Ok(type_end)
                    } else {
                        Err(
                            self.spec_fail(
                                construct,
                                type_end,
                                type_start,
                                Flaw::UnknownType(typename),
                            ),
                        )
                    }
                },
            }
        }
    }

    /// Where the name of the function stands that is defined at `pos`, where
    /// `fn` stands, where its signature ends, and where the definition ends;
    /// or why no function is defined there.
    ///
    /// Behind `fn` stand the name, an identifier; the parameters in
    /// parentheses; the return type, or none; and the body, a block.
    #[verifier::opaque]
    pub open spec fn spec_function_end(&self, pos: int, is_method: bool) -> Result<
        (int, int, int, int),
        Failure,
    > {
        match self.spec_worded(pos + 2) {
            Err(f) => Err(f),
            Ok((name_start, name_end)) => match self.spec_refused(
                self.text.subrange(name_start, name_end),
                self.spec_context(pos as usize, name_end as usize),
                spec_minus(name_start, pos) as usize,
            ) {
                Some(f) => Err(f),
                None => match self.spec_expected(name_end, '(') {
                    Err(f) => Err(f),
                    Ok(open) => match self.spec_parameters_close(open, pos, true, is_method) {
                        Err(f) => Err(f),
                        Ok(at) => match self.spec_signature_end(at, pos) {
                            Err(f) => Err(f),
                            Ok(signature_end) => match self.spec_expected(signature_end, '{') {
                                Err(f) => Err(f),
                                Ok(body) => match self.spec_body_end(body, Place::Function) {
                                    Err(f) => Err(f),
                                    Ok(end) => Ok((name_start, name_end, signature_end, end)),
                                },
                            },
                        },
                    },
                },
            },
        }
    }

    /// Where the name of the property stands that is written at `at`, in
    /// the member that starts at `start`, and where the property ends; or
    /// why no property of the class `typeid` stands there, behind the
    /// properties of the names given.
    ///
    /// A property is a name with a type, which is not the class, `=`, and an
    /// expression that does not call the constructor of the class outside
    /// the arguments of a call. Its name is that of no property before it.
    #[verifier::opaque]
    pub open spec fn spec_property_end(
        &self,
        start: int,
        at: int,
        typeid: usize,
        names: Set<Seq<char>>,
    ) -> Result<(int, int), Failure> {
        match self.spec_annotated_end(at, start) {
            Err(f) => Err(f),
            Ok((name_start, id_end, annotated)) => if annotated == typeid {
                Err(self.spec_fail(start, id_end, at, Flaw::RecursiveType))
            } else if names.contains(spec_word_at(self.text, name_start)) {
                Err(self.spec_fail(start, id_end, at, Flaw::MemberAlreadyDefined))
            } else {
                match self.spec_expected(id_end, '=') {
                    Err(f) => Err(f),
                    Ok(after) => match self.spec_expression_shape(after, Some(typeid)) {
                        Err(f) => Err(f),
                        Ok((end, shape)) => if shape.made {
                            Err(self.spec_fail(start, end, at, Flaw::RecursiveType))
                        } else {
                            Ok((name_start, end))
                        },
                    },
                }
            },
        }
    }

    /// The failure of a function that is defined at `pos` with its name at
    /// `name_start` and its signature up to `signature_end`, under a name
    /// that another function has.
    pub open spec fn spec_defined_twice(&self, pos: int, name_start: int, signature_end: int) -> Failure {
        Failure {
            context: self.spec_context(pos as usize, signature_end as usize),
            pos: spec_minus(name_start, pos) as usize,
            flaw: Flaw::FunctionAlreadyDefined,
        }
    }

    /// Where the body of the class `typeid` ends, behind its `}`, of which
    /// the next member starts at or behind `at`. `properties` and
    /// `functions` hold the names of the members before.
    ///
    /// The word `pub` may stand in front of a member. A member is a function,
    /// which is a method, or a property; no two properties have one name,
    /// and no two functions.
    #[verifier::opaque]
    pub open spec fn spec_members_close(
        &self,
        at: int,
        typeid: usize,
        properties: Set<Seq<char>>,
        functions: Set<Seq<char>>,
    ) -> Result<int, Failure>
        decreases self.text.len() - at,
    {
        let start = spec_skip_separators(self.text, at);
        let member = if spec_word_at(self.text, start) == "pub"@ {
            spec_skip_blanks(self.text, start + 3)
        } else {
            start
        };
        if at <= start < self.text.len() && self.text[start] == '}' {
            Ok(start + 1)
        } else if start < at || member < 0 || member >= self.text.len() {
            Err(self.spec_syntax(member))
        } else if spec_word_at(self.text, member) == "fn"@ {
            match self.spec_function_end(member, true) {
                Err(f) => Err(f),
                Ok((name_start, name_end, signature_end, end)) => if functions.contains(
                    self.text.subrange(name_start, name_end),
                ) {
                    Err(self.spec_defined_twice(member, name_start, signature_end))
                } else if end <= at || end > self.text.len() {
                    Err(self.spec_syntax(member))
                } else {
                    self.spec_members_close(
                        end,
                        typeid,
                        properties,
                        functions.insert(self.text.subrange(name_start, name_end)),
                    )
                },
            }
        } else {
            match self.spec_property_end(start, member, typeid, properties) {
                Err(f) => Err(f),
                Ok((name_start, end)) => if end <= at || end > self.text.len() {
                    Err(self.spec_syntax(member))
                } else {
                    self.spec_members_close(
                        end,
                        typeid,
                        properties.insert(spec_word_at(self.text, name_start)),
                        functions,
                    )
                },
            }
        }
    }

    /// Where the name of the class stands that is defined at `pos`, where
    /// `class` stands, and where its body starts, behind the `{`; or why no
    /// class is defined there. The class gets the type-id `typeid`.
    ///
    /// Behind `class` stand the name, an identifier, and the parameters of
    /// the constructor in parentheses, or none. For the parameters the name
    /// is known as a type already.
    pub open spec fn spec_class_open(&self, pos: int, typeid: usize) -> Result<
        (int, int, int),
        Failure,
    > {
        match self.spec_worded(pos + 5) {
            Err(f) => Err(f),
            Ok((name_start, name_end)) => {
                let name = self.text.subrange(name_start, name_end);
                let a = spec_skip_blanks(self.text, name_end);
                match self.spec_refused(
                    name,
                    self.spec_context(pos as usize, name_end as usize),
                    spec_minus(name_start, pos) as usize,
                ) {
                    Some(f) => Err(f),
                    None => match (if 0 <= a < self.text.len() && self.text[a] == '(' {
                        self.spec_with_type(name, typeid).spec_parameters_close(
                            a + 1,
                            name_end,
                            false,
                            false,
                        )
                    } else {
                        Ok(a)
                    }) {
                        Err(f) => Err(f),
                        Ok(after) => match self.spec_expected(after, '{') {
                            Err(f) => Err(f),
                            Ok(open) => Ok((name_start, name_end, open)),
                        },
                    },
                }
            },
        }
    }

    /// Where the name of the class stands that is defined at `pos`, where
    /// `class` stands, and where the definition ends; or why no class is
    /// defined there. The class gets the type-id `typeid`.
    ///
    /// Behind the head of the class ([`Grammar::spec_class_open`]) stand the
    /// members in braces. From its name on the class is known as a type.
    pub open spec fn spec_class_end(&self, pos: int, typeid: usize) -> Result<
        (int, int, int),
        Failure,
    > {
        match self.spec_class_open(pos, typeid) {
            Err(f) => Err(f),
            Ok((name_start, name_end, open)) => match self.spec_with_type(
                self.text.subrange(name_start, name_end),
                typeid,
            ).spec_members_close(open, typeid, Set::empty(), Set::empty()) {
                Err(f) => Err(f),
                Ok(end) => Ok((name_start, name_end, end)),
            },
        }
    }

    /// Whether a program stands in the text from `at` on, or why none does:
    /// items with blanks and `;` between them, up to the end of the text.
    /// `types` are the types known at `at`, `next` is the type-id that the
    /// next class gets, and `functions` holds the names of the functions
    /// that are defined.
    ///
    /// The word `class` starts a class, which gets the next type-id, as long
    /// as there is one, and is known as a type from there on. The word `fn`
    /// starts a function, whose name no function has yet. Anything else is
    /// a statement.
    #[verifier::opaque]
    pub open spec fn spec_program_stands(
        &self,
        at: int,
        types: Map<Seq<char>, usize>,
        next: usize,
        functions: Set<Seq<char>>,
    ) -> Result<(), Failure>
        decreases self.text.len() - at,
    {
        let start = spec_skip_separators(self.text, at);
        let here = self.spec_with_types(types);
        if start < at {
            Err(self.spec_syntax(start))
        } else if start >= self.text.len() {
            Ok(())
        } else if spec_word_at(self.text, start) == "class"@ {
            match here.spec_class_end(start, next) {
                Err(f) => Err(f),
                Ok((name_start, name_end, end)) => if next >= usize::MAX || end <= at || end
                    > self.text.len() {
                    Err(self.spec_syntax(start))
                } else {
                    self.spec_program_stands(
                        end,
                        types.insert(self.text.subrange(name_start, name_end), next),
                        (next + 1) as usize,
                        functions,
                    )
                },
            }
        } else if spec_word_at(self.text, start) == "fn"@ {
            match here.spec_function_end(start, false) {
                Err(f) => Err(f),
                Ok((name_start, name_end, signature_end, end)) => if functions.contains(
                    self.text.subrange(name_start, name_end),
                ) {
                    Err(self.spec_defined_twice(start, name_start, signature_end))
                } else if end <= at || end > self.text.len() {
                    Err(self.spec_syntax(start))
                } else {
                    self.spec_program_stands(
                        end,
                        types,
                        next,
                        functions.insert(self.text.subrange(name_start, name_end)),
                    )
                },
            }
        } else {
            match here.spec_statement_end(start, Place::Program) {
                Err(f) => Err(f),
                Ok(end) => if end <= at || end > self.text.len() {
                    Err(self.spec_syntax(start))
                } else {
                    self.spec_program_stands(end, types, next, functions)
                },
            }
        }
    }
}

} // verus!
