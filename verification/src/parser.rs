//! Lowering of source text to the instruction tree.

use vstd::prelude::*;
use vstd::hash_map::StringHashMap;
use crate::error::{Context, Error, ErrorKind};
use crate::expression::{spec_postfix, Expression};
use crate::branch::{Branch, BranchBody};
use crate::builtin::{TYPEID_DYN, TYPEID_NONE};
use crate::class::{ClassDefinition, ClassFunction, PropertyDefinition};
use crate::for_loop::ForLoop;
use crate::function::{Function, FunctionCall, Return, UserFunction};
use crate::grammar::{
    lemma_halted_from, lemma_lowered_from, lemma_lowering_end, lemma_lowering_halt,
    lemma_lowering_start, lemma_lowering_step, lemma_members_prefix, lemma_skip_blanks,
    spec_classes_of, spec_expect, spec_gap, spec_gap_self, spec_halted,
    spec_lowered, spec_lowering, spec_methods, spec_properties, spec_registered,
    spec_failure, spec_flaw, spec_lone, spec_member, spec_skip_separators, spec_statements_of, spec_tail_fits, spec_word, Expect, Grammar, Item,
    Failure, Kind, Member, Shape, Tail, spec_fresh_functions,
};
use crate::instruction::{Break, Instruction, VariableAssign, VariableInit};
use crate::session::ParseSession;
use crate::token::{Operator, Parenthesis, Token, TokenKind};
use crate::variable::{AnnotatedIdentifier, OptionallyAnnotatedIdentifier};
use crate::while_loop::WhileLoop;
use crate::text::to_chars;

verus! {

/// `x + 1`, held at `usize::MAX`.
pub open spec fn spec_succ(x: int) -> int {
    if x < usize::MAX {
        x + 1
    } else {
        usize::MAX as int
    }
}

pub fn succ(x: usize) -> (r: usize)
    ensures
        r == spec_succ(x as int),
{
    if x < usize::MAX {
        x + 1
    } else {
        x
    }
}

/// Number of line breaks among the first `n` characters of `text`.
pub open spec fn spec_newlines_before(text: Seq<char>, n: int) -> int
    decreases n,
{
    if n <= 0 || n > text.len() {
        0
    } else {
        spec_newlines_before(text, n - 1) + if text[n - 1] == '\n' {
            1int
        } else {
            0int
        }
    }
}

/// Index of the first character of the line that holds index `n`: the index
/// just after the last line break among the first `n` characters, or `0`.
pub open spec fn spec_line_start(text: Seq<char>, n: int) -> int
    decreases n,
{
    if n <= 0 || n > text.len() {
        0
    } else if text[n - 1] == '\n' {
        n
    } else {
        spec_line_start(text, n - 1)
    }
}

/// Index of the line break that ends the line holding index `i`, or the
/// length of the text where no line break follows.
pub open spec fn spec_line_end(text: Seq<char>, i: int) -> int
    decreases text.len() - i,
{
    if i < 0 || i >= text.len() {
        text.len() as int
    } else if text[i] == '\n' {
        i
    } else {
        spec_line_end(text, i + 1)
    }
}

/// A position inside the text, or its end for a position beyond it.
pub open spec fn spec_clamp(pos: int, len: int) -> int {
    if pos > len {
        len
    } else {
        pos
    }
}

/// One-based line and column of character index `pos`: one more than the
/// number of line breaks among the first `pos` characters, and one more than
/// the distance of `pos` from the start of its line. A position beyond the
/// text stands on the last line, as far from its start as the position is.
pub open spec fn spec_line_column(pos: int, text: Seq<char>) -> (int, int) {
    let at = spec_clamp(pos, text.len() as int);
    (spec_succ(spec_newlines_before(text, at)), spec_succ(pos - spec_line_start(text, at)))
}

/// The start of a line has as many line breaks before it as any position on
/// that line.
pub proof fn lemma_line_start_same_line(text: Seq<char>, n: int)
    requires
        0 <= n <= text.len(),
    ensures
        spec_newlines_before(text, spec_line_start(text, n)) == spec_newlines_before(text, n),
    decreases n,
{
    if n > 0 && text[n - 1] != '\n' {
        lemma_line_start_same_line(text, n - 1);
    }
}

/// Line breaks before `at` and the start of the line that holds `at`.
pub fn scan_line(text: &Vec<char>, at: usize) -> (r: (usize, usize))
    requires
        at <= text.len(),
    ensures
        r.0 == spec_newlines_before(text@, at as int),
        r.1 == spec_line_start(text@, at as int),
        r.0 <= at,
        r.1 <= at,
{
    let mut count: usize = 0;
    let mut start: usize = 0;
    let mut i: usize = 0;
    while i < at
        invariant
            i <= at <= text.len(),
            count == spec_newlines_before(text@, i as int),
            start == spec_line_start(text@, i as int),
            count <= i,
            start <= i,
        decreases at - i,
    {
        if text[i] == '\n' {
            count = count + 1;
            start = i + 1;
        }
        i = i + 1;
    }
    (count, start)
}

/// Index of the line break that ends the line holding `from`.
pub fn line_end(text: &Vec<char>, from: usize) -> (e: usize)
    requires
        from <= text.len(),
    ensures
        e == spec_line_end(text@, from as int),
        from <= e <= text.len(),
{
    let mut i: usize = from;
    while i < text.len() && text[i] != '\n'
        invariant
            from <= i <= text.len(),
            spec_line_end(text@, i as int) == spec_line_end(text@, from as int),
        decreases text.len() - i,
    {
        i = i + 1;
    }
    i
}

/// One-based line and column of character index `pos` in `text`.
pub fn line_column(pos: usize, text: &Vec<char>) -> (r: (usize, usize))
    ensures
        (r.0 as int, r.1 as int) == spec_line_column(pos as int, text@),
{
    let at = if pos > text.len() {
        text.len()
    } else {
        pos
    };
    let (count, start) = scan_line(text, at);
    (succ(count), succ(pos - start))
}

/// One-based line and column of character index `pos` in `text`.
#[inline]
pub fn get_line_column(pos: usize, text: &str) -> (r: (usize, usize))
    ensures
        (r.0 as int, r.1 as int) == spec_line_column(pos as int, text@),
{
    let chars = to_chars(text);
    line_column(pos, &chars)
}

} // verus!

verus! {

/// `a + b`, held at `usize::MAX`.
pub open spec fn spec_plus(a: int, b: int) -> int {
    if a + b > usize::MAX {
        usize::MAX as int
    } else {
        a + b
    }
}

pub fn plus(a: usize, b: usize) -> (r: usize)
    ensures
        r == spec_plus(a as int, b as int),
{
    if a > usize::MAX - b {
        usize::MAX
    } else {
        a + b
    }
}

/// `a - b`, held at `0`.
pub open spec fn spec_minus(a: int, b: int) -> int {
    if a < b {
        0
    } else {
        a - b
    }
}

pub fn minus(a: usize, b: usize) -> (r: usize)
    ensures
        r == spec_minus(a as int, b as int),
{
    if a < b {
        0
    } else {
        a - b
    }
}

/// The characters that names are made of: letters, digits and `_`.
pub open spec fn spec_is_word_char(c: char) -> bool {
    ||| 'a' as u32 <= c as u32 <= 'z' as u32
    ||| 'A' as u32 <= c as u32 <= 'Z' as u32
    ||| spec_is_digit(c)
    ||| c == '_'
}

pub open spec fn spec_is_digit(c: char) -> bool {
    '0' as u32 <= c as u32 <= '9' as u32
}

/// Blanks between tokens: space, tab, carriage return and line break.
pub open spec fn spec_is_blank(c: char) -> bool {
    c == ' ' || c == '\t' || c == '\r' || c == '\n'
}

pub fn is_digit(c: char) -> (b: bool)
    ensures
        b == spec_is_digit(c),
{
    '0' as u32 <= c as u32 && c as u32 <= '9' as u32
}

pub fn is_word_char(c: char) -> (b: bool)
    ensures
        b == spec_is_word_char(c),
{
    let u = c as u32;
    ('a' as u32 <= u && u <= 'z' as u32) || ('A' as u32 <= u && u <= 'Z' as u32) || is_digit(c)
        || c == '_'
}

pub fn is_blank(c: char) -> (b: bool)
    ensures
        b == spec_is_blank(c),
{
    c == ' ' || c == '\t' || c == '\r' || c == '\n'
}

/// End of the longest run of word characters that starts at `pos`.
pub open spec fn spec_word_end(text: Seq<char>, pos: int) -> int
    decreases text.len() - pos,
{
    if 0 <= pos < text.len() && spec_is_word_char(text[pos]) {
        spec_word_end(text, pos + 1)
    } else {
        pos
    }
}

/// End of the longest run of digits that starts at `pos`.
pub open spec fn spec_digits_end(text: Seq<char>, pos: int) -> int
    decreases text.len() - pos,
{
    if 0 <= pos < text.len() && spec_is_digit(text[pos]) {
        spec_digits_end(text, pos + 1)
    } else {
        pos
    }
}

/// End of the longest run of blanks that starts at `pos`.
pub open spec fn spec_skip_blanks(text: Seq<char>, pos: int) -> int
    decreases text.len() - pos,
{
    if 0 <= pos < text.len() && spec_is_blank(text[pos]) {
        spec_skip_blanks(text, pos + 1)
    } else {
        pos
    }
}

pub fn word_end(text: &Vec<char>, pos: usize) -> (e: usize)
    requires
        pos <= text.len(),
    ensures
        e == spec_word_end(text@, pos as int),
        pos <= e <= text.len(),
{
    let mut i: usize = pos;
    while i < text.len() && is_word_char(text[i])
        invariant
            pos <= i <= text.len(),
            spec_word_end(text@, i as int) == spec_word_end(text@, pos as int),
        decreases text.len() - i,
    {
        i = i + 1;
    }
    i
}

pub fn digits_end(text: &Vec<char>, pos: usize) -> (e: usize)
    requires
        pos <= text.len(),
    ensures
        e == spec_digits_end(text@, pos as int),
        pos <= e <= text.len(),
{
    let mut i: usize = pos;
    while i < text.len() && is_digit(text[i])
        invariant
            pos <= i <= text.len(),
            spec_digits_end(text@, i as int) == spec_digits_end(text@, pos as int),
        decreases text.len() - i,
    {
        i = i + 1;
    }
    i
}

pub fn skip_blanks(text: &Vec<char>, pos: usize) -> (e: usize)
    requires
        pos <= text.len(),
    ensures
        e == spec_skip_blanks(text@, pos as int),
        pos <= e <= text.len(),
{
    let mut i: usize = pos;
    while i < text.len() && is_blank(text[i])
        invariant
            pos <= i <= text.len(),
            spec_skip_blanks(text@, i as int) == spec_skip_blanks(text@, pos as int),
        decreases text.len() - i,
    {
        i = i + 1;
    }
    i
}

/// The character that a backslash followed by `c` stands for, where the
/// pair is an escape.
pub open spec fn spec_escape(c: char) -> Option<char> {
    if c == '"' {
        Some('"')
    } else if c == 'n' {
        Some('\n')
    } else if c == 't' {
        Some('\t')
    } else if c == '\\' {
        Some('\\')
    } else {
        None
    }
}

/// The text that the inside of a string literal stands for, read from
/// character `i` on: an escape gives its character, any other character
/// stands for itself.
pub open spec fn spec_unescape_from(raw: Seq<char>, i: int) -> Seq<char>
    decreases raw.len() - i,
{
    if i < 0 || i >= raw.len() {
        Seq::empty()
    } else if raw[i] == '\\' && i + 1 < raw.len() && spec_escape(raw[i + 1]) is Some {
        seq![spec_escape(raw[i + 1])->0] + spec_unescape_from(raw, i + 2)
    } else {
        seq![raw[i]] + spec_unescape_from(raw, i + 1)
    }
}

/// The text that the inside of a string literal stands for.
pub open spec fn spec_unescape(raw: Seq<char>) -> Seq<char> {
    spec_unescape_from(raw, 0)
}

pub fn escape(c: char) -> (r: Option<char>)
    ensures
        r == spec_escape(c),
{
    if c == '"' {
        Some('"')
    } else if c == 'n' {
        Some('\n')
    } else if c == 't' {
        Some('\t')
    } else if c == '\\' {
        Some('\\')
    } else {
        None
    }
}

/// The text that `text[from..to]`, the inside of a string literal, stands
/// for.
pub fn unescape(text: &Vec<char>, from: usize, to: usize) -> (out: Vec<char>)
    requires
        from <= to <= text.len(),
    ensures
        out@ == spec_unescape(text@.subrange(from as int, to as int)),
{
    let ghost raw = text@.subrange(from as int, to as int);
    let mut out: Vec<char> = Vec::new();
    let mut i: usize = from;
    while i < to
        invariant
            from <= i <= to <= text.len(),
            raw == text@.subrange(from as int, to as int),
            out@ + spec_unescape_from(raw, i - from) == spec_unescape(raw),
        decreases to - i,
    {
        let c = text[i];
        let escaped = if c == '\\' && i + 1 < to {
            escape(text[i + 1])
        } else {
            None
        };
        let ghost before = out@;
        match escaped {
            Some(e) => {
                out.push(e);
                assert(out@ + spec_unescape_from(raw, i - from + 2) =~= before + spec_unescape_from(
                    raw,
                    i - from,
                ));
                i = i + 2;
            },
            None => {
                out.push(c);
                assert(out@ + spec_unescape_from(raw, i - from + 1) =~= before + spec_unescape_from(
                    raw,
                    i - from,
                ));
                i = i + 1;
            },
        }
    }
    assert(out@ =~= out@ + spec_unescape_from(raw, to - from));
    out
}

/// The words that cannot name anything.
pub open spec fn spec_is_keyword(name: Seq<char>) -> bool {
    ||| name == "dyn"@
    ||| name == "and"@
    ||| name == "break"@
    ||| name == "class"@
    ||| name == "else"@
    ||| name == "fn"@
    ||| name == "for"@
    ||| name == "if"@
    ||| name == "in"@
    ||| name == "let"@
    ||| name == "new"@
    ||| name == "none"@
    ||| name == "not"@
    ||| name == "or"@
    ||| name == "return"@
    ||| name == "self"@
    ||| name == "typeof"@
    ||| name == "while"@
}

fn same(name: &str, word: &str) -> (b: bool)
    ensures
        b == (name@ == word@),
{
    let a = crate::text::to_chars(name);
    let b = crate::text::to_chars(word);
    crate::text::same_text(&a, &b)
}

pub fn is_keyword(name: &str) -> (b: bool)
    ensures
        b == spec_is_keyword(name@),
{
    same(name, "dyn") || same(name, "and") || same(name, "break") || same(name, "class") || same(
        name,
        "else",
    ) || same(name, "fn") || same(name, "for") || same(name, "if") || same(name, "in") || same(
        name,
        "let",
    ) || same(name, "new") || same(name, "none") || same(name, "not") || same(name, "or") || same(
        name,
        "return",
    ) || same(name, "self") || same(name, "typeof") || same(name, "while")
}

/// The kinds of error that lowering source text can end with.
pub open spec fn spec_is_lowering_error(kind: ErrorKind) -> bool {
    ||| kind is SyntaxError
    ||| kind is IdentifierIsKeyword
    ||| kind is IdentifierIsTypename
    ||| kind is UnknownType
    ||| kind is MissingAnnotation
    ||| kind is SelfOutsideMethod
    ||| kind is FunctionAlreadyDefined
    ||| kind is MemberAlreadyDefined
    ||| kind is RecursiveType
}

/// The state of lowering one piece of source text: the text, where it
/// starts in the source buffer, the whole buffer, and the types known so
/// far.
pub struct Builder {
    pub offset: usize,
    pub text: Vec<char>,
    pub source: Vec<char>,
    pub type_map: StringHashMap<usize>,
}

impl View for Builder {
    type V = Grammar;

    open spec fn view(&self) -> Grammar {
        Grammar {
            offset: self.offset,
            text: self.text@,
            source: self.source@,
            types: self.type_map@,
        }
    }
}

impl Builder {
    /// Every position of this text is a position of the source buffer that
    /// an index can hold.
    pub open spec fn spec_fits(&self) -> bool {
        self.offset + self.text@.len() <= usize::MAX
    }
}

impl Builder {
    #[inline]
    pub fn new(offset: usize, text: Vec<char>, source: Vec<char>, type_map: StringHashMap<usize>) -> (b:
        Self)
        ensures
            b.offset == offset,
            b.text == text,
            b.source == source,
            b.type_map == type_map,
    {
        Builder { offset, text, source, type_map }
    }

    #[inline]
    pub fn get_typeid(&self, typename: &str) -> (r: Option<usize>)
        ensures
            r == if self.type_map@.contains_key(typename@) {
                Some(self.type_map@[typename@])
            } else {
                None
            },
    {
        match self.type_map.get(typename) {
            Some(id) => Some(*id),
            None => None,
        }
    }

    #[inline]
    pub fn register_type(&mut self, name: String, typeid: usize)
        ensures
            final(self).type_map@ == old(self).type_map@.insert(name@, typeid),
            final(self).offset == old(self).offset,
            final(self).text == old(self).text,
            final(self).source == old(self).source,
    {
        self.type_map.insert(name, typeid);
    }

    /// A name may be neither a keyword nor the name of a type.
    #[inline]
    pub fn validate_identifier(&self, identifier: &str, context: Context, pos: usize) -> (r: Result<
        (),
        Error,
    >)
        ensures
            r matches Err(e) ==> spec_is_lowering_error(e.kind),
            spec_is_keyword(identifier@) ==> (r matches Err(e) && e.kind is IdentifierIsKeyword
                && e.context == context && e.pos == pos),
            !spec_is_keyword(identifier@) && self.type_map@.contains_key(identifier@) ==> (
            r matches Err(e) && e.kind is IdentifierIsTypename && e.context == context && e.pos
                == pos),
            !spec_is_keyword(identifier@) && !self.type_map@.contains_key(identifier@) ==> r is Ok,
            match self@.spec_refused(identifier@, context, pos) {
                Some(f) => r matches Err(e) && spec_failure(e) == f,
                None => r is Ok,
            },
    {
        if is_keyword(identifier) {
            return Err(Error::new(context, pos, ErrorKind::IdentifierIsKeyword));
        }
        match self.get_typeid(identifier) {
            Some(_) => Err(Error::new(context, pos, ErrorKind::IdentifierIsTypename)),
            None => Ok(()),
        }
    }

    /// The span `[start, end)` of this text as a span of the source buffer.
    pub open spec fn spec_context(&self, start: usize, end: usize) -> Context {
        Context {
            start: spec_plus(self.offset as int, start as int) as usize,
            end: spec_plus(self.offset as int, end as int) as usize,
        }
    }

    #[inline]
    pub fn get_context(&self, start: usize, end: usize) -> (c: Context)
        ensures
            c == self.spec_context(start, end),
    {
        Context { start: plus(self.offset, start), end: plus(self.offset, end) }
    }

    /// An error of the given kind for the construct `[start, end)`, marked
    /// at character `at` of this text.
    fn fail(&self, start: usize, end: usize, at: usize, kind: ErrorKind) -> (e: Error)
        ensures
            e.context == self.spec_context(start, end),
            e.pos == spec_minus(at as int, start as int),
            e.kind == kind,
            spec_failure(e) == self@.spec_fail(
                start as int,
                end as int,
                at as int,
                spec_flaw(kind),
            ),
    {
        Error::new(self.get_context(start, end), minus(at, start), kind)
    }

    /// A syntax error at character `at`: its span is the line that holds
    /// the character.
    fn syntax_error(&self, at: usize) -> (e: Error)
        ensures
            e.kind is SyntaxError,
            ({
                let p = spec_clamp(at as int, self.text@.len() as int);
                let start = spec_line_start(self.text@, p);
                e.context == self.spec_context(start as usize, spec_line_end(self.text@, p) as usize)
                    && e.pos == p - start
            }),
            spec_failure(e) == self@.spec_syntax(at as int),
    {
        let p = if at > self.text.len() {
            self.text.len()
        } else {
            at
        };
        let (_, start) = scan_line(&self.text, p);
        let end = line_end(&self.text, p);
        Error::new(self.get_context(start, end), p - start, ErrorKind::SyntaxError)
    }

    /// The characters `[from, to)` of this text as a string.
    fn slice(&self, from: usize, to: usize) -> (s: String)
        requires
            from <= to <= self.text@.len(),
        ensures
            s@ == self.text@.subrange(from as int, to as int),
    {
        let mut out: Vec<char> = Vec::new();
        crate::text::push_range(&mut out, &self.text, from, to);
        assert(out@ =~= self.text@.subrange(from as int, to as int));
        crate::text::from_chars(&out)
    }

    /// Whether the characters at `pos` are those of `word`.
    fn looking_at(&self, pos: usize, word: &str) -> (b: bool)
        requires
            pos <= self.text@.len(),
        ensures
            b == (pos + word@.len() <= self.text@.len() && self.text@.subrange(
                pos as int,
                pos + word@.len(),
            ) == word@),
    {
        let w = crate::text::to_chars(word);
        if w.len() > self.text.len() - pos {
            return false;
        }
        let mut i: usize = 0;
        while i < w.len()
            invariant
                i <= w.len(),
                w@ == word@,
                pos + w.len() <= self.text.len(),
                self.text@.subrange(pos as int, pos + i) == w@.subrange(0, i as int),
            decreases w.len() - i,
        {
            if self.text[pos + i] != w[i] {
                assert(self.text@.subrange(pos as int, pos + w.len())[i as int] != w@[i as int]);
                return false;
            }
            i = i + 1;
            assert(self.text@.subrange(pos as int, pos + i) =~= self.text@.subrange(
                pos as int,
                pos + i - 1,
            ).push(self.text@[pos + i - 1]));
            assert(w@.subrange(0, i as int) =~= w@.subrange(0, i - 1).push(w@[i - 1]));
        }
        assert(w@.subrange(0, w.len() as int) =~= w@);
        true
    }

    /// Whether the word that starts at `pos` is exactly `word`.
    fn word_is(&self, pos: usize, word: &str) -> (b: bool)
        requires
            pos <= self.text@.len(),
        ensures
            b == (self.text@.subrange(pos as int, spec_word_end(self.text@, pos as int)) == word@),
            b ==> spec_word_end(self.text@, pos as int) == pos + word@.len() && pos + word@.len()
                <= self.text@.len() && pos + word@.len() <= usize::MAX,
    {
        let e = word_end(&self.text, pos);
        let w = crate::text::to_chars(word);
        if e - pos != w.len() {
            return false;
        }
        self.looking_at(pos, word)
    }

    /// The character at `pos`, if the text reaches that far.
    fn peek(&self, pos: usize) -> (r: Option<char>)
        ensures
            r == if pos < self.text@.len() {
                Some(self.text@[pos as int])
            } else {
                None
            },
            r is Some ==> pos < usize::MAX,
    {
        if pos < self.text.len() {
            Some(self.text[pos])
        } else {
            None
        }
    }
}

} // verus!

verus! {

impl Builder {
    /// The binary operator written at `pos`, with the number of characters
    /// it takes.
    fn binary_operator_at(&self, pos: usize) -> (r: Option<(Operator, usize)>)
        requires
            pos <= self.text@.len(),
        ensures
            r == spec_binary_operator_at(self.text@, pos as int),
            r matches Some((_, width)) ==> 1 <= width && pos + width <= self.text@.len() && pos + width
                <= usize::MAX,
    {
        let c = match self.peek(pos) {
            Some(c) => c,
            None => {
                return None;
            },
        };
        let len = self.text.len();
        if c == '+' {
            Some((Operator::Add, 1))
        } else if c == '-' {
            Some((Operator::Sub, 1))
        } else if c == '*' {
            Some((Operator::Mult, 1))
        } else if c == '/' {
            Some((Operator::Div, 1))
        } else if c == '%' {
            Some((Operator::Mod, 1))
        } else if c == '^' {
            Some((Operator::Pow, 1))
        } else if c == '<' {
            Some((Operator::LessThan, 1))
        } else if c == '>' {
            Some((Operator::GreaterThan, 1))
        } else if self.looking_at(pos, "==") {
            proof {
                reveal_strlit("==");
            }
            Some((Operator::Equal, 2))
        } else if self.looking_at(pos, "!=") {
            proof {
                reveal_strlit("!=");
            }
            Some((Operator::NotEqual, 2))
        } else if self.word_is(pos, "and") {
            proof {
                reveal_strlit("and");
            }
            Some((Operator::And, 3))
        } else if self.word_is(pos, "or") {
            proof {
                reveal_strlit("or");
            }
            Some((Operator::Or, 2))
        } else {
            None
        }
    }

    /// The unary operator written at `pos`, with the number of characters
    /// it takes.
    fn unary_operator_at(&self, pos: usize) -> (r: Option<(Operator, usize)>)
        requires
            pos <= self.text@.len(),
        ensures
            r == spec_unary_operator_at(self.text@, pos as int),
            r matches Some((_, width)) ==> 1 <= width && pos + width <= self.text@.len() && pos + width
                <= usize::MAX,
    {
        let len = self.text.len();
        match self.peek(pos) {
            None => None,
            Some(c) => {
                if c == '-' {
                    Some((Operator::Neg, 1))
                } else if self.word_is(pos, "not") {
                    proof {
                        reveal_strlit("not");
                    }
                    Some((Operator::Not, 3))
                } else if self.word_is(pos, "typeof") {
                    proof {
                        reveal_strlit("typeof");
                    }
                    Some((Operator::Typeof, 6))
                } else {
                    None
                }
            },
        }
    }

    /// Lowers the expression that starts at or after `pos`. It succeeds
    /// exactly where an expression stands there
    /// ([`Grammar::spec_expression_shape`]), and the expression is then what
    /// [`Grammar::spec_expression_at`] says.
    pub fn build_expression(&self, pos: usize, private_access_typeid: Option<usize>) -> (r: Result<
        (Expression, usize),
        Error,
    >)
        requires
            pos <= self.text@.len(),
            self.spec_fits(),
        ensures
            r matches Err(e) ==> spec_is_lowering_error(e.kind),
            r matches Ok((_, end)) ==> pos < end <= self.text@.len(),
            r matches Ok((e, end)) ==> e.private_access_typeid == private_access_typeid
                && e.context == self.spec_context(
                spec_skip_blanks(self.text@, pos as int) as usize,
                end,
            ) && self@.spec_expression_at(pos as int, &e, private_access_typeid) == Some(end as int),
            match self@.spec_expression_shape(pos as int, None) {
                Ok((e, _)) => r matches Ok((_, end)) && end == e,
                Err(f) => r matches Err(e) && spec_failure(e) == f,
            },
            (exists|expression: Expression| #[trigger]
                self@.spec_expression_at(pos as int, &expression, private_access_typeid) is Some)
                ==> r is Ok,
        decreases self.text@.len() - pos, 6int,
    {
        proof {
            if exists|expression: Expression| #[trigger]
                self@.spec_expression_at(pos as int, &expression, private_access_typeid) is Some {
                let expression = choose|expression: Expression| #[trigger]
                    self@.spec_expression_at(pos as int, &expression, private_access_typeid)
                        is Some;
                let end = match self@.spec_expression_at(
                    pos as int,
                    &expression,
                    private_access_typeid,
                ) {
                    Some(end) => end,
                    None => 0,
                };
                self@.lemma_expression(pos as int, &expression, private_access_typeid, None, end);
            }
        }
        let (expression, end, _) = self.build_expression_watching(
            pos,
            private_access_typeid,
            None,
        )?;
        Ok((expression, end))
    }

    /// Lowers the expression that starts at or after `pos`, as
    /// [`Builder::build_expression`] does, and gives besides whether it
    /// calls, outside the arguments of any call, the constructor `new` of
    /// the type `watch`.
    fn build_expression_watching(
        &self,
        pos: usize,
        private_access_typeid: Option<usize>,
        watch: Option<usize>,
    ) -> (r: Result<(Expression, usize, bool), Error>)
        requires
            pos <= self.text@.len(),
            self.spec_fits(),
        ensures
            r matches Err(e) ==> spec_is_lowering_error(e.kind),
            r matches Ok((_, end, _)) ==> pos < end <= self.text@.len(),
            r matches Ok((e, end, _)) ==> e.private_access_typeid == private_access_typeid
                && e.context == self.spec_context(
                spec_skip_blanks(self.text@, pos as int) as usize,
                end,
            ) && self@.spec_expression_at(pos as int, &e, private_access_typeid) == Some(end as int),
            match self@.spec_expression_shape(pos as int, watch) {
                Ok((e, shape)) => r matches Ok((_, end, made)) && end == e && made == shape.made,
                Err(f) => r matches Err(e) && spec_failure(e) == f,
            },
        decreases self.text@.len() - pos, 5int,
    {
        proof {
            reveal(Grammar::spec_expression_shape);
            reveal(Grammar::spec_operands_end);
        }
        let start = skip_blanks(&self.text, pos);
        let mut output: Vec<Token> = Vec::new();
        let (end, shape) = self.tokenize_expression(
            start,
            start,
            &mut output,
            private_access_typeid,
            watch,
            Ghost(0),
        )?;
        let ghost infix = output@;
        let expression = Expression::compile(
            output,
            private_access_typeid,
            self.get_context(start, end),
        );
        proof {
            lemma_skip_blanks(self.text@, pos as int);
        }
        assert(self@.spec_infix(start as int, infix, private_access_typeid) == Some(end as int));
        assert(expression.tokens@ == spec_postfix(infix));
        assert(spec_minus(expression.context.end as int, self.offset as int) == end);
        proof {
            self@.lemma_expression_at(
                pos as int,
                &expression,
                private_access_typeid,
                infix,
                end as int,
            );
        }
        Ok((expression, end, shape.made))
    }

    /// How an expression that consists of the one operand of the kind given
    /// ends.
    fn lone(kind: Kind) -> (t: Tail)
        ensures
            t == spec_lone(kind),
    {
        match kind {
            Kind::Name => Tail::Lone,
            Kind::Own => Tail::Own,
            _ => Tail::Other,
        }
    }

    /// How an expression ends whose last operand, of the kind given, stands
    /// behind a `.`.
    fn member_tail(kind: Kind) -> (t: Tail)
        ensures
            t == spec_member(kind),
    {
        match kind {
            Kind::Name => Tail::Member,
            Kind::Own => Tail::Own,
            _ => Tail::Other,
        }
    }

    /// Appends the tokens of the expression that starts at `pos`, with
    /// positions counted from `base`, where the expression starts, and gives
    /// where it ends. `depth` parentheses are open around it.
    fn tokenize_expression(
        &self,
        pos: usize,
        base: usize,
        output: &mut Vec<Token>,
        private_access_typeid: Option<usize>,
        watch: Option<usize>,
        depth: Ghost<int>,
    ) -> (r: Result<(usize, Shape), Error>)
        requires
            base <= pos <= self.text@.len(),
            self.spec_fits(),
            depth@ >= 0,
            self@.spec_scan(
                base as int,
                old(output)@,
                old(output)@.len() as int,
                private_access_typeid,
            ) == Some((pos as int, Expect::Operand, depth@)),
        ensures
            r matches Err(e) ==> spec_is_lowering_error(e.kind),
            r matches Ok((end, _)) ==> pos < end <= self.text@.len() && self@.spec_scan(
                base as int,
                final(output)@,
                final(output)@.len() as int,
                private_access_typeid,
            ) == Some((end as int, Expect::Operator, depth@)) && !self@.spec_goes_on(end as int),
            match self@.spec_operands_end(pos as int, base as int, true, false, watch) {
                Ok((e, s)) => r matches Ok((end, shape)) && end == e && shape == s,
                Err(f) => r matches Err(e) && spec_failure(e) == f,
            },
            r matches Ok((_, shape)) ==> spec_tail_fits(
                old(output)@.len() as int,
                final(output)@,
                shape.tail,
                shape.name,
                self.type_map@,
            ),
            r is Ok ==> final(output)@.len() >= old(output)@.len(),
        decreases self.text@.len() - pos, 4int,
    {
        proof {
            reveal(Grammar::spec_operands_end);
            reveal(Grammar::spec_members_end);
            reveal(Grammar::spec_primary_end);
        }
        let mut at: usize = pos;
        let mut first = true;
        let mut made = false;
        let mut name: usize = 0;
        let ghost cursor: int = pos as int;
        loop
            invariant
                self@.spec_operands_end(at as int, base as int, first, made, watch)
                    == self@.spec_operands_end(pos as int, base as int, true, false, watch),
                first ==> output@ == old(output)@,
                output@.len() >= old(output)@.len(),
                base <= pos <= cursor <= at <= self.text@.len(),
                self.spec_fits(),
                depth@ >= 0,
                spec_skip_blanks(self.text@, cursor) == spec_skip_blanks(self.text@, at as int),
                self@.spec_scan(base as int, output@, output@.len() as int, private_access_typeid)
                    == Some((cursor, Expect::Operand, depth@)),
            decreases self.text@.len() - at,
        {
            let ghost entry = at;
            let ghost whole = self@.spec_operands_end(at as int, base as int, first, made, watch);
            let ghost before = output@;
            proof {
                reveal(Grammar::spec_operands_end);
                reveal(Grammar::spec_members_end);
                reveal(Grammar::spec_primary_end);
                lemma_skip_blanks(self.text@, cursor);
                lemma_skip_blanks(self.text@, at as int);
            }
            at = skip_blanks(&self.text, at);
            let ghost start = at;
            let mut signed = false;
            loop
                invariant
                    start <= at,
                    signed <==> at != start,
                    !signed ==> output@ == before,
                    output@.len() >= before.len(),
                    self@.spec_unaries_end(at as int) == self@.spec_unaries_end(start as int),
                    whole == self@.spec_operands_end(entry as int, base as int, first, made, watch),
                    whole == self@.spec_operands_end(pos as int, base as int, true, false, watch),
                    start == spec_skip_blanks(self.text@, entry as int),
                    first ==> before == old(output)@,
                    before.len() >= old(output)@.len(),
                    base <= pos <= entry <= at <= self.text@.len(),
                    base <= cursor <= at,
                    self.spec_fits(),
                    depth@ >= 0,
                    at == spec_skip_blanks(self.text@, cursor),
                    self@.spec_scan(
                        base as int,
                        output@,
                        output@.len() as int,
                        private_access_typeid,
                    ) == Some((cursor, Expect::Operand, depth@)),
                ensures
                    spec_unary_operator_at(self.text@, at as int) is None,
                decreases self.text@.len() - at,
            {
                match self.unary_operator_at(at) {
                    Some((op, width)) => {
                        let token = Token::new_operator(minus(at, base), op);
                        proof {
                            self@.lemma_scan_push(
                                base as int,
                                output@,
                                token,
                                private_access_typeid,
                            );
                            lemma_skip_blanks(self.text@, at + width);
                            assert(self@.spec_token_at(
                                cursor,
                                base as int,
                                Expect::Operand,
                                depth@,
                                token,
                                private_access_typeid,
                            ) == Some((at + width, Expect::Operand, depth@)));
                        }
                        output.push(token);
                        proof {
                            cursor = at + width;
                        }
                        at = skip_blanks(&self.text, at + width);
                        signed = true;
                    },
                    None => {
                        break ;
                    },
                }
            }
            let ghost operand = at;
            assert(self@.spec_unaries_end(start as int) == operand);
            let (behind, kind, shown) = self.build_primary(
                at,
                base,
                output,
                private_access_typeid,
                true,
                watch,
                Ghost(cursor),
                depth,
            )?;
            name = minus(at, base);
            at = behind;
            made = made || shown;
            let mut tail = if first && !signed {
                Self::lone(kind)
            } else {
                Tail::Other
            };
            let ghost members = self@.spec_members_end(
                at as int,
                base as int,
                tail,
                name,
                made,
                watch,
            );
            assert(whole == match members {
                Err(f) => Err::<(int, Shape), Failure>(f),
                Ok((end, tail, name, all)) => {
                    let next = spec_skip_blanks(self.text@, end);
                    match spec_binary_operator_at(self.text@, next) {
                        Some((_, width)) => if next + width <= entry || next + width
                            > self.text@.len() {
                            Err(self@.spec_syntax(start as int))
                        } else {
                            self@.spec_operands_end(next + width, base as int, false, all, watch)
                        },
                        None => Ok(
                            (
                                end,
                                Shape {
                                    plain: first && operand == start && kind != Kind::Other,
                                    tail,
                                    name,
                                    made: all,
                                },
                            ),
                        ),
                    }
                },
            });
            proof {
                cursor = at as int;
            }
            loop
                invariant
                    whole == self@.spec_operands_end(pos as int, base as int, true, false, watch),
                    whole == match members {
                        Err(f) => Err::<(int, Shape), Failure>(f),
                        Ok((end, tail, name, all)) => {
                            let next = spec_skip_blanks(self.text@, end);
                            match spec_binary_operator_at(self.text@, next) {
                                Some((_, width)) => if next + width <= entry || next + width
                                    > self.text@.len() {
                                    Err(self@.spec_syntax(start as int))
                                } else {
                                    self@.spec_operands_end(
                                        next + width,
                                        base as int,
                                        false,
                                        all,
                                        watch,
                                    )
                                },
                                None => Ok(
                                    (
                                        end,
                                        Shape {
                                            plain: first && operand == start && kind
                                                != Kind::Other,
                                            tail,
                                            name,
                                            made: all,
                                        },
                                    ),
                                ),
                            }
                        },
                    },
                    signed <==> operand != start,
                    self@.spec_members_end(at as int, base as int, tail, name, made, watch)
                        == members,
                    spec_tail_fits(old(output)@.len() as int, output@, tail, name, self.type_map@),
                    output@.len() >= old(output)@.len(),
                    base <= pos <= entry < at <= self.text@.len(),
                    cursor == at,
                    self.spec_fits(),
                    depth@ >= 0,
                    self@.spec_scan(
                        base as int,
                        output@,
                        output@.len() as int,
                        private_access_typeid,
                    ) == Some((cursor, Expect::Operator, depth@)),
                ensures
                    !(spec_skip_blanks(self.text@, at as int) < self.text@.len()
                        && self.text@[spec_skip_blanks(self.text@, at as int)] == '.'),
                decreases self.text@.len() - at,
            {
                proof {
                    reveal(Grammar::spec_members_end);
                    reveal(Grammar::spec_primary_end);
                }
                let p = skip_blanks(&self.text, at);
                match self.peek(p) {
                    Some('.') => {
                        let token = Token::new_operator(minus(p, base), Operator::Dot);
                        proof {
                            self@.lemma_scan_push(
                                base as int,
                                output@,
                                token,
                                private_access_typeid,
                            );
                            lemma_skip_blanks(self.text@, at as int);
                            lemma_skip_blanks(self.text@, p + 1);
                            assert(self@.spec_token_at(
                                cursor,
                                base as int,
                                Expect::Operator,
                                depth@,
                                token,
                                private_access_typeid,
                            ) == Some((p + 1, Expect::Member, depth@)));
                        }
                        output.push(token);
                        let q = skip_blanks(&self.text, p + 1);
                        let (end, member, shown) = self.build_primary(
                            q,
                            base,
                            output,
                            private_access_typeid,
                            false,
                            watch,
                            Ghost(p + 1),
                            depth,
                        )?;
                        at = end;
                        made = made || shown;
                        tail = Self::member_tail(member);
                        name = minus(q, base);
                        proof {
                            cursor = at as int;
                        }
                    },
                    _ => {
                        break ;
                    },
                }
            }
            let p = skip_blanks(&self.text, at);
            proof {
                lemma_skip_blanks(self.text@, at as int);
            }
            match self.binary_operator_at(p) {
                Some((op, width)) => {
                    let token = Token::new_operator(minus(p, base), op);
                    proof {
                        self@.lemma_scan_push(base as int, output@, token, private_access_typeid);
                        assert(op != Operator::Dot);
                        assert(self@.spec_token_at(
                            cursor,
                            base as int,
                            Expect::Operator,
                            depth@,
                            token,
                            private_access_typeid,
                        ) == Some((p + width, Expect::Operand, depth@)));
                    }
                    output.push(token);
                    at = p + width;
                    first = false;
                    proof {
                        cursor = at as int;
                    }
                },
                None => {
                    return Ok(
                        (
                            at,
                            Shape {
                                plain: first && !signed && kind != Kind::Other,
                                tail,
                                name,
                                made,
                            },
                        ),
                    );
                },
            }
        }
    }

    /// Appends the tokens of one operand that starts at `pos`: a literal, a
    /// parenthesised expression, a call or an identifier. After a `.` only a
    /// call or an identifier can stand, and `literals` is false.
    #[verifier::rlimit(60)]
    fn build_primary(
        &self,
        pos: usize,
        base: usize,
        output: &mut Vec<Token>,
        private_access_typeid: Option<usize>,
        literals: bool,
        watch: Option<usize>,
        cursor: Ghost<int>,
        depth: Ghost<int>,
    ) -> (r: Result<(usize, Kind, bool), Error>)
        requires
            base <= cursor@ <= pos <= self.text@.len(),
            self.spec_fits(),
            depth@ >= 0,
            pos == spec_skip_blanks(self.text@, cursor@),
            literals ==> spec_unary_operator_at(self.text@, pos as int) is None,
            self@.spec_scan(
                base as int,
                old(output)@,
                old(output)@.len() as int,
                private_access_typeid,
            ) == Some(
                (
                    cursor@,
                    if literals {
                        Expect::Operand
                    } else {
                        Expect::Member
                    },
                    depth@,
                ),
            ),
        ensures
            r matches Err(e) ==> spec_is_lowering_error(e.kind),
            r matches Ok((end, _, _)) ==> pos < end <= self.text@.len() && self@.spec_scan(
                base as int,
                final(output)@,
                final(output)@.len() as int,
                private_access_typeid,
            ) == Some((end as int, Expect::Operator, depth@)),
            match self@.spec_primary_end(pos as int, base as int, literals, watch) {
                Ok((e, k, m)) => r matches Ok((end, kind, made)) && end == e && kind == k && made
                    == m,
                Err(f) => r matches Err(e) && spec_failure(e) == f,
            },
            r matches Ok((_, kind, _)) ==> (kind == Kind::Name || kind == Kind::Own ==> final(output)@.last().pos == spec_minus(pos as int, base as int)),
            final(output)@.len() > old(output)@.len() || r is Err,
            r matches Ok((_, kind, _)) ==> (kind == Kind::Name || kind == Kind::Own ==> final(output)@
                == old(output)@.push(final(output)@.last()) && (
            final(output)@.last().kind matches TokenKind::Identifier(name) && (if kind == Kind::Own {
                name@ == "self"@
            } else {
                !spec_is_keyword(name@) && !self.type_map@.contains_key(name@)
            }))),
        decreases self.text@.len() - pos, 3int,
    {
        proof {
            reveal(Grammar::spec_primary_end);
            reveal(Grammar::spec_operands_end);
            reveal(Grammar::spec_call_end);
        }
        let c = match self.peek(pos) {
            Some(c) => c,
            None => {
                return Err(self.syntax_error(pos));
            },
        };
        let ghost expect = if literals {
            Expect::Operand
        } else {
            Expect::Member
        };
        proof {
            reveal_strlit("true");
            reveal_strlit("false");
            reveal_strlit("none");
            reveal_strlit("self");
            reveal_strlit("::");
        }
        if literals && c == '(' {
            let left = Token::new_parenthesis(minus(pos, base), Parenthesis::Left);
            self.emit(
                base,
                output,
                left,
                private_access_typeid,
                Ghost(cursor@),
                Ghost(expect),
                Ghost(depth@),
                Ghost((pos + 1, Expect::Operand, depth@ + 1)),
            );
            let (end, inner) = self.tokenize_expression(
                pos + 1,
                base,
                output,
                private_access_typeid,
                watch,
                Ghost(depth@ + 1),
            )?;
            let p = skip_blanks(&self.text, end);
            proof {
                lemma_skip_blanks(self.text@, end as int);
            }
            match self.peek(p) {
                Some(')') => {
                    let right = Token::new_parenthesis(minus(p, base), Parenthesis::Right);
                    self.emit(
                        base,
                        output,
                        right,
                        private_access_typeid,
                        Ghost(end as int),
                        Ghost(Expect::Operator),
                        Ghost(depth@ + 1),
                        Ghost((p + 1, Expect::Operator, depth@)),
                    );
                    Ok((p + 1, Kind::Other, inner.made))
                },
                _ => Err(self.syntax_error(p)),
            }
        } else if literals && is_digit(c) {
            let whole = digits_end(&self.text, pos);
            if whole == pos {
                return Err(self.syntax_error(pos));
            }
            let has_fraction = match (self.peek(whole), self.peek(plus(whole, 1))) {
                (Some('.'), Some(d)) => is_digit(d),
                _ => false,
            };
            assert(has_fraction == self@.spec_has_fraction(pos as int));
            if has_fraction {
                let end = digits_end(&self.text, whole + 1);
                let token = Token::new_float(minus(pos, base), self.slice(pos, end));
                assert(self@.spec_literal_at(pos as int, token.kind->Value_0) == Some(end as int));
                self.emit(
                    base,
                    output,
                    token,
                    private_access_typeid,
                    Ghost(cursor@),
                    Ghost(expect),
                    Ghost(depth@),
                    Ghost((end as int, Expect::Operator, depth@)),
                );
                Ok((end, Kind::Other, false))
            } else {
                let digits = self.slice(pos, whole);
                let token = match crate::text::parse_int(&to_chars(digits.as_str())) {
                    Ok(i) => Token::new_int(minus(pos, base), i),
                    Err(_) => Token::new_float(minus(pos, base), digits),
                };
                assert(self@.spec_literal_at(pos as int, token.kind->Value_0) == Some(
                    whole as int,
                ));
                self.emit(
                    base,
                    output,
                    token,
                    private_access_typeid,
                    Ghost(cursor@),
                    Ghost(expect),
                    Ghost(depth@),
                    Ghost((whole as int, Expect::Operator, depth@)),
                );
                Ok((whole, Kind::Other, false))
            }
        } else if literals && c == '"' {
            let close = self.string_end(pos + 1);
            if close >= self.text.len() {
                return Err(self.syntax_error(pos));
            }
            let text = unescape(&self.text, pos + 1, close);
            let token = Token::new_str(minus(pos, base), crate::text::from_chars(&text));
            assert(self@.spec_literal_at(pos as int, token.kind->Value_0) == Some(close + 1));
            self.emit(
                base,
                output,
                token,
                private_access_typeid,
                Ghost(cursor@),
                Ghost(expect),
                Ghost(depth@),
                Ghost((close + 1, Expect::Operator, depth@)),
            );
            Ok((close + 1, Kind::Other, false))
        } else {
            let end = word_end(&self.text, pos);
            if end == pos || is_digit(c) {
                return Err(self.syntax_error(pos));
            }
            assert(self@.spec_name_starts(pos as int));
            if literals && self.word_is(pos, "true") {
                let token = Token::new_bool(minus(pos, base), true);
                assert(self@.spec_literal_at(pos as int, token.kind->Value_0) == Some(end as int));
                self.emit(
                    base,
                    output,
                    token,
                    private_access_typeid,
                    Ghost(cursor@),
                    Ghost(expect),
                    Ghost(depth@),
                    Ghost((end as int, Expect::Operator, depth@)),
                );
                return Ok((end, Kind::Other, false));
            }
            if literals && self.word_is(pos, "false") {
                let token = Token::new_bool(minus(pos, base), false);
                assert(self@.spec_literal_at(pos as int, token.kind->Value_0) == Some(end as int));
                self.emit(
                    base,
                    output,
                    token,
                    private_access_typeid,
                    Ghost(cursor@),
                    Ghost(expect),
                    Ghost(depth@),
                    Ghost((end as int, Expect::Operator, depth@)),
                );
                return Ok((end, Kind::Other, false));
            }
            if literals && self.word_is(pos, "none") {
                let token = Token::new_none(minus(pos, base));
                assert(self@.spec_literal_at(pos as int, token.kind->Value_0) == Some(end as int));
                self.emit(
                    base,
                    output,
                    token,
                    private_access_typeid,
                    Ghost(cursor@),
                    Ghost(expect),
                    Ghost(depth@),
                    Ghost((end as int, Expect::Operator, depth@)),
                );
                return Ok((end, Kind::Other, false));
            }
            assert(!(literals && self@.spec_literal_word(pos as int)));
            let p = skip_blanks(&self.text, end);
            if self.looking_at(p, "::") || self.peek(p) == Some('(') {
                assert(!self@.spec_no_call(end as int));
                let (call, after, made) = self.build_function_call(
                    pos,
                    private_access_typeid,
                    watch,
                )?;
                let token = Token::new_function_call(minus(pos, base), call);
                assert(self@.spec_operand_at(
                    pos as int,
                    base as int,
                    token,
                    literals,
                    private_access_typeid,
                ) == Some(after as int));
                self.emit(
                    base,
                    output,
                    token,
                    private_access_typeid,
                    Ghost(cursor@),
                    Ghost(expect),
                    Ghost(depth@),
                    Ghost((after as int, Expect::Operator, depth@)),
                );
                Ok((after, Kind::Call, made))
            } else {
                assert(self@.spec_no_call(end as int));
                let name = self.slice(pos, end);
                let kind = if same(name.as_str(), "self") {
                    Kind::Own
                } else {
                    Kind::Name
                };
                if !same(name.as_str(), "self") {
                    self.validate_identifier(
                        name.as_str(),
                        self.get_context(base, end),
                        minus(pos, base),
                    )?;
                }
                let token = Token::new_identifier(minus(pos, base), name);
                assert(self@.spec_operand_at(
                    pos as int,
                    base as int,
                    token,
                    literals,
                    private_access_typeid,
                ) == Some(end as int));
                self.emit(
                    base,
                    output,
                    token,
                    private_access_typeid,
                    Ghost(cursor@),
                    Ghost(expect),
                    Ghost(depth@),
                    Ghost((end as int, Expect::Operator, depth@)),
                );
                Ok((end, kind, false))
            }
        }
    }

    /// Appends a token that is what the text holds next.
    fn emit(
        &self,
        base: usize,
        output: &mut Vec<Token>,
        token: Token,
        private_access_typeid: Option<usize>,
        cursor: Ghost<int>,
        expect: Ghost<Expect>,
        depth: Ghost<int>,
        next: Ghost<(int, Expect, int)>,
    )
        requires
            base <= cursor@ <= self.text@.len(),
            self@.spec_scan(
                base as int,
                old(output)@,
                old(output)@.len() as int,
                private_access_typeid,
            ) == Some((cursor@, expect@, depth@)),
            self@.spec_token_at(
                cursor@,
                base as int,
                expect@,
                depth@,
                token,
                private_access_typeid,
            ) == Some(next@),
        ensures
            final(output)@ == old(output)@.push(token),
            self@.spec_scan(
                base as int,
                final(output)@,
                final(output)@.len() as int,
                private_access_typeid,
            ) == Some(next@),
    {
        proof {
            self@.lemma_scan_push(base as int, output@, token, private_access_typeid);
        }
        output.push(token);
    }

    /// Where the string literal whose inside starts at `pos` is closed: the
    /// index of the first `"` that no backslash escapes, or the length of
    /// the text where there is none.
    fn string_end(&self, pos: usize) -> (e: usize)
        requires
            pos <= self.text@.len(),
        ensures
            e == self@.spec_string_end(pos as int),
            pos <= e <= self.text@.len(),
            e < self.text@.len() ==> self.text@[e as int] == '"',
    {
        let mut i: usize = pos;
        while i < self.text.len()
            invariant
                pos <= i <= self.text@.len(),
                self@.spec_string_end(i as int) == self@.spec_string_end(pos as int),
            decreases self.text@.len() - i,
        {
            let c = self.text[i];
            if c == '"' {
                return i;
            }
            if c == '\\' && i + 1 < self.text.len() {
                i = i + 2;
            } else {
                i = i + 1;
            }
        }
        i
    }

    /// Lowers the call whose name, or whose type in the scoped form,
    /// starts at `pos`: the call is what [`Builder::spec_call_at`] says.
    #[inline]
    fn build_function_call(
        &self,
        pos: usize,
        private_access_typeid: Option<usize>,
        watch: Option<usize>,
    ) -> (r: Result<(FunctionCall, usize, bool), Error>)
        requires
            pos < self.text@.len(),
            self.spec_fits(),
            self@.spec_name_starts(pos as int),
        ensures
            r matches Err(e) ==> spec_is_lowering_error(e.kind),
            r matches Ok((_, end, _)) ==> pos < end <= self.text@.len(),
            r matches Ok((call, end, _)) ==> self@.spec_call_at(
                pos as int,
                &call,
                private_access_typeid,
            ) == Some(end as int),
            match self@.spec_call_end(pos as int, watch) {
                Ok((e, m)) => r matches Ok((_, end, made)) && end == e && made == m,
                Err(f) => r matches Err(e) && spec_failure(e) == f,
            },
        decreases self.text@.len() - pos, 2int,
    {
        proof {
            reveal(Grammar::spec_call_end);
            reveal(Grammar::spec_arguments_close);
            reveal(Grammar::spec_expression_shape);
        }
        let ghost whole = self@.spec_call_end(pos as int, watch);
        let first_end = word_end(&self.text, pos);
        let p = skip_blanks(&self.text, first_end);
        let mut associated: Option<(usize, usize)> = None;
        let mut name_start = pos;
        let mut name_end = first_end;
        let scoped = self.looking_at(p, "::");
        proof {
            reveal_strlit("::");
            lemma_skip_blanks(self.text@, first_end as int);
        }
        if scoped {
            let typename = self.slice(pos, first_end);
            let typeid = match self.get_typeid(typename.as_str()) {
                Some(id) => id,
                None => {
                    return Err(self.fail(pos, p + 2, pos, ErrorKind::UnknownType(typename)));
                },
            };
            name_start = skip_blanks(&self.text, p + 2);
            name_end = word_end(&self.text, name_start);
            if name_end == name_start {
                return Err(self.syntax_error(name_start));
            }
            associated = Some((typeid, minus(p, pos)));
        }
        let open = skip_blanks(&self.text, name_end);
        if self.peek(open) != Some('(') || first_end == pos {
            return Err(self.syntax_error(open));
        }
        let name = self.slice(name_start, name_end);
        let made = match (associated, watch) {
            (Some((typeid, _)), Some(watched)) => typeid == watched && same(name.as_str(), "new"),
            _ => false,
        };
        let mut arguments: Vec<Expression> = Vec::new();
        let mut at = skip_blanks(&self.text, open + 1);
        proof {
            lemma_skip_blanks(self.text@, open + 1);
        }
        proof {
            reveal_strlit("new");
        }
        assert(whole == if at < self.text@.len() && self.text@[at as int] == ')' {
            Ok::<(int, bool), Failure>((at + 1, made))
        } else {
            match self@.spec_arguments_close(open + 1) {
                Err(f) => Err::<(int, bool), Failure>(f),
                Ok(end) => Ok((end, made)),
            }
        });
        if self.peek(at) == Some(')') {
            at = at + 1;
        } else {
            let ghost first = at as int;
            at = open + 1;
            loop
                invariant_except_break
                    self@.spec_arguments_close(at as int) == self@.spec_arguments_close(open + 1),
                    self@.spec_argument_cursor(
                        open + 1,
                        arguments@,
                        arguments@.len() as int,
                        private_access_typeid,
                    ) == Some(at as int),
                invariant
                    whole == self@.spec_call_end(pos as int, watch),
                    whole == match self@.spec_arguments_close(open + 1) {
                        Err(f) => Err::<(int, bool), Failure>(f),
                        Ok(end) => Ok((end, made)),
                    },
                    pos <= open < at <= self.text@.len(),
                    self.spec_fits(),
                    first == spec_skip_blanks(self.text@, open + 1),
                    !(0 <= first < self.text@.len() && self.text@[first] == ')'),
                ensures
                    arguments@.len() > 0,
                    self@.spec_arguments_end(open + 1, arguments@, private_access_typeid) == Some(
                        at as int,
                    ),
                    whole == Ok::<(int, bool), Failure>((at as int, made)),
                decreases self.text@.len() - at,
            {
                proof {
                    reveal(Grammar::spec_arguments_close);
                    reveal(Grammar::spec_expression_shape);
                }
                let (argument, end) = self.build_expression(at, private_access_typeid)?;
                proof {
                    self@.lemma_argument_push(
                        open + 1,
                        arguments@,
                        argument,
                        private_access_typeid,
                    );
                    lemma_skip_blanks(self.text@, end as int);
                }
                let ghost before = arguments@;
                arguments.push(argument);
                assert(arguments@.last() == argument);
                assert(arguments@[before.len() as int] == argument);
                assert(self@.spec_argument_cursor(
                    open + 1,
                    arguments@,
                    before.len() as int,
                    private_access_typeid,
                ) == Some(at as int));
                assert(self@.spec_expression_at(
                    at as int,
                    &arguments@[before.len() as int],
                    private_access_typeid,
                ) == Some(end as int));
                let q = skip_blanks(&self.text, end);
                match self.peek(q) {
                    Some(',') => {
                        assert(self@.spec_argument_cursor(
                            open + 1,
                            arguments@,
                            arguments@.len() as int,
                            private_access_typeid,
                        ) == Some(q + 1));
                        at = q + 1;
                    },
                    Some(')') => {
                        assert(self@.spec_arguments_end(
                            open + 1,
                            arguments@,
                            private_access_typeid,
                        ) == Some(q + 1));
                        at = q + 1;
                        break ;
                    },
                    _ => {
                        return Err(self.syntax_error(q));
                    },
                }
            }
        }
        let name_pos = if associated.is_some() {
            minus(name_start, pos)
        } else {
            0
        };
        let call = FunctionCall::new(
            associated,
            name,
            arguments,
            private_access_typeid,
            self.get_context(pos, at),
            name_pos,
            line_column(plus(self.offset, pos), &self.source),
        );
        assert(self@.spec_call_at(pos as int, &call, private_access_typeid) == Some(at as int));
        Ok((call, at, made))
    }
}

} // verus!

verus! {

/// The word that starts at `pos`: the longest run of word characters.
pub open spec fn spec_word_at(text: Seq<char>, pos: int) -> Seq<char> {
    text.subrange(pos, spec_word_end(text, pos))
}

/// Whether the characters of `word` stand at `pos`.
pub open spec fn spec_looking_at(text: Seq<char>, pos: int, word: Seq<char>) -> bool {
    pos + word.len() <= text.len() && text.subrange(pos, pos + word.len()) == word
}

/// The binary operator written at `pos`, with the number of characters it
/// takes. `and` and `or` are operators only as whole words.
pub open spec fn spec_binary_operator_at(text: Seq<char>, pos: int) -> Option<(Operator, usize)> {
    if pos < 0 || pos >= text.len() {
        None
    } else if text[pos] == '+' {
        Some((Operator::Add, 1usize))
    } else if text[pos] == '-' {
        Some((Operator::Sub, 1usize))
    } else if text[pos] == '*' {
        Some((Operator::Mult, 1usize))
    } else if text[pos] == '/' {
        Some((Operator::Div, 1usize))
    } else if text[pos] == '%' {
        Some((Operator::Mod, 1usize))
    } else if text[pos] == '^' {
        Some((Operator::Pow, 1usize))
    } else if text[pos] == '<' {
        Some((Operator::LessThan, 1usize))
    } else if text[pos] == '>' {
        Some((Operator::GreaterThan, 1usize))
    } else if spec_looking_at(text, pos, "=="@) {
        Some((Operator::Equal, 2usize))
    } else if spec_looking_at(text, pos, "!="@) {
        Some((Operator::NotEqual, 2usize))
    } else if spec_word_at(text, pos) == "and"@ {
        Some((Operator::And, 3usize))
    } else if spec_word_at(text, pos) == "or"@ {
        Some((Operator::Or, 2usize))
    } else {
        None
    }
}

/// The unary operator written at `pos`, with the number of characters it
/// takes. `not` and `typeof` are operators only as whole words.
pub open spec fn spec_unary_operator_at(text: Seq<char>, pos: int) -> Option<(Operator, usize)> {
    if pos < 0 || pos >= text.len() {
        None
    } else if text[pos] == '-' {
        Some((Operator::Neg, 1usize))
    } else if spec_word_at(text, pos) == "not"@ {
        Some((Operator::Not, 3usize))
    } else if spec_word_at(text, pos) == "typeof"@ {
        Some((Operator::Typeof, 6usize))
    } else {
        None
    }
}

/// The kind of statement that a word starts, for the words that start one.
pub open spec fn spec_starts(word: Seq<char>, instruction: Instruction) -> bool {
    &&& instruction is Branch <==> word == "if"@
    &&& instruction is WhileLoop <==> word == "while"@
    &&& instruction is ForLoop <==> word == "for"@
    &&& instruction is Break <==> word == "break"@
    &&& instruction is Return <==> word == "return"@
    &&& instruction is VariableInit <==> word == "let"@
}

/// Whether an instruction may stand at the given place.
pub open spec fn spec_fits_place(instruction: Instruction, place: Place) -> bool {
    (instruction is Break ==> place == Place::Block) && (instruction is Return ==> place
        != Place::Program)
}

/// What holds of the properties of every class that was lowered: no
/// property has the type of the class itself, every initializer has the
/// private access of the class, and no two properties have the same name.
pub open spec fn spec_sound_properties(properties: Seq<PropertyDefinition>, typeid: usize) -> bool {
    &&& forall|i: int|
        0 <= i < properties.len() ==> (#[trigger] properties[i]).id.typeid != typeid
            && properties[i].init_expression.private_access_typeid == Some(typeid)
    &&& forall|i: int, j: int|
        0 <= i < j < properties.len() ==> (#[trigger] properties[i]).id.name@ != (
        #[trigger] properties[j]).id.name@
}

/// Where a list of statements stands. At the top of a program neither
/// `break` nor `return` may stand, at the top of a function body no
/// `break`; inside a block both may.
#[derive(Debug, Clone, Copy, PartialEq, Eq, Structural)]
pub enum Place {
    Program,
    Function,
    Block,
}

impl Builder {
    /// Skips blanks, then takes the character `c`.
    fn expect(&self, pos: usize, c: char) -> (r: Result<usize, Error>)
        requires
            pos <= self.text@.len(),
        ensures
            r matches Err(e) ==> spec_is_lowering_error(e.kind) && spec_expect(
                self.text@,
                pos as int,
                c,
            ) is None,
            r matches Ok(end) ==> pos < end <= self.text@.len() && spec_expect(
                self.text@,
                pos as int,
                c,
            ) == Some(end as int),
            match self@.spec_expected(pos as int, c) {
                Ok(e) => r matches Ok(end) && end == e,
                Err(f) => r matches Err(e) && spec_failure(e) == f,
            },
    {
        let p = skip_blanks(&self.text, pos);
        if self.peek(p) == Some(c) {
            Ok(p + 1)
        } else {
            Err(self.syntax_error(p))
        }
    }

    /// Skips blanks, then takes a word that does not start with a digit.
    /// Gives where the word starts and ends.
    fn word(&self, pos: usize) -> (r: Result<(usize, usize), Error>)
        requires
            pos <= self.text@.len(),
        ensures
            r matches Err(e) ==> spec_is_lowering_error(e.kind) && spec_word(
                self.text@,
                pos as int,
            ) is None,
            r matches Ok((start, end)) ==> pos <= start < end <= self.text@.len() && spec_word(
                self.text@,
                pos as int,
            ) == Some((start as int, end as int)),
            match self@.spec_worded(pos as int) {
                Ok((s, e)) => r matches Ok((start, end)) && start == s && end == e,
                Err(f) => r matches Err(e) && spec_failure(e) == f,
            },
    {
        let start = skip_blanks(&self.text, pos);
        let end = word_end(&self.text, start);
        match self.peek(start) {
            Some(c) => {
                if end == start || is_digit(c) {
                    Err(self.syntax_error(start))
                } else {
                    Ok((start, end))
                }
            },
            None => Err(self.syntax_error(start)),
        }
    }

    /// Skips blanks and `;`.
    fn skip_separators(&self, pos: usize) -> (e: usize)
        requires
            pos <= self.text@.len(),
        ensures
            pos <= e <= self.text@.len(),
            e == spec_skip_separators(self.text@, pos as int),
            e < self.text@.len() ==> !spec_is_blank(self.text@[e as int]) && self.text@[e as int]
                != ';',
    {
        let mut i: usize = pos;
        while i < self.text.len() && (is_blank(self.text[i]) || self.text[i] == ';')
            invariant
                pos <= i <= self.text@.len(),
                spec_skip_separators(self.text@, i as int) == spec_skip_separators(
                    self.text@,
                    pos as int,
                ),
            decreases self.text@.len() - i,
        {
            i = i + 1;
        }
        i
    }

    /// Lowers the statements of a block up to its closing `}`, and gives
    /// them with the position after it.
    fn build_body(&self, pos: usize, private_access_typeid: Option<usize>, place: Place) -> (r:
        Result<(Vec<Instruction>, usize), Error>)
        requires
            self.spec_fits(),
            pos <= self.text@.len(),
        ensures
            r matches Err(e) ==> spec_is_lowering_error(e.kind),
            r matches Ok((body, end)) ==> pos < end <= self.text@.len() && self@.spec_block_at(
                pos as int,
                body@,
                private_access_typeid,
                place,
            ) == Some(end as int) && forall|i: int|
                0 <= i < body@.len() ==> spec_fits_place(#[trigger] body@[i], place),
            match self@.spec_body_end(pos as int, place) {
                Ok(e) => r matches Ok((_, end)) && end == e,
                Err(f) => r matches Err(e) && spec_failure(e) == f,
            },
        decreases self.text@.len() - pos, 12int,
    {
        let mut output: Vec<Instruction> = Vec::new();
        let mut at: usize = pos;
        loop
            invariant
                pos <= at <= self.text@.len(),
                self.spec_fits(),
                self@.spec_statements(
                    pos as int,
                    output@,
                    output@.len() as int,
                    private_access_typeid,
                    place,
                ) == Some(at as int),
                forall|i: int| 0 <= i < output@.len() ==> spec_fits_place(#[trigger] output@[i], place),
                self@.spec_body_end(at as int, place) == self@.spec_body_end(pos as int, place),
            decreases self.text@.len() - at,
        {
            proof {
                reveal(Grammar::spec_body_end);
                reveal(Grammar::spec_statement_end);
            }
            let s = self.skip_separators(at);
            match self.peek(s) {
                None => {
                    return Err(self.syntax_error(s));
                },
                Some(c) => {
                    if c == '}' {
                        return Ok((output, s + 1));
                    }
                    let (instruction, end) = self.build_statement(s, private_access_typeid, place)?;
                    proof {
                        self@.lemma_statements_push(
                            pos as int,
                            output@,
                            instruction,
                            private_access_typeid,
                            place,
                        );
                    }
                    output.push(instruction);
                    at = end;
                },
            }
        }
    }

    /// Lowers the statement that starts at `pos`.
    fn build_statement(&self, pos: usize, private_access_typeid: Option<usize>, place: Place) -> (r:
        Result<(Instruction, usize), Error>)
        requires
            self.spec_fits(),
            pos < self.text@.len(),
            !spec_is_blank(self.text@[pos as int]),
        ensures
            r matches Err(e) ==> spec_is_lowering_error(e.kind),
            r matches Ok((_, end)) ==> pos < end <= self.text@.len(),
            r matches Ok((instruction, end)) ==> instruction.spec_context() == self.spec_context(
                pos,
                end,
            ) && self@.spec_statement_at(pos as int, instruction, private_access_typeid, place)
                == Some(end as int),
            r matches Ok((instruction, _)) ==> spec_fits_place(instruction, place) && spec_starts(
                spec_word_at(self.text@, pos as int),
                instruction,
            ),
            match self@.spec_statement_end(pos as int, place) {
                Ok(e) => r matches Ok((_, end)) && end == e,
                Err(f) => r matches Err(e) && spec_failure(e) == f,
            },
        decreases self.text@.len() - pos, 11int,
    {
        proof {
            reveal(Grammar::spec_statement_at);
            reveal(Grammar::spec_statement_end);
            reveal(Grammar::spec_branch_end);
            reveal(Grammar::spec_for_end);
            reveal(Grammar::spec_guarded_end);
            reveal_strlit("if");
            reveal_strlit("while");
            reveal_strlit("for");
            reveal_strlit("break");
            reveal_strlit("return");
            reveal_strlit("let");
            assert("for"@[0] != "let"@[0]);
            assert("while"@[0] != "break"@[0]);
        }
        if self.word_is(pos, "if") {
            let (branch, end) = self.build_branch(pos, private_access_typeid)?;
            Ok((Instruction::Branch(branch), end))
        } else if self.word_is(pos, "while") {
            let (while_loop, end) = self.build_while_loop(pos, private_access_typeid)?;
            Ok((Instruction::WhileLoop(while_loop), end))
        } else if self.word_is(pos, "for") {
            let (for_loop, end) = self.build_for_loop(pos, private_access_typeid)?;
            Ok((Instruction::ForLoop(for_loop), end))
        } else if self.word_is(pos, "break") {
            proof {
                reveal_strlit("break");
            }
            let end = pos + 5;
            match place {
                Place::Block => Ok(
                    (Instruction::Break(self.build_loop_break(pos, end)), end),
                ),
                _ => Err(self.fail(pos, end, pos, ErrorKind::SyntaxError)),
            }
        } else if self.word_is(pos, "return") {
            let (function_return, end) = self.build_function_return(pos, private_access_typeid)?;
            match place {
                Place::Program => Err(self.fail(pos, end, pos, ErrorKind::SyntaxError)),
                _ => Ok((Instruction::Return(function_return), end)),
            }
        } else if self.word_is(pos, "let") {
            let (init, end) = self.build_variable_init(pos, private_access_typeid)?;
            Ok((Instruction::VariableInit(init), end))
        } else {
            self.build_variable_assign(pos, private_access_typeid)
        }
    }

    fn build_loop_break(&self, start: usize, end: usize) -> (b: Break)
        ensures
            b.context == self.spec_context(start, end),
    {
        Break::new(self.get_context(start, end))
    }

    /// Lowers a condition and the block behind it, and gives the position
    /// after the block.
    fn build_guarded_block(&self, pos: usize, private_access_typeid: Option<usize>) -> (r: Result<
        (Expression, Vec<Instruction>, usize),
        Error,
    >)
        requires
            self.spec_fits(),
            pos <= self.text@.len(),
        ensures
            r matches Err(e) ==> spec_is_lowering_error(e.kind),
            r matches Ok((condition, body, end)) ==> pos < end <= self.text@.len()
                && self@.spec_guarded_at(pos as int, &condition, body@, private_access_typeid)
                == Some(end as int),
            match self@.spec_guarded_end(pos as int) {
                Ok(e) => r matches Ok((_, _, end)) && end == e,
                Err(f) => r matches Err(e) && spec_failure(e) == f,
            },
        decreases self.text@.len() - pos, 9int,
    {
        proof {
            reveal(Grammar::spec_guarded_end);
            reveal(Grammar::spec_body_end);
        }
        let (condition, after) = self.build_expression(pos, private_access_typeid)?;
        let open = self.expect(after, '{')?;
        let (body, end) = self.build_body(open, private_access_typeid, Place::Block)?;
        Ok((condition, body, end))
    }

    #[verifier::rlimit(40)]
    fn build_branch(&self, pos: usize, private_access_typeid: Option<usize>) -> (r: Result<
        (Branch, usize),
        Error,
    >)
        requires
            self.spec_fits(),
            pos < self.text@.len(),
            self.text@.subrange(pos as int, spec_word_end(self.text@, pos as int)) == "if"@,
        ensures
            r matches Err(e) ==> spec_is_lowering_error(e.kind),
            r matches Ok((_, end)) ==> pos < end <= self.text@.len(),
            r matches Ok((branch, end)) ==> branch.context == self.spec_context(pos, end)
                && self@.spec_branch_at(pos as int, branch, private_access_typeid) == Some(
                end as int,
            ),
            match self@.spec_branch_end(pos as int) {
                Ok(e) => r matches Ok((_, end)) && end == e,
                Err(f) => r matches Err(e) && spec_failure(e) == f,
            },
        decreases self.text@.len() - pos, 10int,
    {
        proof {
            reveal(Grammar::spec_branch_end);
            reveal(Grammar::spec_else_end);
            reveal(Grammar::spec_guarded_end);
            reveal(Grammar::spec_body_end);
        }
        let after_keyword = word_end(&self.text, pos);
        proof {
            reveal_strlit("if");
            assert(self.text@.subrange(pos as int, after_keyword as int).len() == 2);
        }
        let (condition, main_body, first_end) = self.build_guarded_block(
            after_keyword,
            private_access_typeid,
        )?;
        let mut else_if_branches: Vec<BranchBody> = Vec::new();
        let mut end = first_end;
        loop
            invariant
                self@.spec_branch_end(pos as int) == self@.spec_else_end(first_end as int),
                self@.spec_else_end(end as int) == self@.spec_else_end(first_end as int),
                pos < first_end <= end <= self.text@.len(),
                pos + 2 <= self.text@.len(),
                self.spec_fits(),
                self@.spec_guarded_at(pos + 2, &condition, main_body@, private_access_typeid)
                    == Some(first_end as int),
                self@.spec_else_ifs(
                    first_end as int,
                    else_if_branches@,
                    else_if_branches@.len() as int,
                    private_access_typeid,
                ) == Some(end as int),
            decreases self.text@.len() - end,
        {
            proof {
                reveal(Grammar::spec_else_end);
                reveal(Grammar::spec_guarded_end);
                reveal(Grammar::spec_body_end);
                lemma_skip_blanks(self.text@, end as int);
            }
            let p = skip_blanks(&self.text, end);
            if !self.word_is(p, "else") {
                return Ok(
                    (
                        Branch::new(
                            BranchBody::new(condition, main_body),
                            else_if_branches,
                            Vec::new(),
                            self.get_context(pos, end),
                        ),
                        end,
                    ),
                );
            }
            proof {
                reveal_strlit("else");
            }
            let q = skip_blanks(&self.text, p + 4);
            if self.word_is(q, "if") {
                proof {
                    reveal_strlit("if");
                }
                let (condition, body, after) = self.build_guarded_block(
                    q + 2,
                    private_access_typeid,
                )?;
                let branch = BranchBody::new(condition, body);
                proof {
                    self@.lemma_else_ifs_prefix(
                        first_end as int,
                        else_if_branches@,
                        else_if_branches@.push(branch),
                        else_if_branches@.len() as int,
                        private_access_typeid,
                    );
                }
                else_if_branches.push(branch);
                end = after;
            } else {
                let open = self.expect(q, '{')?;
                let (else_body, last) = self.build_body(open, private_access_typeid, Place::Block)?;
                return Ok(
                    (
                        Branch::new(
                            BranchBody::new(condition, main_body),
                            else_if_branches,
                            else_body,
                            self.get_context(pos, last),
                        ),
                        last,
                    ),
                );
            }
        }
    }

    fn build_while_loop(&self, pos: usize, private_access_typeid: Option<usize>) -> (r: Result<
        (WhileLoop, usize),
        Error,
    >)
        requires
            self.spec_fits(),
            pos < self.text@.len(),
            self.text@.subrange(pos as int, spec_word_end(self.text@, pos as int)) == "while"@,
        ensures
            r matches Err(e) ==> spec_is_lowering_error(e.kind),
            r matches Ok((_, end)) ==> pos < end <= self.text@.len(),
            r matches Ok((while_loop, end)) ==> while_loop.context == self.spec_context(pos, end)
                && pos + 5 <= self.text@.len() && self@.spec_guarded_at(
                pos + 5,
                &while_loop.condition,
                while_loop.body@,
                private_access_typeid,
            ) == Some(end as int),
            match self@.spec_guarded_end(pos + 5) {
                Ok(e) => r matches Ok((_, end)) && end == e,
                Err(f) => r matches Err(e) && spec_failure(e) == f,
            },
        decreases self.text@.len() - pos, 10int,
    {
        let after_keyword = word_end(&self.text, pos);
        proof {
            reveal_strlit("while");
            assert(self.text@.subrange(pos as int, after_keyword as int).len() == 5);
        }
        let (condition, body, end) = self.build_guarded_block(after_keyword, private_access_typeid)?;
        Ok((WhileLoop::new(condition, body, self.get_context(pos, end)), end))
    }

    fn build_for_loop(&self, pos: usize, private_access_typeid: Option<usize>) -> (r: Result<
        (ForLoop, usize),
        Error,
    >)
        requires
            self.spec_fits(),
            pos < self.text@.len(),
            self.text@.subrange(pos as int, spec_word_end(self.text@, pos as int)) == "for"@,
        ensures
            r matches Err(e) ==> spec_is_lowering_error(e.kind),
            r matches Ok((_, end)) ==> pos < end <= self.text@.len(),
            r matches Ok((for_loop, end)) ==> for_loop.context == self.spec_context(pos, end)
                && self@.spec_for_at(pos as int, for_loop, private_access_typeid) == Some(
                end as int,
            ),
            match self@.spec_for_end(pos as int) {
                Ok(e) => r matches Ok((_, end)) && end == e,
                Err(f) => r matches Err(e) && spec_failure(e) == f,
            },
        decreases self.text@.len() - pos, 10int,
    {
        proof {
            reveal(Grammar::spec_for_end);
            reveal(Grammar::spec_guarded_end);
        }
        let after_keyword = word_end(&self.text, pos);
        proof {
            reveal_strlit("for");
            assert(self.text@.subrange(pos as int, after_keyword as int).len() == 3);
        }
        let (alias_start, alias_end) = self.word(after_keyword)?;
        let alias = self.slice(alias_start, alias_end);
        let (in_start, in_end) = self.word(alias_end)?;
        if !self.word_is(in_start, "in") {
            return Err(self.syntax_error(in_start));
        }
        let operand_start = skip_blanks(&self.text, in_end);
        let (operand, body, end) = self.build_guarded_block(operand_start, private_access_typeid)?;
        Ok(
            (
                ForLoop::new(
                    alias,
                    operand,
                    body,
                    self.get_context(pos, end),
                    minus(operand_start, pos),
                ),
                end,
            ),
        )
    }

    fn build_function_return(&self, pos: usize, private_access_typeid: Option<usize>) -> (r: Result<
        (Return, usize),
        Error,
    >)
        requires
            self.spec_fits(),
            pos < self.text@.len(),
            self.text@.subrange(pos as int, spec_word_end(self.text@, pos as int)) == "return"@,
        ensures
            r matches Err(e) ==> spec_is_lowering_error(e.kind),
            r matches Ok((_, end)) ==> pos < end <= self.text@.len(),
            r matches Ok((function_return, end)) ==> function_return.context == self.spec_context(
                pos,
                end,
            ) && self@.spec_return_at(pos as int, function_return, private_access_typeid) == Some(
                end as int,
            ),
            match self@.spec_return_end(pos as int) {
                Ok(e) => r matches Ok((_, end)) && end == e,
                Err(f) => r matches Err(e) && spec_failure(e) == f,
            },
        decreases self.text@.len() - pos, 10int,
    {
        let after_keyword = word_end(&self.text, pos);
        proof {
            reveal_strlit("return");
            assert(self.text@.subrange(pos as int, after_keyword as int).len() == 6);
        }
        let p = skip_blanks(&self.text, after_keyword);
        match self.peek(p) {
            None | Some(';') | Some('}') => Ok(
                (Return::new(None, self.get_context(pos, after_keyword)), after_keyword),
            ),
            Some(_) => {
                let (expr, end) = self.build_expression(p, private_access_typeid)?;
                Ok((Return::new(Some(expr), self.get_context(pos, end)), end))
            },
        }
    }

    fn build_variable_init(&self, pos: usize, private_access_typeid: Option<usize>) -> (r: Result<
        (VariableInit, usize),
        Error,
    >)
        requires
            self.spec_fits(),
            pos < self.text@.len(),
            self.text@.subrange(pos as int, spec_word_end(self.text@, pos as int)) == "let"@,
        ensures
            r matches Err(e) ==> spec_is_lowering_error(e.kind),
            r matches Ok((_, end)) ==> pos < end <= self.text@.len(),
            r matches Ok((init, end)) ==> init.context == self.spec_context(pos, end)
                && self@.spec_init_at(pos as int, init, private_access_typeid) == Some(end as int),
            match self@.spec_init_end(pos as int) {
                Ok(e) => r matches Ok((_, end)) && end == e,
                Err(f) => r matches Err(e) && spec_failure(e) == f,
            },
        decreases self.text@.len() - pos, 10int,
    {
        let after_keyword = word_end(&self.text, pos);
        proof {
            reveal_strlit("let");
            assert(self.text@.subrange(pos as int, after_keyword as int).len() == 3);
        }
        let mut identifiers: Vec<OptionallyAnnotatedIdentifier> = Vec::new();
        let mut at = after_keyword;
        loop
            invariant_except_break
                self@.spec_names_end(at as int, pos as int) == self@.spec_names_end(
                    pos + 3,
                    pos as int,
                ),
                identifiers@.len() == 0 ==> at == after_keyword,
                identifiers@.len() > 0 ==> (self@.spec_identifiers_end(
                    after_keyword as int,
                    identifiers@,
                    identifiers@.len() as int,
                ) matches Some(end) && spec_expect(self.text@, end, ',') == Some(at as int)),
            invariant
                pos < at <= self.text@.len(),
                self.spec_fits(),
            ensures
                self@.spec_identifiers_end(
                    after_keyword as int,
                    identifiers@,
                    identifiers@.len() as int,
                ) == Some(at as int),
                self@.spec_names_end(pos + 3, pos as int) == Ok::<int, Failure>(at as int),
            decreases self.text@.len() - at,
        {
            proof {
                reveal(Grammar::spec_names_end);
            }
            let (identifier, _, end) = self.build_optionally_annotated_identifier(at, pos)?;
            proof {
                self@.lemma_identifiers_prefix(
                    after_keyword as int,
                    identifiers@,
                    identifiers@.push(identifier),
                    identifiers@.len() as int,
                );
            }
            identifiers.push(identifier);
            let p = skip_blanks(&self.text, end);
            if self.peek(p) == Some(',') {
                at = p + 1;
            } else {
                at = end;
                break ;
            }
        }
        let after_assign = self.expect(at, '=')?;
        let (expr, end) = self.build_expression(after_assign, private_access_typeid)?;
        Ok(
            (
                VariableInit::new(
                    identifiers,
                    minus(after_assign - 1, pos),
                    expr,
                    self.get_context(pos, end),
                ),
                end,
            ),
        )
    }

    /// Lowers an assignment or, where no `=` follows, an expression.
    fn build_variable_assign(&self, pos: usize, private_access_typeid: Option<usize>) -> (r: Result<
        (Instruction, usize),
        Error,
    >)
        requires
            self.spec_fits(),
            pos < self.text@.len(),
            !spec_is_blank(self.text@[pos as int]),
        ensures
            r matches Err(e) ==> spec_is_lowering_error(e.kind),
            r matches Ok((_, end)) ==> pos < end <= self.text@.len(),
            r matches Ok((instruction, end)) ==> instruction.spec_context() == self.spec_context(
                pos,
                end,
            ) && (instruction is Expression || instruction is VariableAssign),
            r matches Ok((Instruction::Expression(expression), end)) ==> self@.spec_expression_at(
                pos as int,
                &expression,
                private_access_typeid,
            ) == Some(end as int) && spec_expect(self.text@, end as int, '=') is None,
            r matches Ok((Instruction::VariableAssign(assign), end)) ==> self@.spec_assign_at(
                pos as int,
                assign,
                private_access_typeid,
            ) == Some(end as int),
            r matches Ok((Instruction::VariableAssign(assign), _)) ==> assign.private_access_typeid
                == private_access_typeid && !spec_is_keyword(assign.identifier@)
                && !self.type_map@.contains_key(assign.identifier@),
            match self@.spec_plain_end(pos as int) {
                Ok(e) => r matches Ok((_, end)) && end == e,
                Err(f) => r matches Err(e) && spec_failure(e) == f,
            },
        decreases self.text@.len() - pos, 10int,
    {
        let mut tokens: Vec<Token> = Vec::new();
        let (target_end, shape) = self.tokenize_expression(
            pos,
            pos,
            &mut tokens,
            private_access_typeid,
            None,
            Ghost(0),
        )?;
        let ghost infix = tokens@;
        assert(self@.spec_infix(pos as int, infix, private_access_typeid) == Some(
            target_end as int,
        ));
        let p = skip_blanks(&self.text, target_end);
        if self.peek(p) != Some('=') {
            let expression = Expression::compile(
                tokens,
                private_access_typeid,
                self.get_context(pos, target_end),
            );
            proof {
                self@.lemma_expression_at(
                    pos as int,
                    &expression,
                    private_access_typeid,
                    infix,
                    target_end as int,
                );
            }
            return Ok((Instruction::Expression(expression), target_end));
        }
        if !shape.plain || shape.tail == Tail::Other {
            return Err(self.syntax_error(p));
        }
        self.build_assignment(pos, tokens, target_end, private_access_typeid, shape)
    }

    /// Lowers the assignment at `pos` whose target, the tokens given, ends
    /// at `target_end`, where `=` follows.
    fn build_assignment(
        &self,
        pos: usize,
        tokens: Vec<Token>,
        target_end: usize,
        private_access_typeid: Option<usize>,
        shape: Shape,
    ) -> (r: Result<(Instruction, usize), Error>)
        requires
            self.spec_fits(),
            pos < target_end <= self.text@.len(),
            self@.spec_infix(pos as int, tokens@, private_access_typeid) == Some(target_end as int),
            spec_expect(self.text@, target_end as int, '=') is Some,
            shape.plain,
            shape.tail != Tail::Other,
            spec_tail_fits(0, tokens@, shape.tail, shape.name, self.type_map@),
            self@.spec_operands_end(pos as int, pos as int, true, false, None) == Ok::<
                (int, Shape),
                Failure,
            >((target_end as int, shape)),
        ensures
            match self@.spec_assignment_end(pos as int, target_end as int, shape) {
                Ok(e) => r matches Ok((_, end)) && end == e,
                Err(f) => r matches Err(e) && spec_failure(e) == f,
            },
            r matches Err(e) ==> spec_is_lowering_error(e.kind),
            r matches Ok((_, end)) ==> pos < end <= self.text@.len(),
            r matches Ok((instruction, end)) ==> instruction.spec_context() == self.spec_context(
                pos,
                end,
            ) && instruction is VariableAssign,
            r matches Ok((Instruction::VariableAssign(assign), _)) ==> assign.private_access_typeid
                == private_access_typeid && !spec_is_keyword(assign.identifier@)
                && !self.type_map@.contains_key(assign.identifier@),
            r matches Ok((Instruction::VariableAssign(assign), end)) ==> self@.spec_assign_at(
                pos as int,
                assign,
                private_access_typeid,
            ) == Some(end as int),
    {
        let ghost infix = tokens@;
        let mut tokens = tokens;
        let p = skip_blanks(&self.text, target_end);
        proof {
            reveal_strlit("self");
        }
        let (identifier, id_pos) = match tokens.pop() {
            Some(Token { pos: id_pos, kind: TokenKind::Identifier(name) }) => (name, id_pos),
            _ => {
                return Err(self.syntax_error(p));
            },
        };
        let source_expr = match tokens.pop() {
            None => None,
            Some(Token { pos: dot_pos, kind: TokenKind::Operator(Operator::Dot) }) => {
                assert(tokens@ =~= infix.drop_last().drop_last());
                Some(
                    (
                        Expression::compile(
                            tokens,
                            private_access_typeid,
                            self.get_context(pos, plus(pos, dot_pos)),
                        ),
                        dot_pos,
                    ),
                )
            },
            Some(_) => {
                return Err(self.syntax_error(p));
            },
        };
        self.validate_identifier(identifier.as_str(), self.get_context(pos, p + 1), id_pos)?;
        let (expr, end) = self.build_expression(p + 1, private_access_typeid)?;
        let assign = VariableAssign::new(
            source_expr,
            identifier,
            private_access_typeid,
            expr,
            self.get_context(pos, end),
            id_pos,
            minus(p, pos),
        );
        proof {
            assert(self@.spec_target(pos as int, infix, assign, private_access_typeid));
            self@.lemma_assign_at(
                pos as int,
                assign,
                private_access_typeid,
                infix,
                target_end as int,
                end as int,
            );
        }
        Ok((Instruction::VariableAssign(assign), end))
    }

    /// Lowers a name that must carry a type annotation. `construct` is
    /// where the construct around it starts.
    fn build_annotated_identifier(&self, pos: usize, construct: usize) -> (r: Result<
        (AnnotatedIdentifier, usize),
        Error,
    >)
        requires
            self.spec_fits(),
            pos <= self.text@.len(),
        ensures
            r matches Err(e) ==> spec_is_lowering_error(e.kind),
            r matches Ok((_, end)) ==> pos < end <= self.text@.len(),
            r matches Ok((id, end)) ==> self@.spec_valid_identifier(id.name@) && (
            self@.spec_identifier_at(pos as int, id.name@, Some(id.typeid)) matches Some((_, e))
                && e == end),
            match self@.spec_annotated_end(pos as int, construct as int) {
                Ok((s, e, t)) => r matches Ok((id, end)) && end == e && id.typeid == t && id.name@
                    == spec_word_at(self.text@, s),
                Err(f) => r matches Err(e) && spec_failure(e) == f,
            },
    {
        let (optional_id, start, end) = self.build_optionally_annotated_identifier(pos, construct)?;
        match AnnotatedIdentifier::from_optional(optional_id) {
            Some(id) => Ok((id, end)),
            None => Err(self.fail(construct, end, start, ErrorKind::MissingAnnotation)),
        }
    }

    /// Lowers a name with or without a type annotation, and gives where the
    /// name starts and where the whole ends.
    fn build_optionally_annotated_identifier(&self, pos: usize, construct: usize) -> (r: Result<
        (OptionallyAnnotatedIdentifier, usize, usize),
        Error,
    >)
        requires
            self.spec_fits(),
            pos <= self.text@.len(),
        ensures
            r matches Err(e) ==> spec_is_lowering_error(e.kind),
            r matches Ok((_, start, end)) ==> pos <= start < end <= self.text@.len(),
            r matches Ok((id, _, _)) ==> !spec_is_keyword(id.name@) && !self.type_map@.contains_key(
                id.name@,
            ),
            r matches Ok((id, start, end)) ==> self@.spec_identifier_at(
                pos as int,
                id.name@,
                id.typeid,
            ) == Some((start as int, end as int)),
            match self@.spec_identifier_end(pos as int, construct as int) {
                Ok((s, e, annotated)) => r matches Ok((id, start, end)) && start == s && end == e
                    && id.typeid == annotated && id.name@ == spec_word_at(self.text@, s),
                Err(f) => r matches Err(e) && spec_failure(e) == f,
            },
    {
        let (start, name_end) = self.word(pos)?;
        let name = self.slice(start, name_end);
        self.validate_identifier(
            name.as_str(),
            self.get_context(construct, name_end),
            minus(start, construct),
        )?;
        let p = skip_blanks(&self.text, name_end);
        if self.peek(p) == Some(':') && !self.looking_at(p, "::") {
            let (type_start, type_end) = self.word(p + 1)?;
            let typename = self.slice(type_start, type_end);
            match self.get_typeid(typename.as_str()) {
                Some(typeid) => Ok(
                    (OptionallyAnnotatedIdentifier::new(name, Some(typeid)), start, type_end),
                ),
                None => Err(
                    self.fail(construct, type_end, type_start, ErrorKind::UnknownType(typename)),
                ),
            }
        } else {
            Ok((OptionallyAnnotatedIdentifier::new(name, None), start, name_end))
        }
    }

    /// Lowers a function definition. Gives the name, where it stands in
    /// the signature, whether the function takes `self`, and the function.
    fn build_function_definition(
        &self,
        pos: usize,
        is_method: bool,
        private_access_typeid: Option<usize>,
    ) -> (r: Result<(String, usize, bool, UserFunction, usize), Error>)
        requires
            self.spec_fits(),
            pos < self.text@.len(),
            self.text@.subrange(pos as int, spec_word_end(self.text@, pos as int)) == "fn"@,
        ensures
            r matches Err(e) ==> spec_is_lowering_error(e.kind),
            r matches Ok((_, _, _, _, end)) ==> pos < end <= self.text@.len(),
            r matches Ok((name, _, uses_self, function, end)) ==> self@.spec_function_at(
                pos as int,
                name@,
                uses_self,
                function,
                is_method,
                private_access_typeid,
            ) == Some(end as int),
            r matches Ok((name, _, uses_self, function, _)) ==> (uses_self ==> is_method)
                && !spec_is_keyword(name@) && !self.type_map@.contains_key(name@)
                && function.context.start == spec_plus(self.offset as int, pos as int)
                && !(function.return_typeid matches Some((id, _)) && id == TYPEID_DYN)
                && forall|i: int|
                0 <= i < function.body@.len() ==> !(#[trigger] function.body@[i] is Break),
            match self@.spec_function_end(pos as int, is_method) {
                Ok((s, e, signature, last)) => r matches Ok((name, at, _, function, end)) && end
                    == last && name@ == self.text@.subrange(s, e) && at == spec_minus(s, pos as int)
                    && function.context == self.spec_context(pos, signature as usize),
                Err(f) => r matches Err(e) && spec_failure(e) == f,
            },
            (exists|name: Seq<char>, uses_self: bool, function: UserFunction| #[trigger]
                self@.spec_function_at(
                    pos as int,
                    name,
                    uses_self,
                    function,
                    is_method,
                    private_access_typeid,
                ) is Some) ==> r is Ok,
        decreases self.text@.len() - pos, 13int,
    {
        let ghost owed = exists|name: Seq<char>, uses_self: bool, function: UserFunction| #[trigger]
            self@.spec_function_at(
                pos as int,
                name,
                uses_self,
                function,
                is_method,
                private_access_typeid,
            ) is Some;
        proof {
            if owed {
                let (name, uses_self, function) = choose|
                    name: Seq<char>,
                    uses_self: bool,
                    function: UserFunction,
                | #[trigger]
                    self@.spec_function_at(
                        pos as int,
                        name,
                        uses_self,
                        function,
                        is_method,
                        private_access_typeid,
                    ) is Some;
                let end = match self@.spec_function_at(
                    pos as int,
                    name,
                    uses_self,
                    function,
                    is_method,
                    private_access_typeid,
                ) {
                    Some(end) => end,
                    None => 0,
                };
                self@.lemma_function(
                    pos as int,
                    name,
                    uses_self,
                    function,
                    is_method,
                    private_access_typeid,
                    end,
                );
            }
        }
        assert(owed ==> self@.spec_function_end(pos as int, is_method) is Ok);
        let after_keyword = word_end(&self.text, pos);
        proof {
            reveal(Grammar::spec_function_at);
            reveal(Grammar::spec_function_end);
            reveal_strlit("fn");
            assert(self.text@.subrange(pos as int, after_keyword as int).len() == 2);
        }
        let (name_start, name_end) = self.word(after_keyword)?;
        let name = self.slice(name_start, name_end);
        self.validate_identifier(
            name.as_str(),
            self.get_context(pos, name_end),
            minus(name_start, pos),
        )?;
        let open = self.expect(name_end, '(')?;
        let mut at = open;
        let mut arguments: Vec<AnnotatedIdentifier> = Vec::new();
        let mut uses_self = false;
        loop
            invariant_except_break
                self@.spec_parameters_close(at as int, pos as int, true, is_method)
                    == self@.spec_parameters_close(open as int, pos as int, true, is_method),
                self@.spec_parameters(
                    open as int,
                    arguments@,
                    arguments@.len() as int,
                    true,
                ) matches Some((e, u)) && spec_gap(self.text@, e, true) == spec_gap(
                    self.text@,
                    at as int,
                    true,
                ) && (u || spec_gap_self(self.text@, e)) == (uses_self || spec_gap_self(
                    self.text@,
                    at as int,
                )),
            invariant
                (exists|name: Seq<char>, uses_self: bool, function: UserFunction| #[trigger]
                    self@.spec_function_at(
                        pos as int,
                        name,
                        uses_self,
                        function,
                        is_method,
                        private_access_typeid,
                    ) is Some) ==> self@.spec_function_end(pos as int, is_method) is Ok,
                self@.spec_parameters_close(open as int, pos as int, true, is_method) matches Err(
                    f,
                ) ==> self@.spec_function_end(pos as int, is_method) == Err::<
                    (int, int, int, int),
                    Failure,
                >(f),
                pos < at <= self.text@.len(),
                self.spec_fits(),
                uses_self ==> is_method,
                !spec_is_keyword(name@),
                !self.type_map@.contains_key(name@),
            ensures
                self@.spec_parameter_list(open as int, arguments@, true) == Some(
                    (at as int, uses_self),
                ),
                self@.spec_parameters_close(open as int, pos as int, true, is_method) == Ok::<
                    int,
                    Failure,
                >(at as int),
            decreases self.text@.len() - at,
        {
            proof {
                reveal(Grammar::spec_parameters_close);
                reveal_strlit("self");
                lemma_skip_blanks(self.text@, at as int);
            }
            let p = skip_blanks(&self.text, at);
            match self.peek(p) {
                Some(')') => {
                    assert(spec_word_end(self.text@, p as int) == p);
                    assert(spec_word_at(self.text@, p as int).len() == 0);
                    at = p + 1;
                    break ;
                },
                Some(',') => {
                    at = p + 1;
                },
                _ => {
                    if self.word_is(p, "self") {
                        if !is_method {
                            return Err(
                                self.fail(pos, p + 4, p, ErrorKind::SelfOutsideMethod),
                            );
                        }
                        uses_self = true;
                        at = p + 4;
                    } else {
                        let (argument, end) = self.build_annotated_identifier(p, pos)?;
                        proof {
                            self@.lemma_parameters_prefix(
                                open as int,
                                arguments@,
                                arguments@.push(argument),
                                arguments@.len() as int,
                                true,
                            );
                        }
                        arguments.push(argument);
                        at = end;
                    }
                },
            }
        }
        let mut signature_end = at;
        let mut return_typeid: Option<(usize, usize)> = Some((TYPEID_NONE, 0));
        let p = skip_blanks(&self.text, at);
        if self.looking_at(p, "->") {
            proof {
                reveal_strlit("->");
            }
            let (type_start, type_end) = self.word(p + 2)?;
            let typename = self.slice(type_start, type_end);
            return_typeid = match self.get_typeid(typename.as_str()) {
                Some(id) => {
                    if id == TYPEID_DYN {
                        None
                    } else {
                        Some((id, plus(self.offset, type_start)))
                    }
                },
                None => {
                    return Err(
                        self.fail(pos, type_end, type_start, ErrorKind::UnknownType(typename)),
                    );
                },
            };
            signature_end = type_end;
        }
        let open = self.expect(signature_end, '{')?;
        let (body, end) = self.build_body(open, private_access_typeid, Place::Function)?;
        Ok(
            (
                name,
                minus(name_start, pos),
                uses_self,
                UserFunction::new(
                    arguments,
                    return_typeid,
                    body,
                    self.get_context(pos, signature_end),
                ),
                end,
            ),
        )
    }

    /// Lowers a class definition under the given type-id. The name of the
    /// class is known as a type while its body is lowered. Gives the name,
    /// the class, where the definition ends, and the members as they stand
    /// in the text.
    fn build_class_definition(&mut self, pos: usize, typeid: usize) -> (r: Result<
        (String, ClassDefinition, usize, Ghost<Seq<Member>>),
        Error,
    >)
        requires
            old(self).spec_fits(),
            pos < old(self).text@.len(),
            old(self).text@.subrange(pos as int, spec_word_end(old(self).text@, pos as int))
                == "class"@,
        ensures
            r matches Err(e) ==> spec_is_lowering_error(e.kind),
            final(self).text == old(self).text,
            final(self).offset == old(self).offset,
            final(self).source == old(self).source,
            r matches Ok((_, class, end, _)) ==> pos < end <= old(self).text@.len() && class.typeid
                == typeid,
            r matches Ok((name, class, end, members)) ==> class.context == old(self).spec_context(
                pos,
                end,
            ) && !spec_is_keyword(name@) && !old(self).type_map@.contains_key(name@)
                && final(self).type_map@ == old(self).type_map@.insert(name@, typeid)
                && class.function_definitions@.contains_key("new"@)
                && !class.function_definitions@["new"@].uses_self
                && class.function_definitions@["new"@].is_public && spec_sound_properties(
                class.property_definitions@,
                typeid,
            ) && old(self)@.spec_class_at(pos as int, name@, class, members@, typeid) == Some(
                end as int,
            ),
            match old(self)@.spec_class_end(pos as int, typeid) {
                Ok((s, e, last)) => r matches Ok((name, _, end, _)) && end == last && name@
                    == old(self).text@.subrange(s, e),
                Err(f) => r matches Err(e) && spec_failure(e) == f,
            },
            (exists|name: Seq<char>, class: ClassDefinition, members: Seq<Member>| #[trigger]
                old(self)@.spec_class_at(pos as int, name, class, members, typeid) is Some)
                ==> r is Ok,
    {
        proof {
            if exists|name: Seq<char>, class: ClassDefinition, members: Seq<Member>| #[trigger]
                self@.spec_class_at(pos as int, name, class, members, typeid) is Some {
                let (name, class, members) = choose|
                    name: Seq<char>,
                    class: ClassDefinition,
                    members: Seq<Member>,
                | #[trigger]
                    self@.spec_class_at(pos as int, name, class, members, typeid) is Some;
                let end = match self@.spec_class_at(pos as int, name, class, members, typeid) {
                    Some(end) => end,
                    None => 0,
                };
                self@.lemma_class(pos as int, name, class, members, typeid, end);
            }
        }
        proof {
            reveal(Grammar::spec_class_at);
        }
        let (name, constructor_parameters, open) = self.build_class_head(pos, typeid)?;
        let (property_definitions, function_definitions, end, members) = self.build_class_body(
            open,
            typeid,
        )?;
        let class = ClassDefinition::new(
            constructor_parameters,
            property_definitions,
            function_definitions,
            typeid,
            self.get_context(pos, end),
        );
        Ok((name, class, end, members))
    }

    /// Lowers the head of a class definition: the name, which from here on
    /// is known as a type with the given type-id, and the parameters of the
    /// constructor. Gives them with the place where the body starts.
    fn build_class_head(&mut self, pos: usize, typeid: usize) -> (r: Result<
        (String, Vec<AnnotatedIdentifier>, usize),
        Error,
    >)
        requires
            old(self).spec_fits(),
            pos < old(self).text@.len(),
            old(self).text@.subrange(pos as int, spec_word_end(old(self).text@, pos as int))
                == "class"@,
        ensures
            r matches Err(e) ==> spec_is_lowering_error(e.kind),
            final(self).text == old(self).text,
            final(self).offset == old(self).offset,
            final(self).source == old(self).source,
            r matches Ok((name, parameters, open)) ==> pos < open <= old(self).text@.len()
                && !spec_is_keyword(name@) && !old(self).type_map@.contains_key(name@)
                && final(self).type_map@ == old(self).type_map@.insert(name@, typeid)
                && final(self)@ == old(self)@.spec_with_type(name@, typeid)
                && old(self)@.spec_class_head(pos as int, name@, parameters@, typeid) == Some(
                open as int,
            ),
            match old(self)@.spec_class_open(pos as int, typeid) {
                Ok((s, e, o)) => r matches Ok((name, _, open)) && open == o && name@ == old(self).text@.subrange(s, e),
                Err(f) => r matches Err(e) && spec_failure(e) == f,
            },
    {
        let after_keyword = word_end(&self.text, pos);
        proof {
            reveal_strlit("class");
            assert(self.text@.subrange(pos as int, after_keyword as int).len() == 5);
        }
        let (name_start, name_end) = self.word(after_keyword)?;
        let name = self.slice(name_start, name_end);
        self.validate_identifier(
            name.as_str(),
            self.get_context(pos, name_end),
            minus(name_start, pos),
        )?;
        self.register_type(self.slice(name_start, name_end), typeid);
        assert(self@ == old(self)@.spec_with_type(name@, typeid));
        proof {
            lemma_skip_blanks(self.text@, name_end as int);
        }
        let (parameters, after) = self.build_constructor_parameters(name_end)?;
        let open = self.expect(after, '{')?;
        Ok((name, parameters, open))
    }

    /// Lowers the members of the class `typeid`, whose body starts at
    /// `open`, up to its closing `}`. Gives the properties, the functions,
    /// the place behind the body, and the members as they stand in the text.
    fn build_class_body(&self, open: usize, typeid: usize) -> (r: Result<
        (Vec<PropertyDefinition>, StringHashMap<ClassFunction>, usize, Ghost<Seq<Member>>),
        Error,
    >)
        requires
            self.spec_fits(),
            open <= self.text@.len(),
        ensures
            r matches Err(e) ==> spec_is_lowering_error(e.kind),
            r matches Ok((properties, functions, end, members)) ==> open < end <= self.text@.len()
                && spec_sound_properties(properties@, typeid) && self@.spec_class_body(
                open as int,
                members@,
                typeid,
            ) == Some(end as int) && properties@ == spec_properties(
                members@,
                members@.len() as int,
            ) && functions@ == spec_methods(members@, members@.len() as int),
            match self@.spec_members_close(
                open as int,
                typeid,
                Set::<Seq<char>>::empty(),
                Set::<Seq<char>>::empty(),
            ) {
                Ok(e) => r matches Ok((_, _, end, _)) && end == e,
                Err(f) => r matches Err(e) && spec_failure(e) == f,
            },
    {
        let mut property_definitions: Vec<PropertyDefinition> = Vec::new();
        let mut property_names: StringHashMap<bool> = StringHashMap::new();
        let mut function_definitions: StringHashMap<ClassFunction> = StringHashMap::new();
        let ghost mut members: Seq<Member> = Seq::empty();
        let mut at = open;
        assert(property_names@.dom() =~= Set::<Seq<char>>::empty());
        assert(function_definitions@.dom() =~= Set::<Seq<char>>::empty());
        loop
            invariant
                open <= at <= self.text@.len(),
                self.spec_fits(),
                spec_sound_properties(property_definitions@, typeid),
                forall|i: int|
                    0 <= i < property_definitions@.len() ==> property_names@.contains_key(
                        (#[trigger] property_definitions@[i]).id.name@,
                    ),
                self@.spec_members(open as int, members, members.len() as int, typeid) == Some(
                    at as int,
                ),
                property_definitions@ == spec_properties(members, members.len() as int),
                function_definitions@ == spec_methods(members, members.len() as int),
                self@.spec_members_close(
                    at as int,
                    typeid,
                    property_names@.dom(),
                    function_definitions@.dom(),
                ) == self@.spec_members_close(
                    open as int,
                    typeid,
                    Set::<Seq<char>>::empty(),
                    Set::<Seq<char>>::empty(),
                ),
            decreases self.text@.len() - at,
        {
            proof {
                reveal(Grammar::spec_members_close);
                reveal_strlit("pub");
            }
            let start = self.skip_separators(at);
            if self.peek(start) == Some('}') {
                return Ok(
                    (property_definitions, function_definitions, start + 1, Ghost(members)),
                );
            }
            let mut member = start;
            let mut is_public = false;
            if self.word_is(start, "pub") {
                proof {
                    reveal_strlit("pub");
                }
                is_public = true;
                member = skip_blanks(&self.text, start + 3);
            }
            if member >= self.text.len() {
                return Err(self.syntax_error(member));
            }
            if self.word_is(member, "fn") {
                let (name, name_pos, uses_self, function, end) = self.build_function_definition(
                    member,
                    true,
                    Some(typeid),
                )?;
                if function_definitions.contains_key(name.as_str()) {
                    return Err(
                        Error::new(function.context(), name_pos, ErrorKind::FunctionAlreadyDefined),
                    );
                }
                let class_function = ClassFunction::new(
                    Function::UserFunction(function),
                    uses_self,
                    is_public,
                );
                proof {
                    let next = members.push(Member::Function(name, class_function));
                    self@.lemma_members_end_prefix(
                        open as int,
                        members,
                        next,
                        members.len() as int,
                        typeid,
                    );
                    lemma_members_prefix(members, next, members.len() as int);
                    members = next;
                }
                let ghost known = function_definitions@.dom();
                function_definitions.insert(name, class_function);
                assert(function_definitions@.dom() =~= known.insert(name@));
                at = end;
            } else {
                let (property, end) = self.build_property(
                    start,
                    member,
                    is_public,
                    typeid,
                    &property_names,
                )?;
                let ghost known = property_names@.dom();
                property_names.insert(String::from_str(property.id.name()), true);
                assert(property_names@.dom() =~= known.insert(property.id.name@));
                let ghost before = property_definitions@;
                proof {
                    let next = members.push(Member::Property(property));
                    self@.lemma_members_end_prefix(
                        open as int,
                        members,
                        next,
                        members.len() as int,
                        typeid,
                    );
                    lemma_members_prefix(members, next, members.len() as int);
                    members = next;
                }
                property_definitions.push(property);
                assert(forall|i: int|
                    0 <= i < before.len() ==> property_definitions@[i] == before[i]);
                at = end;
            }
        }
    }

    /// Lowers the property of the class `typeid` that stands at `at`, as a
    /// member that starts at `start`. `names` holds the names of the
    /// properties before it.
    fn build_property(
        &self,
        start: usize,
        at: usize,
        is_public: bool,
        typeid: usize,
        names: &StringHashMap<bool>,
    ) -> (r: Result<(PropertyDefinition, usize), Error>)
        requires
            self.spec_fits(),
            start <= at < self.text@.len(),
        ensures
            r matches Err(e) ==> spec_is_lowering_error(e.kind),
            r matches Ok((property, end)) ==> at < end <= self.text@.len() && property.is_public
                == is_public && property.id.typeid != typeid && !names@.contains_key(
                property.id.name@,
            )
                && property.init_expression.private_access_typeid == Some(typeid)
                && self@.spec_property_at(start as int, at as int, property, typeid) == Some(
                end as int,
            ),
            match self@.spec_property_end(start as int, at as int, typeid, names@.dom()) {
                Ok((s, e)) => r matches Ok((property, end)) && end == e && property.id.name@
                    == spec_word_at(self.text@, s),
                Err(f) => r matches Err(e) && spec_failure(e) == f,
            },
    {
        proof {
            reveal(Grammar::spec_property_end);
        }
        let (annotated_id, id_end) = self.build_annotated_identifier(at, start)?;
        if annotated_id.typeid() == typeid {
            return Err(self.fail(start, id_end, at, ErrorKind::RecursiveType));
        }
        if names.contains_key(annotated_id.name()) {
            return Err(self.fail(start, id_end, at, ErrorKind::MemberAlreadyDefined));
        }
        let after_assign = self.expect(id_end, '=')?;
        let (init_expr, end, made) = self.build_expression_watching(
            after_assign,
            Some(typeid),
            Some(typeid),
        )?;
        if made {
            return Err(self.fail(start, end, at, ErrorKind::RecursiveType));
        }
        Ok(
            (
                PropertyDefinition::new(
                    is_public,
                    annotated_id,
                    init_expr,
                    self.get_context(start, end),
                    minus(after_assign - 1, start),
                ),
                end,
            ),
        )
    }

    /// Lowers the parameters of a constructor, which stand in parentheses
    /// behind the blanks at `pos`, where any do. Gives them with the place
    /// where they end.
    fn build_constructor_parameters(&self, pos: usize) -> (r: Result<
        (Vec<AnnotatedIdentifier>, usize),
        Error,
    >)
        requires
            self.spec_fits(),
            pos <= self.text@.len(),
        ensures
            r matches Err(e) ==> spec_is_lowering_error(e.kind),
            r matches Ok((parameters, end)) ==> pos <= end <= self.text@.len() && ({
                let a = spec_skip_blanks(self.text@, pos as int);
                if a < self.text@.len() && self.text@[a] == '(' {
                    self@.spec_parameter_list(a + 1, parameters@, false) matches Some((e, _)) && e
                        == end
                } else {
                    parameters@.len() == 0 && end == a
                }
            }),
            match ({
                let a = spec_skip_blanks(self.text@, pos as int);
                if a < self.text@.len() && self.text@[a] == '(' {
                    self@.spec_parameters_close(a + 1, pos as int, false, false)
                } else {
                    Ok(a)
                }
            }) {
                Ok(e) => r matches Ok((_, end)) && end == e,
                Err(f) => r matches Err(e) && spec_failure(e) == f,
            },
    {
        let mut parameters: Vec<AnnotatedIdentifier> = Vec::new();
        let a = skip_blanks(&self.text, pos);
        if self.peek(a) != Some('(') {
            return Ok((parameters, a));
        }
        let open = a + 1;
        let mut at = open;
        loop
            invariant_except_break
                self@.spec_parameters_close(at as int, pos as int, false, false)
                    == self@.spec_parameters_close(open as int, pos as int, false, false),
                self@.spec_parameters(
                    open as int,
                    parameters@,
                    parameters@.len() as int,
                    false,
                ) matches Some((e, _)) && spec_gap(self.text@, e, false) == spec_gap(
                    self.text@,
                    at as int,
                    false,
                ),
            invariant
                open == spec_skip_blanks(self.text@, pos as int) + 1,
                self.text@[open - 1] == '(',
                pos < open <= at <= self.text@.len(),
                self.spec_fits(),
            ensures
                self@.spec_parameter_list(open as int, parameters@, false) matches Some((e, _))
                    && e == at,
                self@.spec_parameters_close(open as int, pos as int, false, false) == Ok::<
                    int,
                    Failure,
                >(at as int),
            decreases self.text@.len() - at,
        {
            proof {
                reveal(Grammar::spec_parameters_close);
                lemma_skip_blanks(self.text@, at as int);
            }
            let p = skip_blanks(&self.text, at);
            match self.peek(p) {
                Some(')') => {
                    at = p + 1;
                    break ;
                },
                Some(',') => {
                    at = p + 1;
                },
                _ => {
                    let (parameter, end) = self.build_annotated_identifier(p, pos)?;
                    proof {
                        self@.lemma_parameters_prefix(
                            open as int,
                            parameters@,
                            parameters@.push(parameter),
                            parameters@.len() as int,
                            false,
                        );
                    }
                    parameters.push(parameter);
                    at = end;
                },
            }
        }
        Ok((parameters, at))
    }

    /// Lowers the whole text: functions and classes are registered in the
    /// session as they are met, the other statements are handed back in
    /// order. It succeeds exactly where a program stands in the text, and
    /// fails else with the failure that [`Grammar::spec_program_stands`]
    /// gives. What is handed back, and what the session holds then, is what
    /// the items that stand in the text give ([`spec_lowered`]). Where
    /// lowering fails, the session holds what the items before the failure
    /// have given it ([`spec_halted`]).
    pub fn build(&mut self, session: &mut ParseSession) -> (r: Result<Vec<Instruction>, Error>)
        requires
            old(self).spec_fits(),
        ensures
            r matches Err(e) ==> spec_is_lowering_error(e.kind),
            final(session).source_code == old(session).source_code,
            final(session).offset == old(session).offset,
            final(session).type_names@.len() >= old(session).type_names@.len(),
            old(session).spec_wf() ==> final(session).spec_wf(),
            r matches Ok(instructions) ==> forall|i: int|
                0 <= i < instructions@.len() ==> spec_fits_place(
                    #[trigger] instructions@[i],
                    Place::Program,
                ),
            r matches Ok(instructions) ==> exists|items: Seq<Item>|
                instructions@ == #[trigger] spec_statements_of(items, items.len() as int)
                    && spec_lowered(
                    old(self)@,
                    *old(session),
                    *final(session),
                    items,
                    instructions@,
                ),
            r is Err ==> exists|items: Seq<Item>|
                final(session).class_definitions@ == old(session).class_definitions@
                    + #[trigger] spec_classes_of(items, items.len() as int) && spec_halted(
                    old(self)@,
                    *old(session),
                    *final(session),
                    items,
                ),
            match old(self)@.spec_program_stands(
                0,
                old(self).type_map@,
                old(session).spec_next_typeid() as usize,
                old(session).function_store@.dom(),
            ) {
                Ok(_) => r is Ok,
                Err(f) => r matches Err(e) && spec_failure(e) == f,
            },
            (exists|items: Seq<Item>| #[trigger]
                old(self)@.spec_program(old(session).spec_next_typeid(), items)
                    && spec_fresh_functions(old(session).function_store@, items)) ==> r is Ok,
    {
        proof {
            if exists|items: Seq<Item>| #[trigger]
                self@.spec_program(session.spec_next_typeid(), items) && spec_fresh_functions(
                    session.function_store@,
                    items,
                ) {
                let items = choose|items: Seq<Item>| #[trigger]
                    self@.spec_program(session.spec_next_typeid(), items) && spec_fresh_functions(
                        session.function_store@,
                        items,
                    );
                self@.lemma_program(session.spec_next_typeid(), session.function_store@, items);
            }
        }
        let (r, items) = self.build_items(session);
        proof {
            reveal(spec_lowered);
            reveal(spec_halted);
            match &r {
                Ok(instructions) => {
                    assert(instructions@ == spec_statements_of(items@, items@.len() as int));
                },
                Err(_) => {
                    assert(session.class_definitions@ == old(session).class_definitions@
                        + spec_classes_of(items@, items@.len() as int));
                },
            }
        }
        r
    }

    /// Lowers the whole text, as [`Builder::build`] does, and gives besides
    /// the instructions the items that stand in the text.
    fn build_items(&mut self, session: &mut ParseSession) -> (out: (
        Result<Vec<Instruction>, Error>,
        Ghost<Seq<Item>>,
    ))
        requires
            old(self).spec_fits(),
        ensures
            out.0 matches Err(e) ==> spec_is_lowering_error(e.kind),
            out.0 is Err ==> spec_halted(old(self)@, *old(session), *final(session), out.1@),
            final(session).source_code == old(session).source_code,
            final(session).offset == old(session).offset,
            final(session).type_names@.len() >= old(session).type_names@.len(),
            old(session).spec_wf() ==> final(session).spec_wf(),
            out.0 matches Ok(instructions) ==> forall|i: int|
                0 <= i < instructions@.len() ==> spec_fits_place(
                    #[trigger] instructions@[i],
                    Place::Program,
                ),
            out.0 matches Ok(instructions) ==> spec_lowered(
                old(self)@,
                *old(session),
                *final(session),
                out.1@,
                instructions@,
            ),
            match old(self)@.spec_program_stands(
                0,
                old(self).type_map@,
                old(session).spec_next_typeid() as usize,
                old(session).function_store@.dom(),
            ) {
                Ok(_) => out.0 is Ok,
                Err(f) => out.0 matches Err(e) && spec_failure(e) == f,
            },
    {
        let mut result: Vec<Instruction> = Vec::new();
        let mut at: usize = 0;
        let ghost mut items: Seq<Item> = Seq::empty();
        proof {
            reveal(Grammar::spec_program_stands);
            lemma_lowering_start(self@, *session);
        }
        loop
            invariant
                at <= self.text@.len(),
                self.spec_fits(),
                self.text == old(self).text,
                self.offset == old(self).offset,
                self.source == old(self).source,
                session.source_code == old(session).source_code,
                session.offset == old(session).offset,
                session.type_names@.len() >= old(session).type_names@.len(),
                old(session).spec_wf() ==> session.spec_wf(),
                forall|i: int|
                    0 <= i < result@.len() ==> spec_fits_place(#[trigger] result@[i], Place::Program),
                spec_lowering(
                    old(self)@,
                    *old(session),
                    *session,
                    self.type_map@,
                    items,
                    result@,
                    at as int,
                ),
                old(self)@.spec_program_stands(
                    at as int,
                    self.type_map@,
                    session.spec_next_typeid() as usize,
                    session.function_store@.dom(),
                ) == old(self)@.spec_program_stands(
                    0,
                    old(self).type_map@,
                    old(session).spec_next_typeid() as usize,
                    old(session).function_store@.dom(),
                ),
            ensures
                spec_skip_separators(self.text@, at as int) >= self.text@.len(),
            decreases self.text@.len() - at,
        {
            proof {
                reveal(Grammar::spec_program_stands);
            }
            let start = self.skip_separators(at);
            if start >= self.text.len() {
                break ;
            }
            let ghost now = *session;
            let ghost types = self.type_map@;
            let ghost before = result@;
            assert(old(self)@.spec_with_types(types) == self@);
            if self.word_is(start, "class") {
                let (end, item) = match self.build_class_item(session, start) {
                    Ok(built) => built,
                    Err(e) => {
                        proof {
                            lemma_lowering_halt(
                                old(self)@,
                                *old(session),
                                now,
                                *session,
                                types,
                                items,
                                before,
                                at as int,
                            );
                        }
                        return (Err(e), Ghost(items));
                    },
                };
                proof {
                    lemma_lowering_step(
                        old(self)@,
                        *old(session),
                        now,
                        *session,
                        types,
                        items,
                        before,
                        at as int,
                        item@,
                        end as int,
                        self.type_map@,
                    );
                    items = items.push(item@);
                }
                at = end;
            } else if self.word_is(start, "fn") {
                let (end, item) = match self.build_function_item(session, start) {
                    Ok(built) => built,
                    Err(e) => {
                        proof {
                            lemma_lowering_halt(
                                old(self)@,
                                *old(session),
                                now,
                                *session,
                                types,
                                items,
                                before,
                                at as int,
                            );
                        }
                        return (Err(e), Ghost(items));
                    },
                };
                proof {
                    lemma_lowering_step(
                        old(self)@,
                        *old(session),
                        now,
                        *session,
                        types,
                        items,
                        before,
                        at as int,
                        item@,
                        end as int,
                        types,
                    );
                    items = items.push(item@);
                }
                at = end;
            } else {
                let (instruction, end) = match self.build_statement(
                    start,
                    None,
                    Place::Program,
                ) {
                    Ok(built) => built,
                    Err(e) => {
                        proof {
                            lemma_lowering_halt(
                                old(self)@,
                                *old(session),
                                now,
                                *session,
                                types,
                                items,
                                before,
                                at as int,
                            );
                        }
                        return (Err(e), Ghost(items));
                    },
                };
                proof {
                    self@.lemma_statement_item(
                        start as int,
                        instruction,
                        session.spec_next_typeid() as int,
                        end as int,
                    );
                    lemma_lowering_step(
                        old(self)@,
                        *old(session),
                        now,
                        *session,
                        types,
                        items,
                        before,
                        at as int,
                        Item::Statement(instruction),
                        end as int,
                        types,
                    );
                    items = items.push(Item::Statement(instruction));
                }
                result.push(instruction);
                at = end;
            }
        }
        proof {
            lemma_lowering_end(
                old(self)@,
                *old(session),
                *session,
                self.type_map@,
                items,
                result@,
                at as int,
            );
        }
        (Ok(result), Ghost(items))
    }

    /// Lowers the class that is defined at `pos` and registers it in the
    /// session. Gives where the definition ends, and the class as an item.
    fn build_class_item(&mut self, session: &mut ParseSession, pos: usize) -> (r: Result<
        (usize, Ghost<Item>),
        Error,
    >)
        requires
            old(self).spec_fits(),
            pos < old(self).text@.len(),
            old(self).text@.subrange(pos as int, spec_word_end(old(self).text@, pos as int))
                == "class"@,
        ensures
            r matches Err(e) ==> spec_is_lowering_error(e.kind),
            final(self).text == old(self).text,
            final(self).offset == old(self).offset,
            final(self).source == old(self).source,
            final(session).source_code == old(session).source_code,
            final(session).offset == old(session).offset,
            final(session).type_names@.len() >= old(session).type_names@.len(),
            old(session).spec_wf() ==> final(session).spec_wf(),
            r is Err ==> final(session).class_definitions == old(session).class_definitions
                && final(session).type_names == old(session).type_names && final(session).function_store == old(session).function_store,
            r matches Ok((end, item)) ==> pos < end <= old(self).text@.len() && item@ is Class
                && spec_registered(*old(session), *final(session), item@) && old(self)@.spec_item_at(pos as int, item@, old(session).spec_next_typeid()) == Some(
                (end as int, final(self).type_map@, final(session).spec_next_typeid()),
            ),
            match old(self)@.spec_class_end(pos as int, old(session).spec_next_typeid() as usize) {
                Ok((s, e, last)) => if old(session).spec_next_typeid() < usize::MAX {
                    r matches Ok((end, _)) && end == last && final(self).type_map@ == old(self).type_map@.insert(
                        old(self).text@.subrange(s, e),
                        old(session).spec_next_typeid() as usize,
                    ) && final(session).spec_next_typeid() == old(session).spec_next_typeid() + 1
                } else {
                    r matches Err(e) && spec_failure(e) == old(self)@.spec_syntax(pos as int)
                },
                Err(f) => r matches Err(e) && spec_failure(e) == f,
            },
    {
        let typeid = session.get_next_typeid();
        let (name, class_definition, end, members) = self.build_class_definition(pos, typeid)?;
        if typeid == usize::MAX {
            return Err(self.syntax_error(pos));
        }
        let ghost item = Item::Class(name, class_definition, members@);
        proof {
            old(self)@.lemma_class_item(
                pos as int,
                name,
                class_definition,
                members@,
                typeid as int,
                end as int,
            );
        }
        session.add_class_definition(name, class_definition);
        Ok((end, Ghost(item)))
    }

    /// Lowers the function that is defined at `pos` and registers it in the
    /// session, unless the session has a function of that name. Gives where
    /// the definition ends, and the function as an item.
    fn build_function_item(&self, session: &mut ParseSession, pos: usize) -> (r: Result<
        (usize, Ghost<Item>),
        Error,
    >)
        requires
            self.spec_fits(),
            pos < self.text@.len(),
            self.text@.subrange(pos as int, spec_word_end(self.text@, pos as int)) == "fn"@,
            self.text@.subrange(pos as int, spec_word_end(self.text@, pos as int)) != "class"@,
        ensures
            r matches Err(e) ==> spec_is_lowering_error(e.kind),
            final(session).source_code == old(session).source_code,
            final(session).offset == old(session).offset,
            final(session).type_names == old(session).type_names,
            final(session).class_definitions == old(session).class_definitions,
            r is Err ==> final(session).function_store@ == old(session).function_store@,
            r matches Ok((end, item)) ==> pos < end <= self.text@.len() && item@ is Function
                && spec_registered(*old(session), *final(session), item@) && self@.spec_item_at(
                pos as int,
                item@,
                old(session).spec_next_typeid(),
            ) == Some((end as int, self.type_map@, old(session).spec_next_typeid())),
            match self@.spec_function_end(pos as int, false) {
                Ok((s, e, signature, last)) => if old(session).function_store@.contains_key(
                    self.text@.subrange(s, e),
                ) {
                    r matches Err(e) && spec_failure(e) == self@.spec_defined_twice(
                        pos as int,
                        s,
                        signature,
                    )
                } else {
                    r matches Ok((end, _)) && end == last && final(session).function_store@.dom()
                        == old(session).function_store@.dom().insert(self.text@.subrange(s, e))
                },
                Err(f) => r matches Err(e) && spec_failure(e) == f,
            },
    {
        let (name, name_pos, _uses_self, function, end) = self.build_function_definition(
            pos,
            false,
            None,
        )?;
        let context = function.context();
        let ghost item = Item::Function(name, function);
        proof {
            self@.lemma_function_item(
                pos as int,
                name,
                function,
                session.spec_next_typeid() as int,
                end as int,
            );
        }
        if !session.add_function(name, Function::UserFunction(function)) {
            return Err(Error::new(context, name_pos, ErrorKind::FunctionAlreadyDefined));
        }
        Ok((end, Ghost(item)))
    }
}

/// Feeds `input` to the session and lowers it. The input joins the source
/// buffer; its functions and classes are registered; its other statements
/// are handed back in the order in which they stand. The input is read as
/// [`spec_grammar`] says: with the types that the session knew before, and
/// with spans counted from the start of the source buffer. Lowering succeeds
/// exactly where [`spec_parsed`] says, and fails else with the kind of
/// error, the span and the place that it gives. What is handed back, and
/// what the session holds then, is what the items that stand in the input
/// give ([`spec_lowered`]); where lowering fails, the session holds what the
/// items before the failure have given it ([`spec_halted`]).
pub fn parse(input: &str, session: &mut ParseSession) -> (r: Result<Vec<Instruction>, Error>)
    ensures
        r matches Err(e) ==> spec_is_lowering_error(e.kind),
        final(session).source_code@ == ParseSession::spec_appended(
            old(session).source_code@,
            input@,
        ),
        final(session).offset == if old(session).source_code@.len() > 0 {
            old(session).source_code@.len() as usize
        } else {
            old(session).offset
        },
        final(session).type_names@.len() >= old(session).type_names@.len(),
        old(session).spec_wf() ==> final(session).spec_wf(),
        r matches Ok(instructions) ==> forall|i: int|
            0 <= i < instructions@.len() ==> spec_fits_place(
                #[trigger] instructions@[i],
                Place::Program,
            ),
        r matches Ok(instructions) ==> exists|items: Seq<Item>|
            instructions@ == #[trigger] spec_statements_of(items, items.len() as int)
                && spec_lowered(
                spec_grammar(input@, *old(session), *final(session)),
                *old(session),
                *final(session),
                items,
                instructions@,
            ),
        r is Err ==> exists|items: Seq<Item>|
            final(session).class_definitions@ == old(session).class_definitions@
                + #[trigger] spec_classes_of(items, items.len() as int) && spec_halted(
                spec_grammar(input@, *old(session), *final(session)),
                *old(session),
                *final(session),
                items,
            ),
        match spec_parsed(
            spec_grammar(input@, *old(session), *final(session)),
            old(session).spec_next_typeid() as usize,
            old(session).function_store@.dom(),
        ) {
            Ok(_) => r is Ok,
            Err(f) => r matches Err(e) && spec_failure(e) == f,
        },
        final(session).offset + input@.len() <= usize::MAX && (exists|items: Seq<Item>| #[trigger]
            spec_grammar(input@, *old(session), *final(session)).spec_program(
                old(session).spec_next_typeid(),
                items,
            ) && spec_fresh_functions(old(session).function_store@, items)) ==> r is Ok,
{
    session.append_source_code(input);
    let offset = session.get_source_code_offset();
    let mut builder = Builder::new(
        offset,
        to_chars(input),
        to_chars(session.get_source_code()),
        session.create_typemap(),
    );
    let ghost fed = *session;
    let ghost grammar = builder@;
    proof {
        old(session).lemma_typemap(&fed, old(session).spec_next_typeid());
        assert(grammar == spec_grammar(input@, *old(session), *session));
    }
    if offset > usize::MAX - builder.text.len() {
        proof {
            let none = Seq::<Item>::empty();
            lemma_lowering_start(grammar, fed);
            lemma_lowering_halt(grammar, fed, fed, fed, grammar.types, none, Seq::empty(), 0);
            lemma_halted_from(grammar, fed, *old(session), fed, none);
            assert(spec_classes_of(none, none.len() as int) == Seq::<ClassDefinition>::empty());
        }
        return Err(builder.syntax_error(0));
    }
    proof {
        if exists|items: Seq<Item>| #[trigger]
            grammar.spec_program(fed.spec_next_typeid(), items) && spec_fresh_functions(
                fed.function_store@,
                items,
            ) {
            let items = choose|items: Seq<Item>| #[trigger]
                grammar.spec_program(fed.spec_next_typeid(), items) && spec_fresh_functions(
                    fed.function_store@,
                    items,
                );
            grammar.lemma_program(fed.spec_next_typeid(), fed.function_store@, items);
        }
    }
    let r = builder.build(session);
    proof {
        if r is Err {
            let items = choose|items: Seq<Item>|
                session.class_definitions@ == fed.class_definitions@ + #[trigger] spec_classes_of(
                    items,
                    items.len() as int,
                ) && spec_halted(grammar, fed, *session, items);
            lemma_halted_from(grammar, fed, *old(session), *session, items);
        }
        if let Ok(instructions) = &r {
            let items = choose|items: Seq<Item>|
                instructions@ == #[trigger] spec_statements_of(items, items.len() as int)
                    && spec_lowered(grammar, fed, *session, items, instructions@);
            assert(grammar == spec_grammar(input@, *old(session), *session));
            lemma_lowered_from(grammar, fed, *old(session), *session, items, instructions@);
        }
    }
    r
}

/// Whether the text of `grammar` can be lowered, or why it cannot: its
/// places are places of the source buffer that an index can hold, or the
/// syntax breaks at its start; and a program stands in it
/// ([`Grammar::spec_program_stands`]).
pub open spec fn spec_parsed(grammar: Grammar, next: usize, functions: Set<Seq<char>>) -> Result<
    (),
    Failure,
> {
    if grammar.offset + grammar.text.len() > usize::MAX {
        Err(grammar.spec_syntax(0))
    } else {
        grammar.spec_program_stands(0, grammar.types, next, functions)
    }
}

/// What lowering reads when `input` is fed to the session `before`, which
/// becomes the session `after`: the input, where it starts in the source
/// buffer, the buffer with the input in it, and the types that the session
/// knew before.
pub open spec fn spec_grammar(input: Seq<char>, before: ParseSession, after: ParseSession) -> Grammar {
    Grammar {
        offset: after.offset,
        text: input,
        source: after.source_code@,
        types: before.spec_typemap(before.spec_next_typeid()),
    }
}

} // verus!
