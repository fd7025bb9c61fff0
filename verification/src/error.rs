//! Error kinds, source spans, and the rendering of an error with its source
//! marker and backtrace.

use vstd::prelude::*;
use crate::parser::{
    lemma_line_start_same_line, line_end, scan_line, spec_clamp, spec_line_end, spec_line_start,
    spec_newlines_before, spec_succ, succ,
};
use crate::session::BacktraceItem;
use crate::text::{
    from_chars, nat_text, push_int, push_nat, push_padded_nat, push_range, push_repeated, push_str,
    spec_int_text, spec_nat_text, spec_pad_left, to_chars,
};
use crate::token::Operator;

verus! {

#[derive(Debug, Clone)]
pub enum ErrorKind {
    CustomError(String),
    // General errors
    SyntaxError,
    ZeroDivision,
    FunctionNotFound,
    FunctionAlreadyDefined,
    IdentifierNotFound,
    IdentifierIsKeyword,
    IdentifierIsTypename,
    InvalidNumberOfArguments,
    IterationLimitReached,
    IndexOutOfRange(i64, usize),
    // Type related errors
    UnknownType(String),
    InvalidOperationForType(Operator, String),
    InvalidOperationForTypes(Operator, String, String),
    ConditionalExpressionNotBool(String),
    InvalidAssignment(String, String),
    InvalidArgumentType(String, String),
    InvalidReturnType(String, String),
    ForLoopNotVec(String),
    MissingAnnotation,
    // Class related errors
    HasNoMember(String, String),
    InvalidMemberAccess,
    InvalidScopeAccess,
    SelfOutsideMethod,
    MemberAlreadyDefined,
    RecursiveType,
    MemberIsPrivate(String),
    MemberFunctionIsPrivate(String),
}

impl ErrorKind {
    /// The message shown to the user for this kind of error.
    pub open spec fn spec_message(self) -> Seq<char> {
        match self {
            ErrorKind::CustomError(message) => message@,
            ErrorKind::SyntaxError => "Syntax error"@,
            ErrorKind::ZeroDivision => "Division by zero"@,
            ErrorKind::FunctionNotFound => "Function not found"@,
            ErrorKind::FunctionAlreadyDefined => "Function is already defined"@,
            ErrorKind::IdentifierNotFound => "Identifier not found"@,
            ErrorKind::IdentifierIsKeyword => "Expected identifier, found keyword"@,
            ErrorKind::IdentifierIsTypename => "Expected identifier, found type"@,
            ErrorKind::InvalidNumberOfArguments => "Invalid number of arguments passed to function"@,
            ErrorKind::IterationLimitReached => "Maximum iteration count reached"@,
            ErrorKind::IndexOutOfRange(i, s) => "Index '"@ + spec_int_text(i as int)
                + "' is out of range for size '"@ + spec_nat_text(s as nat) + "'"@,
            ErrorKind::UnknownType(t) => "Unknown type '"@ + t@ + "'"@,
            ErrorKind::InvalidOperationForType(op, t) => "Invalid operation '"@ + op.spec_symbol()
                + "' for type '"@ + t@ + "'"@,
            ErrorKind::InvalidOperationForTypes(op, t1, t2) => "Invalid operation '"@
                + op.spec_symbol() + "' for types '"@ + t1@ + "' and '"@ + t2@ + "'"@,
            ErrorKind::ConditionalExpressionNotBool(t) =>
                "Conditional statement must receive a 'bool', found '"@ + t@ + "'"@,
            ErrorKind::InvalidAssignment(t1, t2) => "Cannot assign to variable with type '"@ + t1@
                + "' a value of type '"@ + t2@ + "'"@,
            ErrorKind::InvalidArgumentType(t1, t2) => "Invalid argument type '"@ + t1@
                + "', expected '"@ + t2@ + "'"@,
            ErrorKind::InvalidReturnType(t1, t2) => "Function returned type '"@ + t1@
                + "', but its signature expects '"@ + t2@ + "'"@,
            ErrorKind::ForLoopNotVec(t) => "For loop operand is of type '"@ + t@
                + "' but it must be of type 'Vec'"@,
            ErrorKind::MissingAnnotation => "Missing type annotation"@,
            ErrorKind::HasNoMember(t, name) => "Object of type '"@ + t@
                + "' has no member called '"@ + name@ + "'"@,
            ErrorKind::InvalidMemberAccess => "Invalid member access"@,
            ErrorKind::InvalidScopeAccess => "Invalid scope access"@,
            ErrorKind::SelfOutsideMethod => "The 'self' parameter is only allowed in methods"@,
            ErrorKind::MemberAlreadyDefined => "A member with this name is already defined"@,
            ErrorKind::RecursiveType => "Recursive types are not allowed during initialization"@,
            ErrorKind::MemberIsPrivate(name) => "Member '"@ + name@ + "' is private"@,
            ErrorKind::MemberFunctionIsPrivate(name) => "Member function '"@ + name@
                + "' is private"@,
        }
    }

    /// Appends the message of this error kind to `out`.
    pub fn push_message(&self, out: &mut Vec<char>)
        ensures
            final(out)@ == old(out)@ + self.spec_message(),
    {
        match self {
            ErrorKind::CustomError(message) => push_str(out, message.as_str()),
            ErrorKind::SyntaxError => push_str(out, "Syntax error"),
            ErrorKind::ZeroDivision => push_str(out, "Division by zero"),
            ErrorKind::FunctionNotFound => push_str(out, "Function not found"),
            ErrorKind::FunctionAlreadyDefined => push_str(out, "Function is already defined"),
            ErrorKind::IdentifierNotFound => push_str(out, "Identifier not found"),
            ErrorKind::IdentifierIsKeyword => push_str(out, "Expected identifier, found keyword"),
            ErrorKind::IdentifierIsTypename => push_str(out, "Expected identifier, found type"),
            ErrorKind::InvalidNumberOfArguments => push_str(
                out,
                "Invalid number of arguments passed to function",
            ),
            ErrorKind::IterationLimitReached => push_str(out, "Maximum iteration count reached"),
            ErrorKind::IndexOutOfRange(i, s) => {
                push_str(out, "Index '");
                push_int(out, *i);
                push_str(out, "' is out of range for size '");
                push_nat(out, *s as u64);
                push_str(out, "'");
                assert(out@ =~= old(out)@ + self.spec_message());
            },
            ErrorKind::UnknownType(t) => {
                push_str(out, "Unknown type '");
                push_str(out, t.as_str());
                push_str(out, "'");
                assert(out@ =~= old(out)@ + self.spec_message());
            },
            ErrorKind::InvalidOperationForType(op, t) => {
                push_str(out, "Invalid operation '");
                push_str(out, op.symbol());
                push_str(out, "' for type '");
                push_str(out, t.as_str());
                push_str(out, "'");
                assert(out@ =~= old(out)@ + self.spec_message());
            },
            ErrorKind::InvalidOperationForTypes(op, t1, t2) => {
                push_str(out, "Invalid operation '");
                push_str(out, op.symbol());
                push_str(out, "' for types '");
                push_str(out, t1.as_str());
                push_str(out, "' and '");
                push_str(out, t2.as_str());
                push_str(out, "'");
                assert(out@ =~= old(out)@ + self.spec_message());
            },
            ErrorKind::ConditionalExpressionNotBool(t) => {
                push_str(out, "Conditional statement must receive a 'bool', found '");
                push_str(out, t.as_str());
                push_str(out, "'");
                assert(out@ =~= old(out)@ + self.spec_message());
            },
            ErrorKind::InvalidAssignment(t1, t2) => {
                push_str(out, "Cannot assign to variable with type '");
                push_str(out, t1.as_str());
                push_str(out, "' a value of type '");
                push_str(out, t2.as_str());
                push_str(out, "'");
                assert(out@ =~= old(out)@ + self.spec_message());
            },
            ErrorKind::InvalidArgumentType(t1, t2) => {
                push_str(out, "Invalid argument type '");
                push_str(out, t1.as_str());
                push_str(out, "', expected '");
                push_str(out, t2.as_str());
                push_str(out, "'");
                assert(out@ =~= old(out)@ + self.spec_message());
            },
            ErrorKind::InvalidReturnType(t1, t2) => {
                push_str(out, "Function returned type '");
                push_str(out, t1.as_str());
                push_str(out, "', but its signature expects '");
                push_str(out, t2.as_str());
                push_str(out, "'");
                assert(out@ =~= old(out)@ + self.spec_message());
            },
            ErrorKind::ForLoopNotVec(t) => {
                push_str(out, "For loop operand is of type '");
                push_str(out, t.as_str());
                push_str(out, "' but it must be of type 'Vec'");
                assert(out@ =~= old(out)@ + self.spec_message());
            },
            ErrorKind::MissingAnnotation => push_str(out, "Missing type annotation"),
            ErrorKind::HasNoMember(t, name) => {
                push_str(out, "Object of type '");
                push_str(out, t.as_str());
                push_str(out, "' has no member called '");
                push_str(out, name.as_str());
                push_str(out, "'");
                assert(out@ =~= old(out)@ + self.spec_message());
            },
            ErrorKind::InvalidMemberAccess => push_str(out, "Invalid member access"),
            ErrorKind::InvalidScopeAccess => push_str(out, "Invalid scope access"),
            ErrorKind::SelfOutsideMethod => push_str(
                out,
                "The 'self' parameter is only allowed in methods",
            ),
            ErrorKind::MemberAlreadyDefined => push_str(
                out,
                "A member with this name is already defined",
            ),
            ErrorKind::RecursiveType => push_str(
                out,
                "Recursive types are not allowed during initialization",
            ),
            ErrorKind::MemberIsPrivate(name) => {
                push_str(out, "Member '");
                push_str(out, name.as_str());
                push_str(out, "' is private");
                assert(out@ =~= old(out)@ + self.spec_message());
            },
            ErrorKind::MemberFunctionIsPrivate(name) => {
                push_str(out, "Member function '");
                push_str(out, name.as_str());
                push_str(out, "' is private");
                assert(out@ =~= old(out)@ + self.spec_message());
            },
        }
    }

    /// The message shown to the user for this kind of error.
    pub fn to_string(&self) -> (s: String)
        ensures
            s@ == self.spec_message(),
    {
        let mut out: Vec<char> = Vec::new();
        self.push_message(&mut out);
        assert(out@ =~= self.spec_message());
        from_chars(&out)
    }
}

/// A half-open span `[start, end)` of character indices in the accumulated
/// source buffer.
#[derive(Debug, Clone, Copy)]
pub struct Context {
    pub start: usize,
    pub end: usize,
}

#[derive(Debug, Clone)]
pub struct Error {
    pub context: Context,
    pub pos: usize,
    pub kind: ErrorKind,
}

/// Number of lines of a text: its line breaks, and one more for a last line
/// that no line break ends.
pub open spec fn spec_line_count(text: Seq<char>) -> int {
    if text.len() > 0 && text.last() != '\n' {
        spec_succ(spec_newlines_before(text, text.len() as int))
    } else {
        spec_newlines_before(text, text.len() as int)
    }
}

/// Width of the widest line number of a text.
pub open spec fn spec_padding(text: Seq<char>) -> nat {
    spec_nat_text(spec_line_count(text) as nat).len()
}

/// The left gutter of a shown source line: a space, the line number
/// right-aligned in `padding` characters, a bar and a space.
pub open spec fn spec_gutter(line: int, padding: nat) -> Seq<char> {
    seq![' '] + spec_pad_left(spec_nat_text(line as nat), padding) + "| "@
}

/// The line that puts `^` under column `offset` (zero-based) of the source
/// line above it.
pub open spec fn spec_caret_line(offset: int, padding: nat) -> Seq<char> {
    Seq::new((offset + 1) as nat, |i: int| ' ') + Seq::new(padding, |i: int| ' ') + "  ^\n"@
}

/// The source lines from character index `cur` up to the line that ends at or
/// after `last`, each behind its gutter, with the caret line below the line
/// that holds index `mark`.
pub open spec fn spec_marked_lines(
    text: Seq<char>,
    cur: int,
    last: int,
    line: int,
    mark: int,
    padding: nat,
) -> Seq<char>
    decreases text.len() - cur,
{
    if cur < 0 || cur > text.len() {
        Seq::empty()
    } else {
        let e = spec_line_end(text, cur);
        let this = spec_gutter(line, padding) + text.subrange(cur, e) + seq!['\n'] + if cur <= mark
            <= e {
            spec_caret_line(mark - cur, padding)
        } else {
            Seq::empty()
        };
        if cur <= e < last && e < text.len() {
            this + spec_marked_lines(text, e + 1, last, spec_succ(line), mark, padding)
        } else {
            this
        }
    }
}

/// First character shown for a span: the start of the line that holds its
/// start.
pub open spec fn spec_shown_start(text: Seq<char>, context: Context) -> int {
    spec_line_start(text, spec_clamp(context.start as int, text.len() as int))
}

/// Where the shown text ends: the span's end, taken inside the text and not
/// before the span's start, moved back over a line break that ends the span,
/// then extended to the end of its line.
pub open spec fn spec_shown_end(text: Seq<char>, context: Context) -> int {
    let start = spec_clamp(context.start as int, text.len() as int);
    let end = if context.end < start {
        start
    } else {
        spec_clamp(context.end as int, text.len() as int)
    };
    let end = if end > start && text[end - 1] == '\n' {
        end - 1
    } else {
        end
    };
    spec_line_end(text, end)
}

/// Index of the marked character: `pos` characters after the span's start,
/// and never beyond the shown text.
pub open spec fn spec_mark(text: Seq<char>, context: Context, pos: usize) -> int {
    let start = spec_clamp(context.start as int, text.len() as int);
    let last = spec_shown_end(text, context);
    if pos > last - start {
        last
    } else {
        start + pos
    }
}

/// The source excerpt of an error: the number of the marked line, then every
/// line that the span touches behind its gutter, and a caret under the marked
/// character.
pub open spec fn spec_marker_text(
    text: Seq<char>,
    context: Context,
    pos: usize,
    padding: nat,
) -> Seq<char> {
    let first = spec_shown_start(text, context);
    let last = spec_shown_end(text, context);
    let mark = spec_mark(text, context, pos);
    "In line "@ + spec_nat_text(spec_succ(spec_newlines_before(text, mark)) as nat) + ":\n\n"@
        + spec_marked_lines(
        text,
        first,
        last,
        spec_succ(spec_newlines_before(text, first)),
        mark,
        padding,
    )
}

/// One line per failed call, in the order in which they were recorded.
pub open spec fn spec_backtrace_lines(items: Seq<BacktraceItem>, n: int, padding: nat) -> Seq<
    char,
>
    decreases n,
{
    if n <= 0 || n > items.len() {
        Seq::empty()
    } else {
        spec_backtrace_lines(items, n - 1, padding) + "  "@ + items[n - 1].name@ + " called at "@
            + spec_pad_left(spec_nat_text(items[n - 1].line as nat), padding) + ":"@
            + spec_nat_text(items[n - 1].col as nat) + "\n"@
    }
}

/// The backtrace block: a heading, the recorded calls from the innermost
/// outwards, `root`, and the name of the function that failed first.
pub open spec fn spec_backtrace_text(items: Seq<BacktraceItem>, padding: nat) -> Seq<char> {
    if items.len() == 0 {
        Seq::empty()
    } else {
        "Backtrace:\n\n"@ + spec_backtrace_lines(items, items.len() as int, padding)
            + "  root\n\n"@ + "In function "@ + items[0].name@ + ":\n"@
    }
}

fn push_gutter(out: &mut Vec<char>, line: usize, padding: usize)
    ensures
        final(out)@ == old(out)@ + spec_gutter(line as int, padding as nat),
{
    out.push(' ');
    push_padded_nat(out, line as u64, padding);
    push_str(out, "| ");
    assert(out@ =~= old(out)@ + spec_gutter(line as int, padding as nat));
}

fn push_caret_line(out: &mut Vec<char>, offset: usize, padding: usize)
    ensures
        final(out)@ == old(out)@ + spec_caret_line(offset as int, padding as nat),
{
    out.push(' ');
    push_repeated(out, ' ', offset);
    push_repeated(out, ' ', padding);
    push_str(out, "  ^\n");
    assert(out@ =~= old(out)@ + spec_caret_line(offset as int, padding as nat)) by {
        let a = Seq::new((offset + 1) as nat, |i: int| ' ');
        let b = seq![' '] + Seq::new(offset as nat, |i: int| ' ');
        assert(a =~= b);
    }
}

fn push_marked_lines(
    out: &mut Vec<char>,
    text: &Vec<char>,
    first: usize,
    last: usize,
    first_line: usize,
    mark: usize,
    padding: usize,
)
    requires
        first <= text.len(),
    ensures
        final(out)@ == old(out)@ + spec_marked_lines(
            text@,
            first as int,
            last as int,
            first_line as int,
            mark as int,
            padding as nat,
        ),
{
    let mut cur: usize = first;
    let mut line: usize = first_line;
    loop
        invariant_except_break
            cur <= text.len(),
            out@ + spec_marked_lines(
                text@,
                cur as int,
                last as int,
                line as int,
                mark as int,
                padding as nat,
            ) == old(out)@ + spec_marked_lines(
                text@,
                first as int,
                last as int,
                first_line as int,
                mark as int,
                padding as nat,
            ),
        ensures
            out@ == old(out)@ + spec_marked_lines(
                text@,
                first as int,
                last as int,
                first_line as int,
                mark as int,
                padding as nat,
            ),
        decreases text.len() - cur,
    {
        let ghost before = out@;
        let ghost rest = spec_marked_lines(
            text@,
            cur as int,
            last as int,
            line as int,
            mark as int,
            padding as nat,
        );
        let e = line_end(text, cur);
        push_gutter(out, line, padding);
        push_range(out, text, cur, e);
        out.push('\n');
        if cur <= mark && mark <= e {
            push_caret_line(out, mark - cur, padding);
        }
        let ghost this = spec_gutter(line as int, padding as nat) + text@.subrange(
            cur as int,
            e as int,
        ) + seq!['\n'] + if cur <= mark <= e {
            spec_caret_line(mark - cur, padding as nat)
        } else {
            Seq::empty()
        };
        assert(out@ =~= before + this);
        if e < last && e < text.len() {
            proof {
                let tail = spec_marked_lines(
                    text@,
                    e + 1,
                    last as int,
                    spec_succ(line as int),
                    mark as int,
                    padding as nat,
                );
                assert(rest == this + tail);
                assert(out@ + tail =~= before + rest);
            }
            cur = e + 1;
            line = succ(line);
        } else {
            proof {
                assert(rest == this);
            }
            break ;
        }
    }
}

/// The source excerpt with its marker, as a character vector.
pub fn marker_text(text: &Vec<char>, context: Context, pos: usize, padding: usize) -> (out: Vec<
    char,
>)
    ensures
        out@ == spec_marker_text(text@, context, pos, padding as nat),
{
    let len = text.len();
    let start = if context.start > len {
        len
    } else {
        context.start
    };
    let end = if context.end < start {
        start
    } else if context.end > len {
        len
    } else {
        context.end
    };
    let end = if end > start && text[end - 1] == '\n' {
        end - 1
    } else {
        end
    };
    let last = line_end(text, end);
    let mark = if pos > last - start {
        last
    } else {
        start + pos
    };
    let (before_first, first) = scan_line(text, start);
    let (before_mark, _) = scan_line(text, mark);
    assert(last == spec_shown_end(text@, context));
    assert(mark == spec_mark(text@, context, pos));
    assert(first == spec_shown_start(text@, context));
    let mut out: Vec<char> = Vec::new();
    push_str(&mut out, "In line ");
    push_nat(&mut out, succ(before_mark) as u64);
    push_str(&mut out, ":\n\n");
    proof {
        lemma_line_start_same_line(text@, start as int);
    }
    let ghost head = out@;
    assert(head =~= "In line "@ + spec_nat_text(
        spec_succ(spec_newlines_before(text@, mark as int)) as nat,
    ) + ":\n\n"@);
    push_marked_lines(&mut out, text, first, last, succ(before_first), mark, padding);
    assert(out@ == head + spec_marked_lines(
        text@,
        first as int,
        last as int,
        spec_succ(spec_newlines_before(text@, first as int)),
        mark as int,
        padding as nat,
    ));
    assert(out@ =~= spec_marker_text(text@, context, pos, padding as nat));
    out
}

/// Number of lines of a text.
pub fn line_count(text: &Vec<char>) -> (n: usize)
    ensures
        n == spec_line_count(text@),
{
    let (count, _) = scan_line(text, text.len());
    if text.len() > 0 && text[text.len() - 1] != '\n' {
        succ(count)
    } else {
        count
    }
}

fn push_backtrace(out: &mut Vec<char>, backtrace: &Vec<BacktraceItem>, padding: usize)
    ensures
        final(out)@ == old(out)@ + spec_backtrace_text(backtrace@, padding as nat),
{
    if backtrace.len() == 0 {
        assert(out@ =~= old(out)@ + spec_backtrace_text(backtrace@, padding as nat));
        return ;
    }
    push_str(out, "Backtrace:\n\n");
    let ghost head = out@;
    let mut i: usize = 0;
    while i < backtrace.len()
        invariant
            i <= backtrace.len(),
            out@ == head + spec_backtrace_lines(backtrace@, i as int, padding as nat),
        decreases backtrace.len() - i,
    {
        let ghost before = out@;
        push_str(out, "  ");
        push_str(out, backtrace[i].name.as_str());
        push_str(out, " called at ");
        push_padded_nat(out, backtrace[i].line as u64, padding);
        push_str(out, ":");
        push_nat(out, backtrace[i].col as u64);
        push_str(out, "\n");
        i = i + 1;
        assert(out@ =~= head + spec_backtrace_lines(backtrace@, i as int, padding as nat));
    }
    push_str(out, "  root\n\n");
    push_str(out, "In function ");
    push_str(out, backtrace[0].name.as_str());
    push_str(out, ":\n");
    assert(out@ =~= old(out)@ + spec_backtrace_text(backtrace@, padding as nat));
}

/// The backtrace block as text: a heading, one line for each recorded call in
/// the order of the list, with its line number set to the width `padding`,
/// then `root`, and the name of the function that failed first. An empty
/// backtrace gives no text.
pub fn print_backtrace_to_string(backtrace: &Vec<BacktraceItem>, padding: usize) -> (s: String)
    ensures
        s@ == spec_backtrace_text(backtrace@, padding as nat),
{
    let mut out: Vec<char> = Vec::new();
    push_backtrace(&mut out, backtrace, padding);
    assert(out@ =~= spec_backtrace_text(backtrace@, padding as nat));
    crate::text::from_chars(&out)
}

impl Error {
    pub fn new(context: Context, pos: usize, kind: ErrorKind) -> (e: Error)
        ensures
            e.context == context,
            e.pos == pos,
            e.kind == kind,
    {
        Error { context, pos, kind }
    }

    /// What the user is shown for this error. Reaching the call limit shows
    /// the message alone; every other error shows the backtrace, where there
    /// is one, the marked source excerpt, and the message.
    pub open spec fn spec_render(self, source: Seq<char>, backtrace: Seq<BacktraceItem>) -> Seq<
        char,
    > {
        if self.kind is IterationLimitReached {
            "Error: "@ + self.kind.spec_message()
        } else {
            spec_backtrace_text(backtrace, spec_padding(source)) + spec_marker_text(
                source,
                self.context,
                self.pos,
                spec_padding(source),
            ) + "\nError: "@ + self.kind.spec_message()
        }
    }

    pub fn print_to_string(&self, source_code: &str, backtrace: &Vec<BacktraceItem>) -> (s: String)
        ensures
            s@ == self.spec_render(source_code@, backtrace@),
    {
        let mut out: Vec<char> = Vec::new();
        match self.kind {
            ErrorKind::IterationLimitReached => {
                push_str(&mut out, "Error: ");
                self.kind.push_message(&mut out);
                assert(out@ =~= self.spec_render(source_code@, backtrace@));
            },
            _ => {
                let text = to_chars(source_code);
                let padding = nat_text(line_count(&text) as u64).len();
                push_backtrace(&mut out, backtrace, padding);
                let excerpt = marker_text(&text, self.context, self.pos, padding);
                push_range(&mut out, &excerpt, 0, excerpt.len());
                assert(excerpt@.subrange(0, excerpt.len() as int) =~= excerpt@);
                push_str(&mut out, "\nError: ");
                self.kind.push_message(&mut out);
                assert(out@ =~= self.spec_render(source_code@, backtrace@));
            },
        }
        from_chars(&out)
    }
}

} // verus!
