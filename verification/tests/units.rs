use dust::builtin::{
    char_bytes, float_abs, float_is_nan, float_pi, int_abs, make_result, parse_bool, range_items,
    result_is_ok, result_new, result_unwrap, result_value, split, string_contains,
    string_ends_with, string_join, string_len, string_pop, string_starts_with, string_substring,
    string_trim, vec_clear, vec_get, vec_len, vec_pop, vec_push, vec_remove, vec_set, TYPEID_BOOL,
    TYPEID_DYN, TYPEID_FLOAT, TYPEID_INT, TYPEID_NONE, TYPEID_RESULT, TYPEID_STRING, TYPEID_VEC,
};
use dust::class::ClassInstance;
use dust::error::{marker_text, Context, Error, ErrorKind};
use dust::expression::Expression;
use dust::heap::Heap;
use dust::host::{FloatOp, Number};
use dust::instruction::ReturnValue;
use dust::machine::{bind, query, return_allowed};
use dust::operation::{
    add, and, binary, divide, equal, gettype, greater_than, less_than, modulo, multiply, negate,
    not, not_equal, or, power, subtract, text_less, Applied,
};
use dust::parser::{get_line_column, is_keyword, unescape};
use dust::session::{BacktraceItem, ExecSession, FnQueryOptions, ParseSession};
use dust::text::{from_chars, int_text, nat_text, parse_int, to_chars, IntError};
use dust::token::{Operator, Parenthesis, Token, TokenKind};
use dust::variable::{
    format_float, AnnotatedIdentifier, OptionallyAnnotatedIdentifier, Value, Variable,
};
use dust::function::FunctionCall;
use dust::FUNCTION_CALL_LIMIT;

fn chars(s: &str) -> Vec<char> {
    s.chars().collect()
}

fn text(v: &Vec<char>) -> String {
    v.iter().collect()
}

#[test]
fn line_and_column() {
    let source = "ab\ncd\n\nxyz";
    assert_eq!(get_line_column(0, source), (1, 1));
    assert_eq!(get_line_column(1, source), (1, 2));
    assert_eq!(get_line_column(2, source), (1, 3));
    assert_eq!(get_line_column(3, source), (2, 1));
    assert_eq!(get_line_column(5, source), (2, 3));
    assert_eq!(get_line_column(6, source), (3, 1));
    assert_eq!(get_line_column(7, source), (4, 1));
    assert_eq!(get_line_column(9, source), (4, 3));
    assert_eq!(get_line_column(10, source), (4, 4));
    assert_eq!(get_line_column(500, source), (4, 494));
    assert_eq!(get_line_column(0, ""), (1, 1));
}

#[test]
fn characters_and_strings_convert_both_ways() {
    assert_eq!(to_chars("héllo"), vec!['h', 'é', 'l', 'l', 'o']);
    assert_eq!(from_chars(&vec!['a', 'ß', 'c']), "aßc");
    assert_eq!(from_chars(&Vec::new()), "");
    assert_eq!(from_chars(&to_chars("round trip")), "round trip");
}

#[test]
fn integers_as_text() {
    assert_eq!(text(&int_text(0)), "0");
    assert_eq!(text(&int_text(7)), "7");
    assert_eq!(text(&int_text(-7)), "-7");
    assert_eq!(text(&int_text(1203)), "1203");
    assert_eq!(text(&int_text(i64::MAX)), "9223372036854775807");
    assert_eq!(text(&int_text(i64::MIN)), "-9223372036854775808");
    assert_eq!(text(&nat_text(u64::MAX)), "18446744073709551615");
}

#[test]
fn integers_from_text() {
    assert_eq!(parse_int(&chars("42")), Ok(42));
    assert_eq!(parse_int(&chars("+42")), Ok(42));
    assert_eq!(parse_int(&chars("-42")), Ok(-42));
    assert_eq!(parse_int(&chars("007")), Ok(7));
    assert_eq!(parse_int(&chars("9223372036854775807")), Ok(i64::MAX));
    assert_eq!(parse_int(&chars("-9223372036854775808")), Ok(i64::MIN));
    assert_eq!(parse_int(&chars("9223372036854775808")), Err(IntError::PosOverflow));
    assert_eq!(parse_int(&chars("-9223372036854775809")), Err(IntError::NegOverflow));
    assert_eq!(
        parse_int(&chars("99999999999999999999999999")),
        Err(IntError::PosOverflow)
    );
    assert_eq!(parse_int(&chars("")), Err(IntError::Empty));
    assert_eq!(parse_int(&chars("-")), Err(IntError::InvalidDigit));
    assert_eq!(parse_int(&chars("+")), Err(IntError::InvalidDigit));
    assert_eq!(parse_int(&chars("12a")), Err(IntError::InvalidDigit));
    assert_eq!(parse_int(&chars(" 1")), Err(IntError::InvalidDigit));
    assert_eq!(parse_int(&chars("99999999999999999999x")), Err(IntError::InvalidDigit));
    assert_eq!(IntError::Empty.message(), "cannot parse integer from empty string");
    assert_eq!(IntError::InvalidDigit.message(), "invalid digit found in string");
    assert_eq!(IntError::PosOverflow.message(), "number too large to fit in target type");
    assert_eq!(IntError::NegOverflow.message(), "number too small to fit in target type");
}

#[test]
fn operator_table() {
    let all = [
        (Operator::Dot, 8, true, false, "."),
        (Operator::Pow, 7, true, false, "^"),
        (Operator::Neg, 7, false, true, "-"),
        (Operator::Mult, 6, true, false, "*"),
        (Operator::Div, 6, true, false, "/"),
        (Operator::Mod, 6, true, false, "%"),
        (Operator::Not, 6, false, true, "not"),
        (Operator::Add, 5, true, false, "+"),
        (Operator::Sub, 5, true, false, "-"),
        (Operator::LessThan, 4, true, false, "<"),
        (Operator::GreaterThan, 4, true, false, ">"),
        (Operator::Equal, 3, true, false, "=="),
        (Operator::NotEqual, 3, true, false, "!="),
        (Operator::Typeof, 3, false, true, "typeof"),
        (Operator::And, 2, true, false, "and"),
        (Operator::Or, 1, true, false, "or"),
    ];
    for (op, precedence, left, unary, symbol) in all {
        assert_eq!(op.precedence(), precedence);
        assert_eq!(op.is_left_associative(), left);
        assert_eq!(op.is_unary(), unary);
        assert_eq!(op.to_string(), symbol);
    }
    assert_eq!(Parenthesis::Left.to_string(), "(");
    assert_eq!(Parenthesis::Right.to_string(), ")");
}

fn operators(expression: &Expression) -> String {
    let mut out = String::new();
    for token in expression.tokens() {
        match token.kind() {
            TokenKind::Operator(op) => out.push_str(&op.to_string()),
            TokenKind::Identifier(name) => out.push_str(name),
            TokenKind::Parenthesis(p) => out.push_str(&p.to_string()),
            _ => out.push('?'),
        }
        out.push(' ');
    }
    out
}

fn infix(parts: &[&str]) -> Vec<Token> {
    let mut tokens = Vec::new();
    for (pos, part) in parts.iter().enumerate() {
        let token = match *part {
            "+" => Token::new_operator(pos, Operator::Add),
            "-" => Token::new_operator(pos, Operator::Sub),
            "*" => Token::new_operator(pos, Operator::Mult),
            "^" => Token::new_operator(pos, Operator::Pow),
            "neg" => Token::new_operator(pos, Operator::Neg),
            "not" => Token::new_operator(pos, Operator::Not),
            "typeof" => Token::new_operator(pos, Operator::Typeof),
            "==" => Token::new_operator(pos, Operator::Equal),
            "." => Token::new_operator(pos, Operator::Dot),
            "(" => Token::new_parenthesis(pos, Parenthesis::Left),
            ")" => Token::new_parenthesis(pos, Parenthesis::Right),
            name => Token::new_identifier(pos, name.to_string()),
        };
        tokens.push(token);
    }
    tokens
}

fn postfix(parts: &[&str]) -> String {
    let context = Context { start: 0, end: parts.len() };
    operators(&Expression::compile(infix(parts), None, context))
}

#[test]
fn postfix_order() {
    assert_eq!(postfix(&["a", "+", "b", "*", "c"]), "a b c * + ");
    assert_eq!(postfix(&["a", "*", "b", "+", "c"]), "a b * c + ");
    assert_eq!(postfix(&["a", "^", "b", "^", "c"]), "a b ^ c ^ ");
    assert_eq!(postfix(&["a", "-", "b", "-", "c"]), "a b - c - ");
    assert_eq!(postfix(&["(", "a", "+", "b", ")", "*", "c"]), "a b + c * ");
    assert_eq!(postfix(&["neg", "neg", "a"]), "a - - ");
    assert_eq!(postfix(&["not", "not", "a"]), "a not not ");
    assert_eq!(postfix(&["neg", "not", "a"]), "a not - ");
    assert_eq!(postfix(&["not", "a", "+", "b"]), "a not b + ");
    assert_eq!(postfix(&["typeof", "a", "==", "b"]), "a typeof b == ");
    assert_eq!(postfix(&["a", "+", "neg", "b", "^", "c"]), "a b - c ^ + ");
    assert_eq!(postfix(&["a", ".", "b", "+", "c"]), "a b . c + ");
    assert_eq!(postfix(&["neg", "not", "a", "*", "b"]), "a not - b * ");
    assert_eq!(postfix(&["a", ")", "b"]), "a b ");
    assert_eq!(postfix(&["(", "a"]), "a ( ");
    assert_eq!(postfix(&[]), "");
    let compiled = Expression::compile(infix(&["a", "+", "b"]), Some(12), Context { start: 3, end: 9 });
    assert_eq!(compiled.private_access_typeid, Some(12));
    assert_eq!(compiled.context().start, 3);
    assert_eq!(compiled.context().end, 9);
    assert_eq!(compiled.tokens()[2].pos(), 1);
}

#[test]
fn error_messages() {
    let cases: Vec<(ErrorKind, &str)> = vec![
        (ErrorKind::CustomError("anything".to_string()), "anything"),
        (ErrorKind::SyntaxError, "Syntax error"),
        (ErrorKind::ZeroDivision, "Division by zero"),
        (ErrorKind::FunctionNotFound, "Function not found"),
        (ErrorKind::FunctionAlreadyDefined, "Function is already defined"),
        (ErrorKind::IdentifierNotFound, "Identifier not found"),
        (ErrorKind::IdentifierIsKeyword, "Expected identifier, found keyword"),
        (ErrorKind::IdentifierIsTypename, "Expected identifier, found type"),
        (
            ErrorKind::InvalidNumberOfArguments,
            "Invalid number of arguments passed to function",
        ),
        (ErrorKind::IterationLimitReached, "Maximum iteration count reached"),
        (
            ErrorKind::IndexOutOfRange(-3, 12),
            "Index '-3' is out of range for size '12'",
        ),
        (ErrorKind::UnknownType("T".to_string()), "Unknown type 'T'"),
        (
            ErrorKind::InvalidOperationForType(Operator::Neg, "bool".to_string()),
            "Invalid operation '-' for type 'bool'",
        ),
        (
            ErrorKind::InvalidOperationForTypes(
                Operator::NotEqual,
                "int".to_string(),
                "Vec".to_string(),
            ),
            "Invalid operation '!=' for types 'int' and 'Vec'",
        ),
        (
            ErrorKind::ConditionalExpressionNotBool("int".to_string()),
            "Conditional statement must receive a 'bool', found 'int'",
        ),
        (
            ErrorKind::InvalidAssignment("int".to_string(), "bool".to_string()),
            "Cannot assign to variable with type 'int' a value of type 'bool'",
        ),
        (
            ErrorKind::InvalidArgumentType("none".to_string(), "int".to_string()),
            "Invalid argument type 'none', expected 'int'",
        ),
        (
            ErrorKind::InvalidReturnType("int".to_string(), "bool".to_string()),
            "Function returned type 'int', but its signature expects 'bool'",
        ),
        (
            ErrorKind::ForLoopNotVec("int".to_string()),
            "For loop operand is of type 'int' but it must be of type 'Vec'",
        ),
        (ErrorKind::MissingAnnotation, "Missing type annotation"),
        (
            ErrorKind::HasNoMember("A".to_string(), "m".to_string()),
            "Object of type 'A' has no member called 'm'",
        ),
        (ErrorKind::InvalidMemberAccess, "Invalid member access"),
        (ErrorKind::InvalidScopeAccess, "Invalid scope access"),
        (
            ErrorKind::SelfOutsideMethod,
            "The 'self' parameter is only allowed in methods",
        ),
        (
            ErrorKind::MemberAlreadyDefined,
            "A member with this name is already defined",
        ),
        (
            ErrorKind::RecursiveType,
            "Recursive types are not allowed during initialization",
        ),
        (ErrorKind::MemberIsPrivate("x".to_string()), "Member 'x' is private"),
        (
            ErrorKind::MemberFunctionIsPrivate("f".to_string()),
            "Member function 'f' is private",
        ),
    ];
    for (kind, message) in cases {
        assert_eq!(kind.to_string(), message);
    }
}

#[test]
fn marked_excerpt() {
    let source = chars("first\nsecond line\nthird\n");
    let shown = marker_text(&source, Context { start: 6, end: 17 }, 7, 1);
    assert_eq!(text(&shown), "In line 2:\n\n 2| second line\n           ^\n");
    let shown = marker_text(&source, Context { start: 8, end: 20 }, 0, 1);
    assert_eq!(
        text(&shown),
        "In line 2:\n\n 2| second line\n      ^\n 3| third\n"
    );
    let shown = marker_text(&source, Context { start: 0, end: 18 }, 13, 3);
    assert_eq!(
        text(&shown),
        "In line 2:\n\n   1| first\n   2| second line\n             ^\n"
    );
    let shown = marker_text(&source, Context { start: 0, end: 0 }, 0, 1);
    assert_eq!(text(&shown), "In line 1:\n\n 1| first\n    ^\n");
    let shown = marker_text(&source, Context { start: 900, end: 2 }, 5, 1);
    assert_eq!(text(&shown), "In line 4:\n\n 4| \n    ^\n");
    let shown = marker_text(&Vec::new(), Context { start: 0, end: 0 }, 0, 1);
    assert_eq!(text(&shown), "In line 1:\n\n 1| \n    ^\n");
}

#[test]
fn rendered_errors() {
    let source = "let a = 1\nlet b = c\n";
    let error = Error::new(Context { start: 10, end: 19 }, 8, ErrorKind::IdentifierNotFound);
    assert_eq!(
        error.print_to_string(source, &Vec::new()),
        "In line 2:\n\n 2| let b = c\n            ^\n\nError: Identifier not found"
    );
    let backtrace = vec![
        BacktraceItem::new("inner", (12, 3)),
        BacktraceItem::new("outer", (2, 9)),
    ];
    assert_eq!(
        error.print_to_string(source, &backtrace),
        "Backtrace:\n\n  inner called at 12:3\n  outer called at 2:9\n  root\n\nIn function inner:\nIn line 2:\n\n 2| let b = c\n            ^\n\nError: Identifier not found"
    );
    let limit = Error::new(Context { start: 0, end: 0 }, 0, ErrorKind::IterationLimitReached);
    assert_eq!(
        limit.print_to_string(source, &backtrace),
        "Error: Maximum iteration count reached"
    );
    let long_source = "x\n".repeat(12);
    let error = Error::new(Context { start: 4, end: 5 }, 0, ErrorKind::ZeroDivision);
    assert_eq!(
        error.print_to_string(&long_source, &vec![BacktraceItem::new("f", (3, 1))]),
        "Backtrace:\n\n  f called at  3:1\n  root\n\nIn function f:\nIn line 3:\n\n  3| x\n     ^\n\nError: Division by zero"
    );
}

#[test]
fn keywords_and_escapes() {
    for word in [
        "dyn", "and", "break", "class", "else", "fn", "for", "if", "in", "let", "new", "none",
        "not", "or", "return", "self", "typeof", "while",
    ] {
        assert!(is_keyword(word));
    }
    for word in ["true", "false", "pub", "int", "lets", "", "If"] {
        assert!(!is_keyword(word));
    }
    let raw = chars("a\\nb\\tc\\\\d\\\"e\\qf\\");
    assert_eq!(text(&unescape(&raw, 0, raw.len())), "a\nb\tc\\d\"e\\qf\\");
    assert_eq!(text(&unescape(&raw, 1, 3)), "\n");
    assert_eq!(text(&unescape(&raw, 2, 2)), "");
}

#[test]
fn identifiers() {
    let annotated = AnnotatedIdentifier::new("count".to_string(), 2);
    assert_eq!(annotated.name(), "count");
    assert_eq!(annotated.typeid(), 2);
    assert_eq!(annotated.to_string(), "count: 2");
    let optional = OptionallyAnnotatedIdentifier::new("x".to_string(), Some(5));
    assert_eq!(optional.name(), "x");
    assert_eq!(optional.typeid(), Some(5));
    let converted = AnnotatedIdentifier::from_optional(optional).unwrap();
    assert_eq!(converted.name(), "x");
    assert_eq!(converted.typeid(), 5);
    let bare = OptionallyAnnotatedIdentifier::new("y".to_string(), None);
    assert!(AnnotatedIdentifier::from_optional(bare).is_none());
}

#[test]
fn type_ids_of_values() {
    assert_eq!(Value::Nil.typeid(), TYPEID_NONE);
    assert_eq!(Value::Int(3).typeid(), TYPEID_INT);
    assert_eq!(Value::Float(0).typeid(), TYPEID_FLOAT);
    assert_eq!(Value::Str(0).typeid(), TYPEID_STRING);
    assert_eq!(Value::Bool(true).typeid(), TYPEID_BOOL);
    assert_eq!(Value::Vector(4).typeid(), TYPEID_VEC);
    assert_eq!(Value::Class { object: 0, typeid: 17 }.typeid(), 17);
}

#[test]
fn variables_take_what_they_accept() {
    let mut fixed = Variable::new(Value::Int(1), false);
    assert!(!fixed.is_dynamic());
    assert!(fixed.accepts(&Value::Int(9)));
    assert!(!fixed.accepts(&Value::Bool(true)));
    assert!(fixed.assign(Value::Int(9)));
    assert_eq!(fixed.get_value_clone(), Value::Int(9));
    assert!(!fixed.assign(Value::Bool(true)));
    assert_eq!(*fixed.get_value(), Value::Int(9));
    assert_eq!(fixed.typeid(), TYPEID_INT);
    let mut dynamic = Variable::new(Value::Int(1), true);
    assert!(dynamic.assign(Value::Bool(true)));
    assert!(dynamic.assign(Value::Nil));
    assert_eq!(dynamic.typeid(), TYPEID_NONE);
    assert!(dynamic.is_dynamic());
    dynamic.set_value(Value::Float(7));
    assert_eq!(dynamic.get_value_clone(), Value::Float(7));
}

#[test]
fn binding_rules() {
    assert_eq!(bind(None, Value::Int(1)), Some(Variable::new(Value::Int(1), false)));
    assert_eq!(
        bind(Some(TYPEID_DYN), Value::Int(1)),
        Some(Variable::new(Value::Int(1), true))
    );
    assert_eq!(
        bind(Some(TYPEID_INT), Value::Int(1)),
        Some(Variable::new(Value::Int(1), false))
    );
    assert_eq!(bind(Some(TYPEID_BOOL), Value::Int(1)), None);
    assert!(return_allowed(None, Value::Int(1)));
    assert!(return_allowed(Some((TYPEID_INT, 40)), Value::Int(1)));
    assert!(!return_allowed(Some((TYPEID_NONE, 0)), Value::Int(1)));
    assert!(return_allowed(Some((TYPEID_NONE, 0)), Value::Nil));
}

fn call(associated: Option<(usize, usize)>, private: Option<usize>) -> FunctionCall {
    FunctionCall::new(
        associated,
        "f".to_string(),
        Vec::new(),
        private,
        Context { start: 4, end: 9 },
        2,
        (1, 5),
    )
}

#[test]
fn lookups_of_calls() {
    assert!(query(&call(None, None), None).is_none());
    let options = query(&call(Some((12, 1)), Some(12)), None).unwrap();
    assert_eq!(
        (options.associated_typeid, options.member_only, options.private_access),
        (12, false, true)
    );
    let options = query(&call(Some((12, 1)), Some(13)), None).unwrap();
    assert_eq!(
        (options.associated_typeid, options.member_only, options.private_access),
        (12, false, false)
    );
    let object = Value::Class { object: 0, typeid: 14 };
    let options = query(&call(None, Some(14)), Some(object)).unwrap();
    assert_eq!(
        (options.associated_typeid, options.member_only, options.private_access),
        (14, true, true)
    );
    let options = query(&call(Some((12, 1)), None), Some(Value::Int(3))).unwrap();
    assert_eq!(
        (options.associated_typeid, options.member_only, options.private_access),
        (TYPEID_INT, true, false)
    );
    let plain = call(Some((12, 1)), None);
    assert_eq!(plain.associated_typeid(), Some(12));
    assert_eq!(plain.scope_res_pos(), Some(1));
    assert_eq!(plain.name(), "f");
    assert_eq!(plain.name_pos(), 2);
    assert_eq!(plain.line_col(), (1, 5));
    assert_eq!(plain.arguments().len(), 0);
    assert_eq!(plain.context().start, 4);
    let options = FnQueryOptions::new(3, true, false);
    assert_eq!(options.associated_typeid, 3);
}

#[test]
fn operators_on_numbers() {
    let session = ParseSession::new();
    let mut heap = Heap::new();
    let int = Value::Int;
    assert_eq!(add(int(2), int(3), &mut heap, &session).unwrap(), Applied::Value(int(5)));
    assert_eq!(
        add(int(i64::MAX), int(1), &mut heap, &session).unwrap(),
        Applied::Value(int(i64::MIN))
    );
    assert_eq!(subtract(int(2), int(3), &mut heap, &session).unwrap(), Applied::Value(int(-1)));
    assert_eq!(
        subtract(int(i64::MIN), int(1), &mut heap, &session).unwrap(),
        Applied::Value(int(i64::MAX))
    );
    assert_eq!(multiply(int(4), int(-3), &mut heap, &session).unwrap(), Applied::Value(int(-12)));
    assert_eq!(
        multiply(int(i64::MAX), int(2), &mut heap, &session).unwrap(),
        Applied::Value(int(-2))
    );
    assert_eq!(modulo(int(7), int(3), &mut heap, &session).unwrap(), Applied::Value(int(1)));
    assert_eq!(modulo(int(-7), int(3), &mut heap, &session).unwrap(), Applied::Value(int(-1)));
    assert_eq!(modulo(int(7), int(-3), &mut heap, &session).unwrap(), Applied::Value(int(1)));
    assert_eq!(
        modulo(int(i64::MIN), int(-1), &mut heap, &session).unwrap(),
        Applied::Value(int(0))
    );
    assert!(matches!(modulo(int(7), int(0), &mut heap, &session), Err(ErrorKind::ZeroDivision)));
    assert!(matches!(divide(int(7), int(0), &mut heap, &session), Err(ErrorKind::ZeroDivision)));
    assert!(matches!(
        divide(int(7), Value::Float(0), &mut heap, &session),
        Err(ErrorKind::ZeroDivision)
    ));
    assert!(matches!(
        divide(Value::Float(1), Value::Float(1 << 63), &mut heap, &session),
        Err(ErrorKind::ZeroDivision)
    ));
    assert_eq!(
        divide(int(7), int(2), &mut heap, &session).unwrap(),
        Applied::Float(FloatOp::Div, Number::Int(7), Number::Int(2))
    );
    assert_eq!(
        power(int(7), int(2), &mut heap, &session).unwrap(),
        Applied::Float(FloatOp::Pow, Number::Int(7), Number::Int(2))
    );
    assert_eq!(
        add(int(7), Value::Float(9), &mut heap, &session).unwrap(),
        Applied::Float(FloatOp::Add, Number::Int(7), Number::Float(9))
    );
    assert_eq!(
        modulo(Value::Float(7), int(0), &mut heap, &session).unwrap(),
        Applied::Float(FloatOp::Rem, Number::Float(7), Number::Int(0))
    );
    assert_eq!(
        less_than(Value::Float(7), int(2), &mut heap, &session).unwrap(),
        Applied::Float(FloatOp::Less, Number::Float(7), Number::Int(2))
    );
    assert_eq!(
        equal(Value::Float(7), Value::Float(7), &mut heap, &session).unwrap(),
        Applied::Float(FloatOp::Equal, Number::Float(7), Number::Float(7))
    );
    let truth = |b| Applied::Value(Value::Bool(b));
    assert_eq!(less_than(int(1), int(2), &mut heap, &session).unwrap(), truth(true));
    assert_eq!(less_than(int(2), int(2), &mut heap, &session).unwrap(), truth(false));
    assert_eq!(greater_than(int(3), int(2), &mut heap, &session).unwrap(), truth(true));
    assert_eq!(greater_than(int(-3), int(2), &mut heap, &session).unwrap(), truth(false));
    assert_eq!(equal(int(2), int(2), &mut heap, &session).unwrap(), truth(true));
    assert_eq!(not_equal(int(2), int(2), &mut heap, &session).unwrap(), truth(false));
    assert_eq!(not_equal(int(2), int(5), &mut heap, &session).unwrap(), truth(true));
    assert_eq!(negate(int(5), &session).unwrap(), int(-5));
    assert_eq!(negate(int(i64::MIN), &session).unwrap(), int(i64::MIN));
    assert_eq!(negate(Value::Float(1), &session).unwrap(), Value::Float((1 << 63) | 1));
    assert_eq!(negate(Value::Float(1 << 63), &session).unwrap(), Value::Float(0));
    match negate(Value::Bool(true), &session) {
        Err(ErrorKind::InvalidOperationForType(Operator::Neg, t)) => assert_eq!(t, "bool"),
        other => panic!("{:?}", other),
    }
    assert_eq!(heap.strings.len(), 0);
}

#[test]
fn operators_on_other_values() {
    let session = ParseSession::new();
    let mut heap = Heap::new();
    let truth = |b| Applied::Value(Value::Bool(b));
    let t = Value::Bool(true);
    let f = Value::Bool(false);
    assert_eq!(and(t, t, &mut heap, &session).unwrap(), truth(true));
    assert_eq!(and(t, f, &mut heap, &session).unwrap(), truth(false));
    assert_eq!(or(f, t, &mut heap, &session).unwrap(), truth(true));
    assert_eq!(or(f, f, &mut heap, &session).unwrap(), truth(false));
    assert_eq!(equal(t, f, &mut heap, &session).unwrap(), truth(false));
    assert_eq!(not_equal(t, f, &mut heap, &session).unwrap(), truth(true));
    assert_eq!(not(t, &session).unwrap(), f);
    assert_eq!(not(f, &session).unwrap(), t);
    match not(Value::Int(1), &session) {
        Err(ErrorKind::InvalidOperationForType(Operator::Not, t)) => assert_eq!(t, "int"),
        other => panic!("{:?}", other),
    }
    match and(t, Value::Int(1), &mut heap, &session) {
        Err(ErrorKind::InvalidOperationForTypes(Operator::And, a, b)) => {
            assert_eq!((a.as_str(), b.as_str()), ("bool", "int"))
        }
        other => panic!("{:?}", other),
    }
    match subtract(Value::Nil, Value::Vector(0), &mut heap, &session) {
        Err(ErrorKind::InvalidOperationForTypes(Operator::Sub, a, b)) => {
            assert_eq!((a.as_str(), b.as_str()), ("none", "Vec"))
        }
        other => panic!("{:?}", other),
    }
    match greater_than(Value::Int(1), Value::Str(0), &mut heap, &session) {
        Err(ErrorKind::InvalidOperationForTypes(Operator::GreaterThan, a, b)) => {
            assert_eq!((a.as_str(), b.as_str()), ("int", "string"))
        }
        other => panic!("{:?}", other),
    }
    assert!(binary(Operator::Dot, t, t, &mut heap, &session).is_err());
    assert!(binary(Operator::Neg, Value::Int(1), Value::Int(1), &mut heap, &session).is_err());

    let ab = heap.new_string(chars("ab"));
    let cd = heap.new_string(chars("cd"));
    let ab2 = heap.new_string(chars("ab"));
    assert_eq!(add(ab, cd, &mut heap, &session).unwrap(), Applied::Value(Value::Str(3)));
    assert_eq!(text(&heap.text(3)), "abcd");
    assert_eq!(text(&heap.text(0)), "ab");
    assert_eq!(
        multiply(ab, Value::Int(-3), &mut heap, &session).unwrap(),
        Applied::Value(Value::Str(4))
    );
    assert_eq!(text(&heap.text(4)), "ababab");
    assert_eq!(
        multiply(Value::Int(0), cd, &mut heap, &session).unwrap(),
        Applied::Value(Value::Str(5))
    );
    assert_eq!(text(&heap.text(5)), "");
    assert_eq!(equal(ab, ab2, &mut heap, &session).unwrap(), truth(true));
    assert_eq!(equal(ab, cd, &mut heap, &session).unwrap(), truth(false));
    assert_eq!(not_equal(ab, cd, &mut heap, &session).unwrap(), truth(true));
    assert_eq!(less_than(ab, cd, &mut heap, &session).unwrap(), truth(true));
    assert_eq!(greater_than(ab, cd, &mut heap, &session).unwrap(), truth(false));
    assert_eq!(less_than(ab, ab2, &mut heap, &session).unwrap(), truth(false));
    assert_eq!(heap.strings.len(), 6);

    assert_eq!(equal(Value::Nil, Value::Nil, &mut heap, &session).unwrap(), truth(true));
    assert_eq!(equal(Value::Nil, ab, &mut heap, &session).unwrap(), truth(false));
    assert_eq!(equal(ab, Value::Nil, &mut heap, &session).unwrap(), truth(false));
    assert_eq!(not_equal(Value::Nil, t, &mut heap, &session).unwrap(), truth(true));
    assert_eq!(not_equal(Value::Nil, Value::Nil, &mut heap, &session).unwrap(), truth(false));
    let v = Value::Vector(0);
    let w = Value::Vector(1);
    assert_eq!(equal(v, v, &mut heap, &session).unwrap(), truth(true));
    assert_eq!(equal(v, w, &mut heap, &session).unwrap(), truth(false));
    assert_eq!(not_equal(v, w, &mut heap, &session).unwrap(), truth(true));
    let c = Value::Class { object: 0, typeid: 11 };
    let d = Value::Class { object: 1, typeid: 11 };
    assert_eq!(equal(c, c, &mut heap, &session).unwrap(), truth(true));
    assert_eq!(equal(c, d, &mut heap, &session).unwrap(), truth(false));
    assert!(equal(c, v, &mut heap, &session).is_err());
    assert!(equal(t, Value::Int(1), &mut heap, &session).is_err());

    let before = heap.strings.len();
    assert_eq!(gettype(Value::Bool(true), &mut heap, &session), Value::Str(before));
    assert_eq!(text(&heap.text(before)), "bool");
    assert_eq!(gettype(v, &mut heap, &session), Value::Str(before + 1));
    assert_eq!(text(&heap.text(before + 1)), "Vec");

    assert!(text_less(&chars(""), &chars("a")));
    assert!(!text_less(&chars("a"), &chars("")));
    assert!(!text_less(&chars(""), &chars("")));
    assert!(text_less(&chars("abc"), &chars("abd")));
    assert!(text_less(&chars("Z"), &chars("a")));
}

#[test]
fn values_as_text() {
    let mut session = ParseSession::new();
    session.add_typename("Point");
    let mut heap = Heap::new();
    let none: Vec<String> = Vec::new();
    assert_eq!(Value::Nil.to_string(&session, &heap, &none), "none");
    assert_eq!(Value::Int(-12).to_string(&session, &heap, &none), "-12");
    assert_eq!(Value::Bool(true).to_string(&session, &heap, &none), "true");
    assert_eq!(Value::Bool(false).to_string(&session, &heap, &none), "false");
    let point = Value::Class { object: 0, typeid: 11 };
    assert_eq!(point.to_string(&session, &heap, &none), "Point");
    let s = heap.new_string(chars("text"));
    assert_eq!(s.to_string(&session, &heap, &none), "text");
    let float = Value::Float(1.5f64.to_bits());
    assert_eq!(float.float_parts(&heap), vec![1.5f64.to_bits()]);
    assert_eq!(float.to_string(&session, &heap, &vec!["1.500000".to_string()]), "1.5");
    assert_eq!(float.to_string(&session, &heap, &vec!["-0.000000".to_string()]), "-0");
    assert_eq!(float.to_string(&session, &heap, &vec!["100.000000".to_string()]), "100");
    assert_eq!(float.to_string(&session, &heap, &vec!["NaN".to_string()]), "NaN");
    assert_eq!(float.to_string(&session, &heap, &none), "");
    assert_eq!(Value::Int(1).float_parts(&heap).len(), 0);

    let empty = heap.new_vector(Vec::new());
    assert_eq!(empty.to_string(&session, &heap, &none), "()");
    let inner = heap.new_vector(vec![Value::Int(1)]);
    let items = vec![
        Value::Int(1),
        Value::Float(7),
        s,
        inner,
        Value::Nil,
        Value::Float(9),
        point,
        Value::Bool(false),
    ];
    let all = heap.new_vector(items);
    assert_eq!(all.float_parts(&heap), vec![7, 9]);
    let texts = vec!["0.250000".to_string(), "3.000000".to_string()];
    assert_eq!(
        all.to_string(&session, &heap, &texts),
        "(1, 0.25, \"text\", [...], none, 3, Point, false)"
    );
    assert_eq!(Value::Vector(99).to_string(&session, &heap, &none), "()");
    assert_eq!(text(&format_float(&chars("12.340000"))), "12.34");
    assert_eq!(text(&format_float(&chars("0.000000"))), "0");
    assert_eq!(text(&format_float(&chars("inf"))), "inf");
    assert_eq!(text(&format_float(&chars(""))), "");

    let mut h = Heap::new();
    assert_eq!(Value::default(TYPEID_NONE, &mut h), Some(Value::Nil));
    assert_eq!(Value::default(TYPEID_INT, &mut h), Some(Value::Int(0)));
    assert_eq!(Value::default(TYPEID_FLOAT, &mut h), Some(Value::Float(0)));
    assert_eq!(Value::default(TYPEID_BOOL, &mut h), Some(Value::Bool(false)));
    assert_eq!(Value::default(TYPEID_STRING, &mut h), Some(Value::Str(0)));
    assert_eq!(text(&h.text(0)), "");
    assert_eq!(Value::default(TYPEID_VEC, &mut h), None);
    assert_eq!(Value::default(11, &mut h), None);
    assert_eq!(Value::new_string("abc".to_string(), &mut h), Value::Str(1));
    assert_eq!(Value::new_vec_instance(&mut h), Value::Vector(0));
    assert_eq!(Value::new_vec_instance_from(vec![Value::Int(1)], &mut h), Value::Vector(1));
    assert_eq!(
        Value::new_class_instance(ClassInstance::new(12), &mut h),
        Value::Class { object: 0, typeid: 12 }
    );
    assert_eq!(h.instance(0).unwrap().typeid(), 12);
    assert_eq!(h.vector(1).unwrap(), &vec![Value::Int(1)]);
    assert!(h.vector(2).is_none());
    assert!(h.string(2).is_none());
    assert!(h.instance(1).is_none());
}

#[test]
fn results_must_be_checked() {
    let session = ParseSession::new();
    let mut heap = Heap::new();
    let r = make_result(true, Value::Int(5), &mut heap);
    assert_eq!(r, Value::Class { object: 0, typeid: TYPEID_RESULT });
    match result_value(&heap, r) {
        Err(ErrorKind::CustomError(message)) => {
            assert_eq!(
                message,
                "A 'Result' must be checked with 'is_ok()' before accessing its value"
            );
            assert!(message.contains("must be checked"));
        }
        other => panic!("{:?}", other),
    }
    assert_eq!(result_unwrap(&heap, r).unwrap(), Value::Int(5));
    assert_eq!(result_is_ok(&mut heap, r, &session).unwrap(), Value::Bool(true));
    assert_eq!(result_value(&heap, r).unwrap(), Value::Int(5));

    let failed = result_new(&mut heap, Value::Bool(false), Value::Nil).unwrap();
    assert_eq!(failed, Value::Class { object: 1, typeid: TYPEID_RESULT });
    match result_unwrap(&heap, failed) {
        Err(ErrorKind::CustomError(message)) => {
            assert_eq!(message, "Unwrap called on a 'Result' containing an error")
        }
        other => panic!("{:?}", other),
    }
    assert!(result_value(&heap, failed).is_err());
    assert_eq!(result_is_ok(&mut heap, failed, &session).unwrap(), Value::Bool(false));
    assert_eq!(result_value(&heap, failed).unwrap(), Value::Nil);
    assert!(result_new(&mut heap, Value::Int(1), Value::Nil).is_err());
    assert!(result_value(&heap, Value::Int(1)).is_err());
    assert!(result_is_ok(&mut heap, Value::Vector(0), &session).is_err());
    let instance = heap.instance(0).unwrap();
    assert!(instance.get_property("value", false, &session).is_err());
    assert_eq!(
        instance.get_property("is_checked", true, &session).unwrap().get_value_clone(),
        Value::Bool(true)
    );
}

#[test]
fn vectors_in_the_heap() {
    let mut heap = Heap::new();
    let v = match heap.new_vector(Vec::new()) {
        Value::Vector(id) => id,
        other => panic!("{:?}", other),
    };
    assert_eq!(vec_len(&heap, v).unwrap(), Value::Int(0));
    assert_eq!(vec_pop(&mut heap, v).unwrap(), Value::Nil);
    assert_eq!(vec_push(&mut heap, v, Value::Int(1)).unwrap(), Value::Nil);
    vec_push(&mut heap, v, Value::Int(2)).unwrap();
    vec_push(&mut heap, v, Value::Int(3)).unwrap();
    assert_eq!(vec_len(&heap, v).unwrap(), Value::Int(3));
    assert_eq!(vec_get(&heap, v, 0).unwrap(), Value::Int(1));
    assert_eq!(vec_get(&heap, v, 2).unwrap(), Value::Int(3));
    assert!(matches!(vec_get(&heap, v, 3), Err(ErrorKind::IndexOutOfRange(3, 3))));
    assert!(matches!(vec_get(&heap, v, -1), Err(ErrorKind::IndexOutOfRange(-1, 3))));
    assert_eq!(vec_set(&mut heap, v, 1, Value::Bool(true)).unwrap(), Value::Nil);
    assert_eq!(vec_get(&heap, v, 1).unwrap(), Value::Bool(true));
    assert!(matches!(
        vec_set(&mut heap, v, 3, Value::Nil),
        Err(ErrorKind::IndexOutOfRange(3, 3))
    ));
    assert_eq!(heap.vector(v).unwrap().len(), 3);
    assert_eq!(vec_remove(&mut heap, v, 0).unwrap(), Value::Int(1));
    assert_eq!(heap.vector(v).unwrap(), &vec![Value::Bool(true), Value::Int(3)]);
    assert!(matches!(
        vec_remove(&mut heap, v, 2),
        Err(ErrorKind::IndexOutOfRange(2, 2))
    ));
    assert_eq!(vec_pop(&mut heap, v).unwrap(), Value::Int(3));
    assert_eq!(heap.vector(v).unwrap(), &vec![Value::Bool(true)]);
    assert_eq!(vec_clear(&mut heap, v).unwrap(), Value::Nil);
    assert_eq!(heap.vector(v).unwrap().len(), 0);
    assert!(vec_push(&mut heap, 9, Value::Nil).is_err());
    assert!(vec_get(&heap, 9, 0).is_err());
    assert!(vec_len(&heap, 9).is_err());
    assert_eq!(
        range_items(-1, 3),
        vec![Value::Int(-1), Value::Int(0), Value::Int(1), Value::Int(2)]
    );
    assert_eq!(range_items(3, 3).len(), 0);
    assert_eq!(range_items(4, 3).len(), 0);
}

#[test]
fn strings_in_the_heap() {
    let mut heap = Heap::new();
    let a = heap.new_string(chars("cat"));
    let b = heap.new_string(chars("paw"));
    assert_eq!((a, b), (Value::Str(0), Value::Str(1)));
    assert_eq!(string_join(&mut heap, 0, 1).unwrap(), Value::Nil);
    assert_eq!(text(&heap.text(0)), "catpaw");
    assert_eq!(text(&heap.text(1)), "paw");
    assert_eq!(string_join(&mut heap, 1, 1).unwrap(), Value::Nil);
    assert_eq!(text(&heap.text(1)), "pawpaw");
    assert_eq!(string_pop(&mut heap, 0).unwrap(), Value::Str(2));
    assert_eq!(text(&heap.text(0)), "catpa");
    assert_eq!(text(&heap.text(2)), "w");
    let empty = heap.new_string(Vec::new());
    assert_eq!(empty, Value::Str(3));
    assert_eq!(string_pop(&mut heap, 3).unwrap(), Value::Nil);
    assert!(string_pop(&mut heap, 10).is_err());
    assert!(string_join(&mut heap, 10, 0).is_err());
    assert_eq!(text(&heap.text(10)), "");

    assert!(string_starts_with(&chars("catpaw"), &chars("cat")));
    assert!(string_starts_with(&chars("catpaw"), &chars("")));
    assert!(!string_starts_with(&chars("ca"), &chars("cat")));
    assert!(string_ends_with(&chars("catpaw"), &chars("paw")));
    assert!(!string_ends_with(&chars("catpaw"), &chars("cat")));
    assert!(!string_ends_with(&chars("w"), &chars("paw")));
    assert!(string_contains(&chars("catpaw"), &chars("tp")));
    assert!(string_contains(&chars("catpaw"), &chars("")));
    assert!(string_contains(&chars(""), &chars("")));
    assert!(string_contains(&chars("catpaw"), &chars("w")));
    assert!(!string_contains(&chars("catpaw"), &chars("wc")));
    assert_eq!(string_len(&chars("abc")), 3);
    assert_eq!(string_len(&chars("aé€😀")), 10);
    assert_eq!(string_len(&chars("")), 0);
    assert_eq!(char_bytes('a'), 1);
    assert_eq!(char_bytes('é'), 2);
    assert_eq!(char_bytes('€'), 3);
    assert_eq!(char_bytes('😀'), 4);
    assert_eq!(text(&string_trim(&chars("  \t a b \n"))), "a b");
    assert_eq!(text(&string_trim(&chars("\u{2003}x\u{a0}"))), "x");
    assert_eq!(text(&string_trim(&chars("   "))), "");
    assert_eq!(text(&string_trim(&chars("x"))), "x");

    let pieces: Vec<String> = split(&chars("a:b::c:"), ':').iter().map(text).collect();
    assert_eq!(pieces, vec!["a", "b", "", "c", ""]);
    let pieces: Vec<String> = split(&chars(""), ':').iter().map(text).collect();
    assert_eq!(pieces, vec![""]);
    let pieces: Vec<String> = split(&chars("abc"), ':').iter().map(text).collect();
    assert_eq!(pieces, vec!["abc"]);

    assert_eq!(string_substring(&chars("cat-fur-paw"), 4, 7).map(|p| text(&p)), Some("fur".to_string()));
    assert_eq!(string_substring(&chars("cat"), 0, 3).map(|p| text(&p)), Some("cat".to_string()));
    assert_eq!(string_substring(&chars("cat"), 3, 3).map(|p| text(&p)), Some("".to_string()));
    assert_eq!(string_substring(&chars("cat"), 2, 1), None);
    assert_eq!(string_substring(&chars("cat"), 0, 4), None);
    assert_eq!(string_substring(&chars("cat"), -1, 2), None);
    assert_eq!(string_substring(&chars("aé€"), 1, 3).map(|p| text(&p)), Some("é".to_string()));
    assert_eq!(string_substring(&chars("aé€"), 1, 2), None);
    assert_eq!(string_substring(&chars("aé€"), 3, 6).map(|p| text(&p)), Some("€".to_string()));

    assert_eq!(parse_bool(&chars("true")), Some(true));
    assert_eq!(parse_bool(&chars("false")), Some(false));
    assert_eq!(parse_bool(&chars("True")), None);
    assert_eq!(parse_bool(&chars("")), None);
}

#[test]
fn magnitudes() {
    assert_eq!(int_abs(5), 5);
    assert_eq!(int_abs(-5), 5);
    assert_eq!(int_abs(0), 0);
    assert_eq!(int_abs(i64::MIN), i64::MIN);
    assert_eq!(int_abs(i64::MIN + 1), i64::MAX);
    for x in [0.0f64, -0.0, 1.5, -1.5, f64::INFINITY, f64::NEG_INFINITY, f64::MAX, f64::MIN_POSITIVE] {
        assert_eq!(f64::from_bits(float_abs(x.to_bits())), x.abs());
        assert_eq!(float_abs((-x).to_bits()), float_abs(x.to_bits()));
        assert_eq!(float_is_nan(x.to_bits()), false);
    }
    assert!(float_is_nan(f64::NAN.to_bits()));
    assert!(float_is_nan((-f64::NAN).to_bits()));
    assert!(float_is_nan(0x7ff0_0000_0000_0001));
    assert_eq!(f64::from_bits(float_pi()), std::f64::consts::PI);
}

#[test]
fn class_instances() {
    let mut session = ParseSession::new();
    session.add_typename("Point");
    let mut point = ClassInstance::new(11);
    assert_eq!(point.typeid(), 11);
    point.add_property("x", Variable::new(Value::Int(1), false), true);
    point.add_property("secret", Variable::new(Value::Bool(true), false), false);
    point.add_property("any", Variable::new(Value::Nil, true), true);
    assert_eq!(point.get_property("x", false, &session).unwrap().get_value_clone(), Value::Int(1));
    match point.get_property("secret", false, &session) {
        Err(ErrorKind::MemberIsPrivate(name)) => assert_eq!(name, "secret"),
        other => panic!("{:?}", other.map(|v| *v)),
    }
    assert_eq!(
        point.get_property("secret", true, &session).unwrap().get_value_clone(),
        Value::Bool(true)
    );
    match point.get_property("y", true, &session) {
        Err(ErrorKind::HasNoMember(t, name)) => assert_eq!((t.as_str(), name.as_str()), ("Point", "y")),
        other => panic!("{:?}", other.map(|v| *v)),
    }
    assert!(point.set_property("x", false, Value::Int(7), &session).is_ok());
    assert_eq!(point.get_property("x", false, &session).unwrap().get_value_clone(), Value::Int(7));
    match point.set_property("x", false, Value::Bool(true), &session) {
        Err(ErrorKind::InvalidAssignment(a, b)) => assert_eq!((a.as_str(), b.as_str()), ("int", "bool")),
        other => panic!("{:?}", other),
    }
    assert_eq!(point.get_property("x", false, &session).unwrap().get_value_clone(), Value::Int(7));
    assert!(matches!(
        point.set_property("secret", false, Value::Bool(false), &session),
        Err(ErrorKind::MemberIsPrivate(_))
    ));
    assert!(point.set_property("secret", true, Value::Bool(false), &session).is_ok());
    assert!(matches!(
        point.set_property("y", true, Value::Nil, &session),
        Err(ErrorKind::HasNoMember(_, _))
    ));
    assert!(point.set_property("any", false, Value::Int(3), &session).is_ok());
    assert!(point.set_property("any", false, Value::Str(0), &session).is_ok());
    assert!(point.get_property("any", false, &session).unwrap().is_dynamic());

    let mut heap = Heap::new();
    let value = heap.new_instance(point);
    assert_eq!(value, Value::Class { object: 0, typeid: 11 });
    assert!(heap.set_property(0, "x", false, Value::Int(8), &session).is_ok());
    assert_eq!(
        heap.instance(0).unwrap().get_property("x", false, &session).unwrap().get_value_clone(),
        Value::Int(8)
    );
    assert!(matches!(
        heap.set_property(5, "x", false, Value::Int(8), &session),
        Err(ErrorKind::InvalidMemberAccess)
    ));
}

#[test]
fn sessions() {
    let mut session = ParseSession::new();
    for (id, name) in [
        "dyn", "none", "int", "float", "string", "bool", "Vec", "Result", "File", "Fs", "Math",
    ]
    .iter()
    .enumerate()
    {
        assert_eq!(session.get_typename(id), *name);
    }
    assert_eq!(session.get_typename(11), "");
    assert_eq!(session.get_next_typeid(), 11);
    session.add_typename("A");
    assert_eq!(session.get_typename(11), "A");
    assert_eq!(session.get_next_typeid(), 12);
    let map = session.create_typemap();
    assert_eq!(map.len(), 12);
    assert_eq!(map.get("int"), Some(&2));
    assert_eq!(map.get("Math"), Some(&10));
    assert_eq!(map.get("A"), Some(&11));
    assert_eq!(map.get("B"), None);

    assert!(session.get_function("print", None).unwrap().is_builtin());
    assert_eq!(session.get_function("print", None).unwrap().arguments().len(), 1);
    assert_eq!(session.get_function("rand", None).unwrap().arguments()[1].name(), "b");
    assert!(matches!(session.get_function("nothing", None), Err(ErrorKind::FunctionNotFound)));
    let as_method = |t| Some(FnQueryOptions::new(t, true, false));
    let as_function = |t| Some(FnQueryOptions::new(t, false, false));
    assert!(session.get_function("abs", as_method(TYPEID_INT)).is_ok());
    assert!(matches!(
        session.get_function("abs", as_function(TYPEID_INT)),
        Err(ErrorKind::FunctionNotFound)
    ));
    assert!(session.get_function("parse", as_function(TYPEID_INT)).is_ok());
    assert!(session.get_function("parse", as_method(TYPEID_INT)).is_err());
    assert!(session.get_function("push", as_method(TYPEID_VEC)).is_ok());
    assert!(session.get_function("new", as_function(TYPEID_VEC)).is_ok());
    assert!(session.get_function("sin", as_function(10)).is_ok());
    assert!(session.get_function("move", as_function(9)).is_ok());
    assert!(session.get_function("read", as_function(8)).is_ok());
    assert!(session.get_function("is_ok", as_method(TYPEID_RESULT)).is_ok());
    assert!(session.get_function("split", as_method(TYPEID_STRING)).is_ok());
    assert!(session.get_function("is_nan", as_method(TYPEID_FLOAT)).is_ok());
    assert!(session.get_function("to_string", as_method(TYPEID_BOOL)).is_ok());
    assert!(session.get_function("abs", as_method(TYPEID_NONE)).is_err());
    assert!(session.get_function("abs", as_method(TYPEID_DYN)).is_err());
    assert!(session.get_function("abs", as_method(40)).is_err());
    assert!(session.get_class_definition(TYPEID_INT).is_some());
    assert_eq!(session.get_class_definition(TYPEID_VEC).unwrap().typeid(), TYPEID_VEC);
    assert!(session.get_class_definition(0).is_none());
    assert!(session.get_class_definition(11).is_none());

    assert_eq!(session.get_source_code(), "");
    session.append_source_code("let x = 1");
    assert_eq!(session.get_source_code(), "let x = 1\n");
    assert_eq!(session.get_source_code_offset(), 0);
    session.append_source_code("x\n");
    assert_eq!(session.get_source_code(), "let x = 1\nx\n");
    assert_eq!(session.get_source_code_offset(), 10);
    assert_eq!(session.get_source_code_len(), 12);
    session.clear();
    assert_eq!(session.get_source_code(), "");
    assert_eq!(session.get_source_code_offset(), 0);
    assert_eq!(session.get_next_typeid(), 11);
    assert!(session.get_function("print", None).is_ok());
}

#[test]
fn scopes_and_call_depth() {
    let session = ParseSession::new();
    let mut exec = ExecSession::new();
    assert!(exec.get_variable("x").is_none());
    assert!(!exec.variable_exists("x"));
    exec.add_variable("x", Variable::new(Value::Int(1), false));
    assert!(exec.variable_exists("x"));
    assert!(exec.assign_variable("x", Value::Int(2), &session).is_ok());
    assert_eq!(exec.get_variable("x").unwrap().get_value_clone(), Value::Int(2));
    match exec.assign_variable("x", Value::Nil, &session) {
        Err(ErrorKind::InvalidAssignment(a, b)) => assert_eq!((a.as_str(), b.as_str()), ("int", "none")),
        other => panic!("{:?}", other),
    }
    assert!(matches!(
        exec.assign_variable("y", Value::Nil, &session),
        Err(ErrorKind::IdentifierNotFound)
    ));
    exec.decrement_call_count();
    assert_eq!(exec.call_count, 0);
    for _ in 0..FUNCTION_CALL_LIMIT {
        assert!(exec.increment_call_count().is_ok());
    }
    assert_eq!(exec.call_count, FUNCTION_CALL_LIMIT);
    let failed = exec.increment_call_count().unwrap_err();
    assert!(matches!(failed.kind, ErrorKind::IterationLimitReached));
    assert_eq!(exec.call_count, FUNCTION_CALL_LIMIT);
    exec.decrement_call_count();
    assert!(exec.increment_call_count().is_ok());

    exec.add_backtrace(BacktraceItem::new("f", (1, 2)));
    assert_eq!(exec.get_backtrace().len(), 1);
    assert_eq!(exec.get_backtrace()[0].name, "f");
    assert_eq!((exec.get_backtrace()[0].line, exec.get_backtrace()[0].col), (1, 2));
    exec.clear_backtrace();
    assert_eq!(exec.get_backtrace().len(), 0);
    exec.write("a");
    exec.write("b");
    assert_eq!(exec.take_output(), "ab");
    assert_eq!(exec.take_output(), "");
    exec.clear();
    assert_eq!(exec.call_count, 0);
    assert!(exec.get_variable("x").is_none());
    assert_eq!(ReturnValue::Value(Value::Int(1)).value(), Some(Value::Int(1)));
    assert_eq!(ReturnValue::Return(Value::Int(2), 7).value(), Some(Value::Int(2)));
    assert_eq!(ReturnValue::Break.value(), None);
    assert_eq!(ReturnValue::Return(Value::Int(2), 7).expect("value"), Value::Int(2));
}

#[test]
fn column_beyond_the_text_counts_from_the_position() {
    assert_eq!(get_line_column(10, "ab"), (1, 11));
    assert_eq!(get_line_column(5, ""), (1, 6));
    assert_eq!(get_line_column(2, "ab"), (1, 3));
    assert_eq!(get_line_column(9, "ab\ncd"), (2, 7));
    assert_eq!(get_line_column(4, "ab\ncd"), (2, 2));
}

#[test]
fn backtrace_block() {
    let items = vec![
        BacktraceItem::new("inner", (12, 3)),
        BacktraceItem::new("outer", (7, 10)),
    ];
    assert_eq!(
        dust::error::print_backtrace_to_string(&items, 3),
        "Backtrace:\n\n  inner called at  12:3\n  outer called at   7:10\n  root\n\nIn function inner:\n"
    );
    assert_eq!(dust::error::print_backtrace_to_string(&Vec::new(), 3), "");
}

#[test]
fn new_and_cleared_sessions_hold_no_objects() {
    let mut session = dust::Session::new();
    assert_eq!(session.exec_session.heap.strings.len(), 0);
    session.exec_session.heap.new_string(vec!['a']);
    session.exec_session.heap.new_vector(Vec::new());
    session.clear();
    assert_eq!(session.exec_session.heap.strings.len(), 0);
    assert_eq!(session.exec_session.heap.vectors.len(), 0);
    assert_eq!(session.exec_session.heap.instances.len(), 0);
}

#[test]
fn white_space_is_what_unicode_says() {
    let mut code: u32 = 0;
    while code <= 0x10FFFF {
        if let Some(c) = char::from_u32(code) {
            assert_eq!(dust::builtin::is_whitespace(c), c.is_whitespace(), "{:x}", code);
        }
        code += 1;
    }
}
