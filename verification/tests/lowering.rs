use dust::builtin::{TYPEID_BOOL, TYPEID_INT};
use dust::error::Context;
use dust::function::Function;
use dust::instruction::Instruction;
use dust::parser::parse;
use dust::session::ParseSession;
use dust::token::{Literal, TokenKind};

fn span(context: Context) -> (usize, usize) {
    (context.start, context.end)
}

fn lower(input: &str) -> (Vec<Instruction>, ParseSession) {
    let mut session = ParseSession::new();
    let instructions = parse(input, &mut session).unwrap();
    (instructions, session)
}

#[test]
fn declaration_with_two_names() {
    let (instructions, _) = lower("let a: int, b = 1");
    assert_eq!(instructions.len(), 1);
    match &instructions[0] {
        Instruction::VariableInit(init) => {
            assert_eq!(init.identifiers.len(), 2);
            assert_eq!(init.identifiers[0].name(), "a");
            assert_eq!(init.identifiers[0].typeid(), Some(TYPEID_INT));
            assert_eq!(init.identifiers[1].name(), "b");
            assert_eq!(init.identifiers[1].typeid(), None);
            assert_eq!(init.assign_pos, 14);
            assert_eq!(span(init.context), (0, 17));
            assert_eq!(span(init.expr.context), (16, 17));
            assert_eq!(init.expr.tokens.len(), 1);
            match &init.expr.tokens[0].kind {
                TokenKind::Value(Literal::Int(1)) => {},
                other => panic!("{:?}", other),
            }
        },
        other => panic!("{:?}", other),
    }
}

#[test]
fn assignment_to_a_property() {
    let (instructions, _) = lower("a.b = 1");
    assert_eq!(instructions.len(), 1);
    match &instructions[0] {
        Instruction::VariableAssign(assign) => {
            assert_eq!(assign.identifier, "b");
            assert_eq!(assign.id_pos, 2);
            assert_eq!(assign.assign_pos, 4);
            assert_eq!(assign.private_access_typeid, None);
            assert_eq!(span(assign.context), (0, 7));
            assert_eq!(span(assign.expr.context), (6, 7));
            let (source, dot) = assign.source_expr.as_ref().unwrap();
            assert_eq!(*dot, 1);
            assert_eq!(span(source.context), (0, 1));
            assert_eq!(source.tokens.len(), 1);
            match &source.tokens[0].kind {
                TokenKind::Identifier(name) => assert_eq!(name, "a"),
                other => panic!("{:?}", other),
            }
        },
        other => panic!("{:?}", other),
    }
}

#[test]
fn assignment_to_a_name() {
    let (instructions, _) = lower("total = total + 1");
    match &instructions[0] {
        Instruction::VariableAssign(assign) => {
            assert_eq!(assign.identifier, "total");
            assert!(assign.source_expr.is_none());
            assert_eq!(assign.assign_pos, 6);
            assert_eq!(assign.expr.tokens.len(), 3);
        },
        other => panic!("{:?}", other),
    }
}

#[test]
fn conditional_with_every_part() {
    let input = "if a { 1 } else if b { 2; 3 } else { 4 }";
    let (instructions, _) = lower(input);
    assert_eq!(instructions.len(), 1);
    match &instructions[0] {
        Instruction::Branch(branch) => {
            assert_eq!(branch.main_branch.body.len(), 1);
            assert_eq!(branch.else_if_branches.len(), 1);
            assert_eq!(branch.else_if_branches[0].body.len(), 2);
            assert_eq!(branch.else_branch.len(), 1);
            assert_eq!(span(branch.context), (0, input.len()));
            assert_eq!(span(branch.main_branch.condition.context), (3, 4));
        },
        other => panic!("{:?}", other),
    }
}

#[test]
fn conditional_without_else() {
    let (instructions, _) = lower("if a { } 7");
    assert_eq!(instructions.len(), 2);
    match &instructions[0] {
        Instruction::Branch(branch) => {
            assert_eq!(branch.main_branch.body.len(), 0);
            assert_eq!(branch.else_if_branches.len(), 0);
            assert_eq!(branch.else_branch.len(), 0);
            assert_eq!(span(branch.context), (0, 8));
        },
        other => panic!("{:?}", other),
    }
    match &instructions[1] {
        Instruction::Expression(expression) => {
            assert_eq!(span(expression.context), (9, 10))
        },
        other => panic!("{:?}", other),
    }
}

#[test]
fn loops() {
    let (instructions, _) = lower("for i in v { break }\nwhile true { }");
    assert_eq!(instructions.len(), 2);
    match &instructions[0] {
        Instruction::ForLoop(for_loop) => {
            assert_eq!(for_loop.alias, "i");
            assert_eq!(for_loop.operand_pos, 9);
            assert_eq!(for_loop.body.len(), 1);
            assert!(matches!(for_loop.body[0], Instruction::Break(_)));
            assert_eq!(span(for_loop.context), (0, 20));
        },
        other => panic!("{:?}", other),
    }
    match &instructions[1] {
        Instruction::WhileLoop(while_loop) => {
            assert_eq!(while_loop.body.len(), 0);
            assert_eq!(span(while_loop.context), (21, 35));
            assert_eq!(span(while_loop.condition.context), (27, 31));
        },
        other => panic!("{:?}", other),
    }
}

#[test]
fn function_definition() {
    let (instructions, session) = lower("fn f(a: int, b: bool) -> int { return a }");
    assert_eq!(instructions.len(), 0);
    match session.get_function("f", None).unwrap() {
        Function::UserFunction(function) => {
            assert_eq!(function.arguments.len(), 2);
            assert_eq!(function.arguments[0].name(), "a");
            assert_eq!(function.arguments[0].typeid(), TYPEID_INT);
            assert_eq!(function.arguments[1].name(), "b");
            assert_eq!(function.arguments[1].typeid(), TYPEID_BOOL);
            assert_eq!(function.return_typeid, Some((TYPEID_INT, 25)));
            assert_eq!(span(function.context), (0, 28));
            assert_eq!(function.body.len(), 1);
            match &function.body[0] {
                Instruction::Return(ret) => assert!(ret.expr.is_some()),
                other => panic!("{:?}", other),
            }
        },
        Function::BuiltinFunction(_) => panic!("a built-in function"),
    }
}

#[test]
fn class_definition() {
    let mut session = ParseSession::new();
    let typeid = session.get_next_typeid();
    let input = "class A(x: int) { pub n: int = 0; fn get(self) -> int { return self.n } }";
    let instructions = parse(input, &mut session).unwrap();
    assert_eq!(instructions.len(), 0);
    assert_eq!(session.get_typename(typeid), "A");
    assert_eq!(session.get_next_typeid(), typeid + 1);
    let class = session.get_class_definition(typeid).unwrap();
    assert_eq!(class.typeid, typeid);
    assert_eq!(span(class.context), (0, input.len()));
    assert_eq!(class.property_definitions.len(), 1);
    let property = &class.property_definitions[0];
    assert!(property.is_public);
    assert_eq!(property.id.name(), "n");
    assert_eq!(property.id.typeid(), TYPEID_INT);
    assert_eq!(property.assign_pos, 11);
    assert_eq!(property.init_expression.private_access_typeid, Some(typeid));
    assert!(class.get_function("new", false, false).is_ok());
    assert!(class.get_function("get", true, true).is_ok());
    assert!(class.get_function("get", true, false).is_err());
    assert!(class.get_function("get", false, true).is_err());
}

#[test]
fn items_keep_their_order() {
    let (instructions, session) = lower("1; fn f() { } 2\nclass B { } ; 3");
    assert_eq!(instructions.len(), 3);
    let spans: Vec<(usize, usize)> = instructions
        .iter()
        .map(|instruction| match instruction {
            Instruction::Expression(expression) => span(expression.context),
            other => panic!("{:?}", other),
        })
        .collect();
    assert_eq!(spans, vec![(0, 1), (14, 15), (30, 31)]);
    assert!(session.get_function("f", None).is_ok());
}

#[test]
fn spans_count_from_the_start_of_the_source() {
    let mut session = ParseSession::new();
    parse("let a = 1", &mut session).unwrap();
    let instructions = parse("a = 2", &mut session).unwrap();
    match &instructions[0] {
        Instruction::VariableAssign(assign) => {
            assert_eq!(span(assign.context), (10, 15));
            assert_eq!(assign.assign_pos, 2);
        },
        other => panic!("{:?}", other),
    }
}

#[test]
fn targets_are_member_chains() {
    for input in ["a = 1", "a.b.c = 1", "f().x = 1", "self.n = self.n + 1"] {
        let (instructions, _) = lower(input);
        assert!(matches!(instructions[0], Instruction::VariableAssign(_)), "{}", input);
    }
    for input in ["a + b.c = 1", "-a.b = 1", "(a).b = 1", "f() = 1", "1 = 2", "a.b() = 1"] {
        let mut session = ParseSession::new();
        match parse(input, &mut session) {
            Err(error) => assert!(matches!(error.kind, dust::error::ErrorKind::SyntaxError), "{}", input),
            Ok(_) => panic!("{}", input),
        }
    }
}
