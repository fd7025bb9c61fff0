//! The reserved types and the functions that the interpreter provides.

use vstd::prelude::*;
use vstd::hash_map::StringHashMap;
use crate::class::{
    spec_parameters, spec_signatures, ClassDefinition, ClassFunction, ClassInstance, Property,
};
use crate::error::ErrorKind;
use crate::function::{BuiltinFunction, Function};
use crate::heap::Heap;
use crate::host::{FileOp, FileOutcome, FloatFn, Reply, Request};
use crate::session::{ExecSession, ParseSession};
use crate::text::{from_chars, to_chars};
use crate::variable::{AnnotatedIdentifier, Value, Variable};

verus! {

pub const DYN_KEYWORD: &'static str = "dyn";

pub const TYPEID_DYN: usize = 0;

pub const TYPEID_NONE: usize = 1;

pub const TYPEID_INT: usize = 2;

pub const TYPEID_FLOAT: usize = 3;

pub const TYPEID_STRING: usize = 4;

pub const TYPEID_BOOL: usize = 5;

pub const TYPEID_VEC: usize = 6;

pub const TYPEID_RESULT: usize = 7;

pub const TYPEID_FILE: usize = 8;

pub const TYPEID_FILESYSTEM: usize = 9;

pub const TYPEID_MATH: usize = 10;

/// Number of reserved type-ids; the first class that a program declares gets
/// this id.
pub const DEFAULT_TYPES_COUNT: usize = 11;

} // verus!

verus! {

/// The operations that the interpreter provides, each under the name of the
/// function or method that performs it.
#[derive(Debug, Clone, Copy, PartialEq, Eq, Structural)]
pub enum Builtin {
    ClassConstructor,
    Println,
    Print,
    Input,
    Rand,
    Range,
    Panic,
    SelfToString,
    IntParse,
    IntAbs,
    IntToFloat,
    FloatParse,
    FloatAbs,
    FloatIsNan,
    FloatToInt,
    FloatPi,
    StringJoin,
    StringStartsWith,
    StringEndsWith,
    StringContains,
    StringPop,
    StringTrim,
    StringToLowercase,
    StringToUppercase,
    StringLen,
    StringChars,
    StringSubstring,
    StringSplit,
    BoolParse,
    VecNew,
    VecPush,
    VecGet,
    VecSet,
    VecRemove,
    VecPop,
    VecClear,
    VecLen,
    ResultNew,
    ResultIsOk,
    ResultValue,
    ResultUnwrap,
    FileRead,
    FileWrite,
    FileAppend,
    FsCurrentDirectory,
    FsChangeDirectory,
    FsExists,
    FsList,
    FsRemoveFile,
    FsRemoveDirectory,
    FsCreateDirectory,
    FsCopy,
    FsMove,
    Sin,
    Sind,
    Asin,
    Asind,
    Cos,
    Cosd,
    Acos,
    Acosd,
    Tan,
    Tand,
    Atan,
    Atand,
    Ln,
    Log,
}

} // verus!

verus! {

/// Which built-in operation a free function performs, if it is one, and its
/// parameters.
pub open spec fn spec_free_signature(f: Function) -> (Option<Builtin>, Seq<(Seq<char>, usize)>) {
    (
        match f {
            Function::BuiltinFunction(b) => Some(b.body),
            Function::UserFunction(_) => None,
        },
        spec_parameters(f.spec_arguments()@),
    )
}

/// The signatures of a table of free functions, by name.
pub open spec fn spec_free_signatures(functions: Map<Seq<char>, Function>) -> Map<
    Seq<char>,
    (Option<Builtin>, Seq<(Seq<char>, usize)>),
> {
    Map::new(
        |name: Seq<char>| functions.contains_key(name),
        |name: Seq<char>| spec_free_signature(functions[name]),
    )
}

/// The signature of a public built-in class function.
pub open spec fn spec_sig(body: Builtin, parameters: Seq<(Seq<char>, usize)>, uses_self: bool) -> (
    Option<Builtin>,
    Seq<(Seq<char>, usize)>,
    bool,
    bool,
) {
    (Some(body), parameters, uses_self, true)
}

/// A parameter list of one parameter called `a`.
pub open spec fn spec_p1(a: usize) -> Seq<(Seq<char>, usize)> {
    seq![("a"@, a)]
}

/// A parameter list of two parameters called `a` and `b`.
pub open spec fn spec_p2(a: usize, b: usize) -> Seq<(Seq<char>, usize)> {
    seq![("a"@, a), ("b"@, b)]
}

pub open spec fn spec_p0() -> Seq<(Seq<char>, usize)> {
    Seq::empty()
}

/// The free functions that every session starts with.
pub open spec fn spec_builtin_functions() -> Map<
    Seq<char>,
    (Option<Builtin>, Seq<(Seq<char>, usize)>),
> {
    spec_with_builtin_functions(Map::empty())
}

/// A table of free functions with the functions that the interpreter provides
/// entered in it, each in place of what the table held under its name.
pub open spec fn spec_with_builtin_functions(
    table: Map<Seq<char>, (Option<Builtin>, Seq<(Seq<char>, usize)>)>,
) -> Map<Seq<char>, (Option<Builtin>, Seq<(Seq<char>, usize)>)> {
    table.insert("println"@, (Some(Builtin::Println), spec_p1(TYPEID_DYN))).insert(
        "print"@,
        (Some(Builtin::Print), spec_p1(TYPEID_DYN)),
    ).insert("input"@, (Some(Builtin::Input), spec_p1(TYPEID_STRING))).insert(
        "rand"@,
        (Some(Builtin::Rand), spec_p2(TYPEID_INT, TYPEID_INT)),
    ).insert("range"@, (Some(Builtin::Range), spec_p2(TYPEID_INT, TYPEID_INT))).insert(
        "panic"@,
        (Some(Builtin::Panic), spec_p1(TYPEID_STRING)),
    )
}

pub open spec fn spec_int_class() -> Map<
    Seq<char>,
    (Option<Builtin>, Seq<(Seq<char>, usize)>, bool, bool),
> {
    Map::empty().insert("parse"@, spec_sig(Builtin::IntParse, spec_p1(TYPEID_STRING), false)).insert(
        "abs"@,
        spec_sig(Builtin::IntAbs, spec_p0(), true),
    ).insert("to_float"@, spec_sig(Builtin::IntToFloat, spec_p0(), true)).insert(
        "to_string"@,
        spec_sig(Builtin::SelfToString, spec_p0(), true),
    )
}

pub open spec fn spec_float_class() -> Map<
    Seq<char>,
    (Option<Builtin>, Seq<(Seq<char>, usize)>, bool, bool),
> {
    Map::empty().insert(
        "parse"@,
        spec_sig(Builtin::FloatParse, spec_p1(TYPEID_STRING), false),
    ).insert("abs"@, spec_sig(Builtin::FloatAbs, spec_p0(), true)).insert(
        "is_nan"@,
        spec_sig(Builtin::FloatIsNan, spec_p0(), true),
    ).insert("to_int"@, spec_sig(Builtin::FloatToInt, spec_p0(), true)).insert(
        "pi"@,
        spec_sig(Builtin::FloatPi, spec_p0(), false),
    ).insert("to_string"@, spec_sig(Builtin::SelfToString, spec_p0(), true))
}

pub open spec fn spec_string_class() -> Map<
    Seq<char>,
    (Option<Builtin>, Seq<(Seq<char>, usize)>, bool, bool),
> {
    Map::empty().insert("join"@, spec_sig(Builtin::StringJoin, spec_p1(TYPEID_STRING), true)).insert(
        "starts_with"@,
        spec_sig(Builtin::StringStartsWith, spec_p1(TYPEID_STRING), true),
    ).insert(
        "ends_with"@,
        spec_sig(Builtin::StringEndsWith, spec_p1(TYPEID_STRING), true),
    ).insert("contains"@, spec_sig(Builtin::StringContains, spec_p1(TYPEID_STRING), true)).insert(
        "pop"@,
        spec_sig(Builtin::StringPop, spec_p0(), true),
    ).insert("trim"@, spec_sig(Builtin::StringTrim, spec_p0(), true)).insert(
        "to_lowercase"@,
        spec_sig(Builtin::StringToLowercase, spec_p0(), true),
    ).insert("to_uppercase"@, spec_sig(Builtin::StringToUppercase, spec_p0(), true)).insert(
        "len"@,
        spec_sig(Builtin::StringLen, spec_p0(), true),
    ).insert("chars"@, spec_sig(Builtin::StringChars, spec_p0(), true)).insert(
        "substring"@,
        spec_sig(Builtin::StringSubstring, spec_p2(TYPEID_INT, TYPEID_INT), true),
    ).insert("split"@, spec_sig(Builtin::StringSplit, spec_p1(TYPEID_STRING), true))
}

pub open spec fn spec_bool_class() -> Map<
    Seq<char>,
    (Option<Builtin>, Seq<(Seq<char>, usize)>, bool, bool),
> {
    Map::empty().insert(
        "parse"@,
        spec_sig(Builtin::BoolParse, spec_p1(TYPEID_STRING), false),
    ).insert("to_string"@, spec_sig(Builtin::SelfToString, spec_p0(), true))
}

pub open spec fn spec_vec_class() -> Map<
    Seq<char>,
    (Option<Builtin>, Seq<(Seq<char>, usize)>, bool, bool),
> {
    Map::empty().insert("new"@, spec_sig(Builtin::VecNew, spec_p0(), false)).insert(
        "push"@,
        spec_sig(Builtin::VecPush, spec_p1(TYPEID_DYN), true),
    ).insert("get"@, spec_sig(Builtin::VecGet, spec_p1(TYPEID_INT), true)).insert(
        "set"@,
        spec_sig(Builtin::VecSet, spec_p2(TYPEID_INT, TYPEID_DYN), true),
    ).insert("remove"@, spec_sig(Builtin::VecRemove, spec_p1(TYPEID_INT), true)).insert(
        "pop"@,
        spec_sig(Builtin::VecPop, spec_p0(), true),
    ).insert("clear"@, spec_sig(Builtin::VecClear, spec_p0(), true)).insert(
        "len"@,
        spec_sig(Builtin::VecLen, spec_p0(), true),
    )
}

pub open spec fn spec_result_class() -> Map<
    Seq<char>,
    (Option<Builtin>, Seq<(Seq<char>, usize)>, bool, bool),
> {
    Map::empty().insert(
        "new"@,
        spec_sig(Builtin::ResultNew, spec_p2(TYPEID_BOOL, TYPEID_DYN), false),
    ).insert("is_ok"@, spec_sig(Builtin::ResultIsOk, spec_p0(), true)).insert(
        "value"@,
        spec_sig(Builtin::ResultValue, spec_p0(), true),
    ).insert("unwrap"@, spec_sig(Builtin::ResultUnwrap, spec_p0(), true))
}

pub open spec fn spec_file_class() -> Map<
    Seq<char>,
    (Option<Builtin>, Seq<(Seq<char>, usize)>, bool, bool),
> {
    Map::empty().insert("read"@, spec_sig(Builtin::FileRead, spec_p1(TYPEID_STRING), false)).insert(
        "write"@,
        spec_sig(Builtin::FileWrite, spec_p2(TYPEID_STRING, TYPEID_STRING), false),
    ).insert(
        "append"@,
        spec_sig(Builtin::FileAppend, spec_p2(TYPEID_STRING, TYPEID_STRING), false),
    )
}

pub open spec fn spec_filesystem_class() -> Map<
    Seq<char>,
    (Option<Builtin>, Seq<(Seq<char>, usize)>, bool, bool),
> {
    Map::empty().insert(
        "current_directory"@,
        spec_sig(Builtin::FsCurrentDirectory, spec_p0(), false),
    ).insert(
        "change_directory"@,
        spec_sig(Builtin::FsChangeDirectory, spec_p1(TYPEID_STRING), false),
    ).insert("exists"@, spec_sig(Builtin::FsExists, spec_p1(TYPEID_STRING), false)).insert(
        "list"@,
        spec_sig(Builtin::FsList, spec_p1(TYPEID_STRING), false),
    ).insert(
        "remove_file"@,
        spec_sig(Builtin::FsRemoveFile, spec_p1(TYPEID_STRING), false),
    ).insert(
        "remove_directory"@,
        spec_sig(Builtin::FsRemoveDirectory, spec_p1(TYPEID_STRING), false),
    ).insert(
        "create_directory"@,
        spec_sig(Builtin::FsCreateDirectory, spec_p1(TYPEID_STRING), false),
    ).insert(
        "copy"@,
        spec_sig(Builtin::FsCopy, spec_p2(TYPEID_STRING, TYPEID_STRING), false),
    ).insert("move"@, spec_sig(Builtin::FsMove, spec_p2(TYPEID_STRING, TYPEID_STRING), false))
}

pub open spec fn spec_math_class() -> Map<
    Seq<char>,
    (Option<Builtin>, Seq<(Seq<char>, usize)>, bool, bool),
> {
    Map::empty().insert("sin"@, spec_sig(Builtin::Sin, spec_p1(TYPEID_FLOAT), false)).insert(
        "sind"@,
        spec_sig(Builtin::Sind, spec_p1(TYPEID_FLOAT), false),
    ).insert("asin"@, spec_sig(Builtin::Asin, spec_p1(TYPEID_FLOAT), false)).insert(
        "asind"@,
        spec_sig(Builtin::Asind, spec_p1(TYPEID_FLOAT), false),
    ).insert("cos"@, spec_sig(Builtin::Cos, spec_p1(TYPEID_FLOAT), false)).insert(
        "cosd"@,
        spec_sig(Builtin::Cosd, spec_p1(TYPEID_FLOAT), false),
    ).insert("acos"@, spec_sig(Builtin::Acos, spec_p1(TYPEID_FLOAT), false)).insert(
        "acosd"@,
        spec_sig(Builtin::Acosd, spec_p1(TYPEID_FLOAT), false),
    ).insert("tan"@, spec_sig(Builtin::Tan, spec_p1(TYPEID_FLOAT), false)).insert(
        "tand"@,
        spec_sig(Builtin::Tand, spec_p1(TYPEID_FLOAT), false),
    ).insert("atan"@, spec_sig(Builtin::Atan, spec_p1(TYPEID_FLOAT), false)).insert(
        "atand"@,
        spec_sig(Builtin::Atand, spec_p1(TYPEID_FLOAT), false),
    ).insert("ln"@, spec_sig(Builtin::Ln, spec_p1(TYPEID_FLOAT), false)).insert(
        "log"@,
        spec_sig(Builtin::Log, spec_p1(TYPEID_FLOAT), false),
    )
}

/// The functions of the class of a reserved type.
pub open spec fn spec_class_table(typeid: usize) -> Map<
    Seq<char>,
    (Option<Builtin>, Seq<(Seq<char>, usize)>, bool, bool),
> {
    if typeid == TYPEID_INT {
        spec_int_class()
    } else if typeid == TYPEID_FLOAT {
        spec_float_class()
    } else if typeid == TYPEID_STRING {
        spec_string_class()
    } else if typeid == TYPEID_BOOL {
        spec_bool_class()
    } else if typeid == TYPEID_VEC {
        spec_vec_class()
    } else if typeid == TYPEID_RESULT {
        spec_result_class()
    } else if typeid == TYPEID_FILE {
        spec_file_class()
    } else if typeid == TYPEID_FILESYSTEM {
        spec_filesystem_class()
    } else if typeid == TYPEID_MATH {
        spec_math_class()
    } else {
        Map::empty()
    }
}

/// Whether `class` is the class of the reserved type `typeid`: it has that
/// type-id, no properties, and exactly the functions of that type.
pub open spec fn spec_is_builtin_class(class: ClassDefinition, typeid: usize) -> bool {
    &&& class.typeid == typeid
    &&& class.property_definitions@.len() == 0
    &&& spec_signatures(class.function_definitions@) == spec_class_table(typeid)
}

/// Whether the list holds the classes of the reserved types, `int` first.
pub open spec fn spec_is_builtin_classes(classes: Seq<ClassDefinition>) -> bool {
    &&& classes.len() == 9
    &&& forall|i: int| 0 <= i < 9 ==> spec_is_builtin_class(#[trigger] classes[i], (i + 2) as usize)
}

fn p0() -> (v: Vec<AnnotatedIdentifier>)
    ensures
        spec_parameters(v@) == spec_p0(),
{
    let v: Vec<AnnotatedIdentifier> = Vec::new();
    assert(spec_parameters(v@) =~= spec_p0());
    v
}

fn p1(a: usize) -> (v: Vec<AnnotatedIdentifier>)
    ensures
        spec_parameters(v@) == spec_p1(a),
{
    let mut v: Vec<AnnotatedIdentifier> = Vec::new();
    v.push(AnnotatedIdentifier::new(String::from_str("a"), a));
    assert(spec_parameters(v@) =~= spec_p1(a));
    v
}

fn p2(a: usize, b: usize) -> (v: Vec<AnnotatedIdentifier>)
    ensures
        spec_parameters(v@) == spec_p2(a, b),
{
    let mut v: Vec<AnnotatedIdentifier> = Vec::new();
    v.push(AnnotatedIdentifier::new(String::from_str("a"), a));
    v.push(AnnotatedIdentifier::new(String::from_str("b"), b));
    assert(spec_parameters(v@) =~= spec_p2(a, b));
    v
}

fn add_function(
    store: &mut StringHashMap<Function>,
    name: &str,
    body: Builtin,
    parameters: Vec<AnnotatedIdentifier>,
)
    ensures
        spec_free_signatures(final(store)@) == spec_free_signatures(old(store)@).insert(
            name@,
            (Some(body), spec_parameters(parameters@)),
        ),
{
    store.insert(
        String::from_str(name),
        Function::BuiltinFunction(BuiltinFunction::new(parameters, body)),
    );
    assert(spec_free_signatures(store@) =~= spec_free_signatures(old(store)@).insert(
        name@,
        (Some(body), spec_parameters(parameters@)),
    ));
}

fn add_method(
    functions: &mut StringHashMap<ClassFunction>,
    name: &str,
    body: Builtin,
    parameters: Vec<AnnotatedIdentifier>,
    uses_self: bool,
)
    ensures
        spec_signatures(final(functions)@) == spec_signatures(old(functions)@).insert(
            name@,
            spec_sig(body, spec_parameters(parameters@), uses_self),
        ),
{
    functions.insert(
        String::from_str(name),
        ClassFunction::new(
            Function::BuiltinFunction(BuiltinFunction::new(parameters, body)),
            uses_self,
            true,
        ),
    );
    assert(spec_signatures(functions@) =~= spec_signatures(old(functions)@).insert(
        name@,
        spec_sig(body, spec_parameters(parameters@), uses_self),
    ));
}

fn new_table() -> (functions: StringHashMap<ClassFunction>)
    ensures
        spec_signatures(functions@) == Map::<
            Seq<char>,
            (Option<Builtin>, Seq<(Seq<char>, usize)>, bool, bool),
        >::empty(),
{
    let functions: StringHashMap<ClassFunction> = StringHashMap::new();
    assert(spec_signatures(functions@) =~= Map::<
        Seq<char>,
        (Option<Builtin>, Seq<(Seq<char>, usize)>, bool, bool),
    >::empty());
    functions
}

/// Enters the free functions that the interpreter provides, each in place
/// of what the store held under its name.
pub fn load_builtin_functions(function_store: &mut StringHashMap<Function>)
    ensures
        spec_free_signatures(final(function_store)@) == spec_with_builtin_functions(
            spec_free_signatures(old(function_store)@),
        ),
        old(function_store)@ == Map::<Seq<char>, Function>::empty() ==> spec_free_signatures(
            final(function_store)@,
        ) == spec_builtin_functions(),
{
    assert(old(function_store)@ == Map::<Seq<char>, Function>::empty() ==> spec_free_signatures(
        function_store@,
    ) =~= Map::<Seq<char>, (Option<Builtin>, Seq<(Seq<char>, usize)>)>::empty());
    add_function(function_store, "println", Builtin::Println, p1(TYPEID_DYN));
    add_function(function_store, "print", Builtin::Print, p1(TYPEID_DYN));
    add_function(function_store, "input", Builtin::Input, p1(TYPEID_STRING));
    add_function(function_store, "rand", Builtin::Rand, p2(TYPEID_INT, TYPEID_INT));
    add_function(function_store, "range", Builtin::Range, p2(TYPEID_INT, TYPEID_INT));
    add_function(function_store, "panic", Builtin::Panic, p1(TYPEID_STRING));
}

/// Appends the classes of the reserved types, `int` first.
pub fn load_builtin_class_definitions(class_definitions: &mut Vec<ClassDefinition>)
    ensures
        final(class_definitions)@.len() == old(class_definitions)@.len() + 9,
        final(class_definitions)@.subrange(0, old(class_definitions)@.len() as int) == old(class_definitions)@,
        spec_is_builtin_classes(
            final(class_definitions)@.subrange(
                old(class_definitions)@.len() as int,
                final(class_definitions)@.len() as int,
            ),
        ),
        old(class_definitions)@.len() == 0 ==> spec_is_builtin_classes(final(class_definitions)@),
{
    class_definitions.push(make_int_class());
    class_definitions.push(make_float_class());
    class_definitions.push(make_string_class());
    class_definitions.push(make_bool_class());
    class_definitions.push(make_vec_class());
    class_definitions.push(make_result_class());
    class_definitions.push(make_file_class());
    class_definitions.push(make_filesystem_class());
    class_definitions.push(make_math_class());
    let ghost n = old(class_definitions)@.len() as int;
    assert(class_definitions@.subrange(0, n) =~= old(class_definitions)@);
    let ghost added = class_definitions@.subrange(n, class_definitions@.len() as int);
    assert(forall|i: int| 0 <= i < 9 ==> added[i] == class_definitions@[n + i]);
    assert(n == 0 ==> class_definitions@ =~= added);
}

#[inline]
fn make_int_class() -> (c: ClassDefinition)
    ensures
        spec_is_builtin_class(c, TYPEID_INT),
{
    let mut functions = new_table();
    add_method(&mut functions, "parse", Builtin::IntParse, p1(TYPEID_STRING), false);
    add_method(&mut functions, "abs", Builtin::IntAbs, p0(), true);
    add_method(&mut functions, "to_float", Builtin::IntToFloat, p0(), true);
    add_method(&mut functions, "to_string", Builtin::SelfToString, p0(), true);
    ClassDefinition::new_without_constructor(functions, TYPEID_INT)
}

#[inline]
fn make_float_class() -> (c: ClassDefinition)
    ensures
        spec_is_builtin_class(c, TYPEID_FLOAT),
{
    let mut functions = new_table();
    add_method(&mut functions, "parse", Builtin::FloatParse, p1(TYPEID_STRING), false);
    add_method(&mut functions, "abs", Builtin::FloatAbs, p0(), true);
    add_method(&mut functions, "is_nan", Builtin::FloatIsNan, p0(), true);
    add_method(&mut functions, "to_int", Builtin::FloatToInt, p0(), true);
    add_method(&mut functions, "pi", Builtin::FloatPi, p0(), false);
    add_method(&mut functions, "to_string", Builtin::SelfToString, p0(), true);
    ClassDefinition::new_without_constructor(functions, TYPEID_FLOAT)
}

#[inline]
fn make_string_class() -> (c: ClassDefinition)
    ensures
        spec_is_builtin_class(c, TYPEID_STRING),
{
    let mut functions = new_table();
    add_method(&mut functions, "join", Builtin::StringJoin, p1(TYPEID_STRING), true);
    add_method(&mut functions, "starts_with", Builtin::StringStartsWith, p1(TYPEID_STRING), true);
    add_method(&mut functions, "ends_with", Builtin::StringEndsWith, p1(TYPEID_STRING), true);
    add_method(&mut functions, "contains", Builtin::StringContains, p1(TYPEID_STRING), true);
    add_method(&mut functions, "pop", Builtin::StringPop, p0(), true);
    add_method(&mut functions, "trim", Builtin::StringTrim, p0(), true);
    add_method(&mut functions, "to_lowercase", Builtin::StringToLowercase, p0(), true);
    add_method(&mut functions, "to_uppercase", Builtin::StringToUppercase, p0(), true);
    add_method(&mut functions, "len", Builtin::StringLen, p0(), true);
    add_method(&mut functions, "chars", Builtin::StringChars, p0(), true);
    add_method(
        &mut functions,
        "substring",
        Builtin::StringSubstring,
        p2(TYPEID_INT, TYPEID_INT),
        true,
    );
    add_method(&mut functions, "split", Builtin::StringSplit, p1(TYPEID_STRING), true);
    ClassDefinition::new_without_constructor(functions, TYPEID_STRING)
}

#[inline]
fn make_bool_class() -> (c: ClassDefinition)
    ensures
        spec_is_builtin_class(c, TYPEID_BOOL),
{
    let mut functions = new_table();
    add_method(&mut functions, "parse", Builtin::BoolParse, p1(TYPEID_STRING), false);
    add_method(&mut functions, "to_string", Builtin::SelfToString, p0(), true);
    ClassDefinition::new_without_constructor(functions, TYPEID_BOOL)
}

#[inline]
fn make_vec_class() -> (c: ClassDefinition)
    ensures
        spec_is_builtin_class(c, TYPEID_VEC),
{
    let mut functions = new_table();
    add_method(&mut functions, "new", Builtin::VecNew, p0(), false);
    add_method(&mut functions, "push", Builtin::VecPush, p1(TYPEID_DYN), true);
    add_method(&mut functions, "get", Builtin::VecGet, p1(TYPEID_INT), true);
    add_method(&mut functions, "set", Builtin::VecSet, p2(TYPEID_INT, TYPEID_DYN), true);
    add_method(&mut functions, "remove", Builtin::VecRemove, p1(TYPEID_INT), true);
    add_method(&mut functions, "pop", Builtin::VecPop, p0(), true);
    add_method(&mut functions, "clear", Builtin::VecClear, p0(), true);
    add_method(&mut functions, "len", Builtin::VecLen, p0(), true);
    ClassDefinition::new_without_constructor(functions, TYPEID_VEC)
}

#[inline]
fn make_result_class() -> (c: ClassDefinition)
    ensures
        spec_is_builtin_class(c, TYPEID_RESULT),
{
    let mut functions = new_table();
    add_method(&mut functions, "new", Builtin::ResultNew, p2(TYPEID_BOOL, TYPEID_DYN), false);
    add_method(&mut functions, "is_ok", Builtin::ResultIsOk, p0(), true);
    add_method(&mut functions, "value", Builtin::ResultValue, p0(), true);
    add_method(&mut functions, "unwrap", Builtin::ResultUnwrap, p0(), true);
    ClassDefinition::new_without_constructor(functions, TYPEID_RESULT)
}

#[inline]
fn make_file_class() -> (c: ClassDefinition)
    ensures
        spec_is_builtin_class(c, TYPEID_FILE),
{
    let mut functions = new_table();
    add_method(&mut functions, "read", Builtin::FileRead, p1(TYPEID_STRING), false);
    add_method(
        &mut functions,
        "write",
        Builtin::FileWrite,
        p2(TYPEID_STRING, TYPEID_STRING),
        false,
    );
    add_method(
        &mut functions,
        "append",
        Builtin::FileAppend,
        p2(TYPEID_STRING, TYPEID_STRING),
        false,
    );
    ClassDefinition::new_without_constructor(functions, TYPEID_FILE)
}

#[inline]
fn make_filesystem_class() -> (c: ClassDefinition)
    ensures
        spec_is_builtin_class(c, TYPEID_FILESYSTEM),
{
    let mut functions = new_table();
    add_method(&mut functions, "current_directory", Builtin::FsCurrentDirectory, p0(), false);
    add_method(
        &mut functions,
        "change_directory",
        Builtin::FsChangeDirectory,
        p1(TYPEID_STRING),
        false,
    );
    add_method(&mut functions, "exists", Builtin::FsExists, p1(TYPEID_STRING), false);
    add_method(&mut functions, "list", Builtin::FsList, p1(TYPEID_STRING), false);
    add_method(&mut functions, "remove_file", Builtin::FsRemoveFile, p1(TYPEID_STRING), false);
    add_method(
        &mut functions,
        "remove_directory",
        Builtin::FsRemoveDirectory,
        p1(TYPEID_STRING),
        false,
    );
    add_method(
        &mut functions,
        "create_directory",
        Builtin::FsCreateDirectory,
        p1(TYPEID_STRING),
        false,
    );
    add_method(&mut functions, "copy", Builtin::FsCopy, p2(TYPEID_STRING, TYPEID_STRING), false);
    add_method(&mut functions, "move", Builtin::FsMove, p2(TYPEID_STRING, TYPEID_STRING), false);
    ClassDefinition::new_without_constructor(functions, TYPEID_FILESYSTEM)
}

#[inline]
fn make_math_class() -> (c: ClassDefinition)
    ensures
        spec_is_builtin_class(c, TYPEID_MATH),
{
    let mut functions = new_table();
    add_method(&mut functions, "sin", Builtin::Sin, p1(TYPEID_FLOAT), false);
    add_method(&mut functions, "sind", Builtin::Sind, p1(TYPEID_FLOAT), false);
    add_method(&mut functions, "asin", Builtin::Asin, p1(TYPEID_FLOAT), false);
    add_method(&mut functions, "asind", Builtin::Asind, p1(TYPEID_FLOAT), false);
    add_method(&mut functions, "cos", Builtin::Cos, p1(TYPEID_FLOAT), false);
    add_method(&mut functions, "cosd", Builtin::Cosd, p1(TYPEID_FLOAT), false);
    add_method(&mut functions, "acos", Builtin::Acos, p1(TYPEID_FLOAT), false);
    add_method(&mut functions, "acosd", Builtin::Acosd, p1(TYPEID_FLOAT), false);
    add_method(&mut functions, "tan", Builtin::Tan, p1(TYPEID_FLOAT), false);
    add_method(&mut functions, "tand", Builtin::Tand, p1(TYPEID_FLOAT), false);
    add_method(&mut functions, "atan", Builtin::Atan, p1(TYPEID_FLOAT), false);
    add_method(&mut functions, "atand", Builtin::Atand, p1(TYPEID_FLOAT), false);
    add_method(&mut functions, "ln", Builtin::Ln, p1(TYPEID_FLOAT), false);
    add_method(&mut functions, "log", Builtin::Log, p1(TYPEID_FLOAT), false);
    ClassDefinition::new_without_constructor(functions, TYPEID_MATH)
}

} // verus!

verus! {

/// Whether a character is white space, as Unicode has it: the characters
/// with the property `White_Space`.
pub open spec fn spec_is_whitespace(c: char) -> bool {
    let u = c as u32;
    ||| 0x09 <= u <= 0x0D
    ||| u == 0x20
    ||| u == 0x85
    ||| u == 0xA0
    ||| u == 0x1680
    ||| 0x2000 <= u <= 0x200A
    ||| u == 0x2028
    ||| u == 0x2029
    ||| u == 0x202F
    ||| u == 0x205F
    ||| u == 0x3000
}

/// The name of the lower-case form of a text: what `str::to_lowercase`
/// gives.
pub uninterp spec fn spec_lowercase(text: Seq<char>) -> Seq<char>;

/// The name of the upper-case form of a text: what `str::to_uppercase`
/// gives.
pub uninterp spec fn spec_uppercase(text: Seq<char>) -> Seq<char>;

/// Whether a character is white space.
pub fn is_whitespace(c: char) -> (b: bool)
    ensures
        b == spec_is_whitespace(c),
{
    let u: u32 = c as u32;
    (0x09 <= u && u <= 0x0D) || u == 0x20 || u == 0x85 || u == 0xA0 || u == 0x1680 || (0x2000 <= u
        && u <= 0x200A) || u == 0x2028 || u == 0x2029 || u == 0x202F || u == 0x205F || u == 0x3000
}

/// The lower-case form of a text, by `str::to_lowercase`.
#[verifier::external_body]
fn lowercase(text: &str) -> (r: String)
    ensures
        r@ == spec_lowercase(text@),
{
    text.to_lowercase()
}

/// The upper-case form of a text, by `str::to_uppercase`.
#[verifier::external_body]
fn uppercase(text: &str) -> (r: String)
    ensures
        r@ == spec_uppercase(text@),
{
    text.to_uppercase()
}

/// A random integer between `min` and `max`, both included, drawn by
/// `Rng::gen_range` from the generator of the thread.
#[verifier::external_body]
fn random_between(min: i64, max: i64) -> (r: i64)
    requires
        min <= max,
    ensures
        min <= r <= max,
{
    rand::Rng::gen_range(&mut rand::thread_rng(), min..=max)
}

/// What starting a built-in function gives: its value, a request to the
/// host whose reply finishes it, or the task of constructing an instance of
/// a class of the program.
#[derive(Debug)]
pub enum Outcome {
    Done(Value),
    Ask(Request),
    Construct,
}

/// Number of bytes that a character takes in UTF-8.
pub open spec fn spec_char_bytes(c: char) -> int {
    if (c as u32) < 0x80 {
        1
    } else if (c as u32) < 0x800 {
        2
    } else if (c as u32) < 0x10000 {
        3
    } else {
        4
    }
}

/// Number of bytes that the first `n` characters of a text take in UTF-8.
pub open spec fn spec_bytes_before(text: Seq<char>, n: int) -> int
    decreases n,
{
    if n <= 0 || n > text.len() {
        0
    } else {
        spec_bytes_before(text, n - 1) + spec_char_bytes(text[n - 1])
    }
}

pub fn char_bytes(c: char) -> (n: usize)
    ensures
        n == spec_char_bytes(c),
{
    let u = c as u32;
    if u < 0x80 {
        1
    } else if u < 0x800 {
        2
    } else if u < 0x10000 {
        3
    } else {
        4
    }
}

/// The properties of a `Result`: whether it holds a value or an error,
/// what it holds, and whether it was asked which of the two.
pub open spec fn spec_result_properties(is_ok: bool, value: Value, is_checked: bool) -> Map<
    Seq<char>,
    Property,
> {
    Map::empty().insert(
        "is_ok"@,
        Property { var: Variable { value: Value::Bool(is_ok), is_dynamic: false }, is_public: false },
    ).insert(
        "value"@,
        Property { var: Variable { value, is_dynamic: true }, is_public: false },
    ).insert(
        "is_checked"@,
        Property {
            var: Variable { value: Value::Bool(is_checked), is_dynamic: false },
            is_public: false,
        },
    )
}

/// A new `Result` that was not yet asked whether it holds a value.
pub fn make_result(is_ok: bool, value: Value, heap: &mut Heap) -> (r: Value)
    ensures
        r == (Value::Class { object: old(heap).instances@.len() as usize, typeid: TYPEID_RESULT }),
        final(heap).instances@.len() == old(heap).instances@.len() + 1,
        final(heap).instances@.drop_last() == old(heap).instances@,
        final(heap).instances@.last().typeid == TYPEID_RESULT,
        final(heap).instances@.last().properties@ == spec_result_properties(is_ok, value, false),
        final(heap).strings == old(heap).strings,
        final(heap).vectors == old(heap).vectors,
        spec_heap_effect(old(heap), Effect::NewResult(is_ok, value), final(heap), r),
{
    let mut result = ClassInstance::new(TYPEID_RESULT);
    result.add_property("is_ok", Variable::new(Value::Bool(is_ok), false), false);
    result.add_property("value", Variable::new(value, true), false);
    result.add_property("is_checked", Variable::new(Value::Bool(false), false), false);
    let r = heap.new_instance(result);
    assert(heap.instances@.drop_last() =~= old(heap).instances@);
    r
}

/// What a `Result` answers when asked for its value: the value it holds
/// where it was asked before whether it holds one, `None` otherwise.
pub open spec fn spec_result_value(properties: Map<Seq<char>, Property>) -> Option<Value> {
    if properties.contains_key("is_checked"@) && properties.contains_key("value"@)
        && properties["is_checked"@].var.value == Value::Bool(true) {
        Some(properties["value"@].var.value)
    } else {
        None
    }
}

/// What a `Result` gives when unwrapped: the value it holds where it holds
/// one, `None` where it holds an error.
pub open spec fn spec_result_unwrap(properties: Map<Seq<char>, Property>) -> Option<Value> {
    if properties.contains_key("is_ok"@) && properties.contains_key("value"@)
        && properties["is_ok"@].var.value == Value::Bool(true) {
        Some(properties["value"@].var.value)
    } else {
        None
    }
}

/// The message for a `Result` whose value is asked for too early.
pub open spec fn spec_unchecked_message() -> Seq<char> {
    "A 'Result' must be checked with 'is_ok()' before accessing its value"@
}

/// The instance that `value` names, if it is one of the class `Result`.
fn result_instance(heap: &Heap, value: Value) -> (r: Option<&ClassInstance>)
    ensures
        match r {
            Some(instance) => value matches Value::Class { object, typeid } && typeid
                == TYPEID_RESULT && heap.spec_instance(object) == Some(*instance),
            None => result_owner(heap, value) is None,
        },
{
    match value {
        Value::Class { object, typeid } => {
            if typeid == TYPEID_RESULT {
                heap.instance(object)
            } else {
                None
            }
        },
        _ => None,
    }
}

/// `Result::new`.
pub fn result_new(heap: &mut Heap, a: Value, b: Value) -> (r: Result<Value, ErrorKind>)
    ensures
        a is Bool ==> r == Ok::<Value, ErrorKind>(spec_new_result(old(heap))) && spec_heap_effect(
            old(heap),
            Effect::NewResult(a->Bool_0, b),
            final(heap),
            spec_new_result(old(heap)),
        ),
        !(a is Bool) ==> (r matches Err(kind) && spec_invalid(kind)) && *final(heap) == *old(heap),
{
    match a {
        Value::Bool(is_ok) => Ok(make_result(is_ok, b, heap)),
        _ => Err(invalid_value()),
    }
}

/// The instance that can answer `is_ok()`, with its answer: the object
/// that `this` names holds the answer, and a note of its own, that is no
/// dynamic variable and holds a `bool`, of whether it was asked.
pub open spec fn spec_checkable(heap: &Heap, this: Value) -> Option<(usize, Value)> {
    match this {
        Value::Class { object, typeid } => match heap.spec_instance(object) {
            Some(instance) => {
                let properties = instance.properties@;
                if properties.contains_key("is_ok"@) && properties.contains_key("is_checked"@)
                    && !properties["is_checked"@].is_public
                    && !properties["is_checked"@].var.is_dynamic
                    && properties["is_checked"@].var.spec_accepts(Value::Bool(true)) {
                    Some((object, properties["is_ok"@].var.value))
                } else {
                    None
                }
            },
            None => None,
        },
        _ => None,
    }
}

/// `is_ok()`: says whether the `Result` holds a value, and notes that it
/// was asked.
pub fn result_is_ok(heap: &mut Heap, this: Value, session: &ParseSession) -> (r: Result<
    Value,
    ErrorKind,
>)
    ensures
        match spec_checkable(old(heap), this) {
            Some((object, answer)) => r == Ok::<Value, ErrorKind>(answer) && spec_heap_effect(
                old(heap),
                Effect::Checked(object),
                final(heap),
                answer,
            ),
            None => (r matches Err(kind) && spec_invalid(kind)) && *final(heap) == *old(heap),
        },
{
    let (object, is_ok) = match this {
        Value::Class { object, typeid } => {
            match heap.instance(object) {
                Some(instance) => {
                    match (instance.properties.get("is_ok"), instance.properties.get("is_checked")) {
                        (Some(p), Some(c)) => {
                            if c.is_public || c.var.is_dynamic || !c.var.accepts(&Value::Bool(true)) {
                                return Err(invalid_value());
                            }
                            (object, p.var.value)
                        },
                        _ => {
                            return Err(invalid_value());
                        },
                    }
                },
                None => {
                    return Err(invalid_value());
                },
            }
        },
        _ => {
            return Err(invalid_value());
        },
    };
    match heap.set_property(object, "is_checked", true, Value::Bool(true), session) {
        Ok(()) => Ok(is_ok),
        Err(e) => Err(e),
    }
}

/// `value()`: the value that the `Result` holds, given only after the
/// `Result` was asked whether it holds one.
pub fn result_value(heap: &Heap, this: Value) -> (r: Result<Value, ErrorKind>)
    ensures
        match result_owner(heap, this) {
            Some(properties) => match spec_result_value(properties) {
                Some(v) => r == Ok::<Value, ErrorKind>(v),
                None => r matches Err(ErrorKind::CustomError(m)) && m@ == spec_unchecked_message(),
            },
            None => r matches Err(kind) && spec_invalid(kind),
        },
{
    match result_instance(heap, this) {
        None => Err(invalid_value()),
        Some(instance) => {
            match (instance.properties.get("is_checked"), instance.properties.get("value")) {
                (Some(checked), Some(value)) => {
                    match checked.var.value {
                        Value::Bool(true) => Ok(value.var.value),
                        _ => Err(
                            ErrorKind::CustomError(
                                String::from_str(
                                    "A 'Result' must be checked with 'is_ok()' before accessing its value",
                                ),
                            ),
                        ),
                    }
                },
                _ => Err(
                    ErrorKind::CustomError(
                        String::from_str(
                            "A 'Result' must be checked with 'is_ok()' before accessing its value",
                        ),
                    ),
                ),
            }
        },
    }
}

/// The properties of the `Result` that a value names, if it names one.
pub open spec fn result_owner(heap: &Heap, this: Value) -> Option<Map<Seq<char>, Property>> {
    match this {
        Value::Class { object, typeid } => if typeid == TYPEID_RESULT && heap.spec_instance(object)
            is Some {
            Some(heap.spec_instance(object)->0.properties@)
        } else {
            None
        },
        _ => None,
    }
}

/// `unwrap()`: the value that the `Result` holds; fails on a `Result` that
/// holds an error.
pub fn result_unwrap(heap: &Heap, this: Value) -> (r: Result<Value, ErrorKind>)
    ensures
        match result_owner(heap, this) {
            Some(properties) => match spec_result_unwrap(properties) {
                Some(v) => r == Ok::<Value, ErrorKind>(v),
                None => r matches Err(ErrorKind::CustomError(m)) && m@
                    == "Unwrap called on a 'Result' containing an error"@,
            },
            None => r matches Err(kind) && spec_invalid(kind),
        },
{
    match result_instance(heap, this) {
        None => Err(invalid_value()),
        Some(instance) => {
            match (instance.properties.get("is_ok"), instance.properties.get("value")) {
                (Some(is_ok), Some(value)) => {
                    match is_ok.var.value {
                        Value::Bool(true) => Ok(value.var.value),
                        _ => Err(
                            ErrorKind::CustomError(
                                String::from_str("Unwrap called on a 'Result' containing an error"),
                            ),
                        ),
                    }
                },
                _ => Err(
                    ErrorKind::CustomError(
                        String::from_str("Unwrap called on a 'Result' containing an error"),
                    ),
                ),
            }
        },
    }
}

/// A `Result` that was not asked whether it holds a value does not give
/// it: asking a new `Result` for its value fails, whatever it holds.
pub proof fn lemma_unchecked_result_gives_no_value(is_ok: bool, value: Value)
    ensures
        spec_result_value(spec_result_properties(is_ok, value, false)) is None,
        spec_result_value(spec_result_properties(is_ok, value, true)) == Some(value),
{
    reveal_strlit("is_ok");
    reveal_strlit("value");
    reveal_strlit("is_checked");
    assert("value"@.len() != "is_checked"@.len());
}

/// Whether an error reports a value that a built-in function cannot take.
pub open spec fn spec_invalid(kind: ErrorKind) -> bool {
    kind matches ErrorKind::CustomError(m) && m@ == "Invalid value in built-in function"@
}

/// What a value that a built-in function cannot take is reported as.
pub fn invalid_value() -> (k: ErrorKind)
    ensures
        spec_invalid(k),
{
    ErrorKind::CustomError(String::from_str("Invalid value in built-in function"))
}

/// Stores each text as a new string, and the strings as a new vector.
pub fn new_string_vector(heap: &mut Heap, texts: &Vec<Vec<char>>) -> (v: Value)
    ensures
        v == Value::Vector(old(heap).vectors@.len() as usize),
        final(heap).vectors@.len() == old(heap).vectors@.len() + 1,
        final(heap).vectors@.drop_last() == old(heap).vectors@,
        final(heap).instances == old(heap).instances,
        final(heap).strings@.len() == old(heap).strings@.len() + texts@.len(),
        final(heap).strings@.subrange(0, old(heap).strings@.len() as int) == old(heap).strings@,
        final(heap).vectors@.last()@.len() == texts@.len(),
        forall|k: int|
            0 <= k < texts@.len() ==> final(heap).vectors@.last()@[k] == Value::Str(
                (old(heap).strings@.len() + k) as usize,
            ) && final(heap).strings@[old(heap).strings@.len() + k]@ == texts@[k]@,
        spec_heap_effect(old(heap), Effect::NewStrings(spec_texts(texts@)), final(heap), v),
{
    let mut items: Vec<Value> = Vec::new();
    let base = heap.strings.len();
    let mut i: usize = 0;
    while i < texts.len()
        invariant
            i <= texts@.len(),
            items@.len() == i,
            heap.strings@.len() == base + i,
            heap.strings@.subrange(0, base as int) == old(heap).strings@,
            heap.vectors == old(heap).vectors,
            heap.instances == old(heap).instances,
            base == old(heap).strings@.len(),
            forall|k: int| 0 <= k < i ==> items@[k] == Value::Str((base + k) as usize),
            forall|k: int| 0 <= k < i ==> (#[trigger] heap.strings@[base + k])@ == texts@[k]@,
        decreases texts@.len() - i,
    {
        let mut text: Vec<char> = Vec::new();
        crate::text::push_range(&mut text, &texts[i], 0, texts[i].len());
        assert(text@ =~= texts@[i as int]@);
        let ghost before = heap.strings@;
        let value = heap.new_string(text);
        items.push(value);
        assert(heap.strings@.subrange(0, base as int) =~= before.subrange(0, base as int));
        i = i + 1;
    }
    let v = heap.new_vector(items);
    assert(heap.vectors@.drop_last() =~= old(heap).vectors@);
    assert(heap.vectors@.last()@ =~= spec_string_values(
        old(heap).strings@.len() as int,
        texts@.len(),
    ));
    assert(spec_texts(texts@).len() == texts@.len());
    assert forall|k: int| 0 <= k < spec_texts(texts@).len() implies (
    #[trigger] heap.strings@[old(heap).strings@.len() + k])@ == spec_texts(texts@)[k] by {
        assert(spec_texts(texts@)[k] == texts@[k]@);
    }
    v
}

} // verus!

verus! {

/// Whether `pattern` stands in `text` at character `at`.
pub open spec fn spec_found_at(text: Seq<char>, pattern: Seq<char>, at: int) -> bool {
    0 <= at && at + pattern.len() <= text.len() && text.subrange(at, at + pattern.len()) == pattern
}

pub fn found_at(text: &Vec<char>, pattern: &Vec<char>, at: usize) -> (b: bool)
    ensures
        b == spec_found_at(text@, pattern@, at as int),
{
    if at > text.len() || pattern.len() > text.len() - at {
        return false;
    }
    let mut i: usize = 0;
    while i < pattern.len()
        invariant
            i <= pattern.len(),
            at + pattern.len() <= text.len(),
            text@.subrange(at as int, at + i) == pattern@.subrange(0, i as int),
        decreases pattern.len() - i,
    {
        if text[at + i] != pattern[i] {
            assert(text@.subrange(at as int, at + pattern.len())[i as int] != pattern@[i as int]);
            return false;
        }
        i = i + 1;
        assert(text@.subrange(at as int, at + i) =~= text@.subrange(at as int, at + i - 1).push(
            text@[at + i - 1],
        ));
        assert(pattern@.subrange(0, i as int) =~= pattern@.subrange(0, i - 1).push(pattern@[i - 1]));
    }
    assert(pattern@.subrange(0, pattern.len() as int) =~= pattern@);
    true
}

/// `starts_with`: whether the text begins with the pattern.
pub fn string_starts_with(text: &Vec<char>, pattern: &Vec<char>) -> (b: bool)
    ensures
        b == spec_found_at(text@, pattern@, 0),
{
    found_at(text, pattern, 0)
}

/// `ends_with`: whether the text ends with the pattern.
pub fn string_ends_with(text: &Vec<char>, pattern: &Vec<char>) -> (b: bool)
    ensures
        b == (pattern@.len() <= text@.len() && spec_found_at(
            text@,
            pattern@,
            text@.len() - pattern@.len(),
        )),
{
    if pattern.len() > text.len() {
        false
    } else {
        found_at(text, pattern, text.len() - pattern.len())
    }
}

/// `contains`: whether the pattern stands somewhere in the text.
pub fn string_contains(text: &Vec<char>, pattern: &Vec<char>) -> (b: bool)
    ensures
        b == exists|at: int| spec_found_at(text@, pattern@, at),
{
    let mut i: usize = 0;
    while i < text.len()
        invariant
            i <= text.len(),
            forall|at: int| 0 <= at < i ==> !spec_found_at(text@, pattern@, at),
        decreases text.len() - i,
    {
        if found_at(text, pattern, i) {
            return true;
        }
        i = i + 1;
    }
    found_at(text, pattern, i)
}

/// Number of bytes that a text takes in UTF-8.
pub fn string_len(text: &Vec<char>) -> (n: i64)
    ensures
        n == if spec_bytes_before(text@, text@.len() as int) <= i64::MAX {
            spec_bytes_before(text@, text@.len() as int)
        } else {
            i64::MAX as int
        },
{
    let mut n: i64 = 0;
    let mut i: usize = 0;
    while i < text.len()
        invariant
            i <= text.len(),
            0 <= n,
            spec_bytes_before(text@, i as int) >= 0,
            spec_bytes_before(text@, i as int) <= i64::MAX ==> n == spec_bytes_before(
                text@,
                i as int,
            ),
            spec_bytes_before(text@, i as int) > i64::MAX ==> n == i64::MAX,
        decreases text.len() - i,
    {
        let width = char_bytes(text[i]) as i64;
        if n > i64::MAX - width {
            n = i64::MAX;
        } else {
            n = n + width;
        }
        i = i + 1;
    }
    n
}

/// Where the white space at the start of a text ends.
pub open spec fn spec_trim_start(text: Seq<char>, i: int) -> int
    decreases text.len() - i,
{
    if 0 <= i < text.len() && spec_is_whitespace(text[i]) {
        spec_trim_start(text, i + 1)
    } else {
        i
    }
}

/// Where the white space at the end of a text starts, not before `from`.
pub open spec fn spec_trim_end(text: Seq<char>, from: int, i: int) -> int
    decreases i,
{
    if 0 < i && from < i <= text.len() && spec_is_whitespace(text[i - 1]) {
        spec_trim_end(text, from, i - 1)
    } else {
        i
    }
}

/// A text without the white space at its start and at its end.
pub open spec fn spec_trim(text: Seq<char>) -> Seq<char> {
    let start = spec_trim_start(text, 0);
    text.subrange(start, spec_trim_end(text, start, text.len() as int))
}

/// `trim`.
pub fn string_trim(text: &Vec<char>) -> (out: Vec<char>)
    ensures
        out@ == spec_trim(text@),
{
    let mut start: usize = 0;
    while start < text.len() && is_whitespace(text[start])
        invariant
            start <= text.len(),
            spec_trim_start(text@, start as int) == spec_trim_start(text@, 0),
        decreases text.len() - start,
    {
        start = start + 1;
    }
    let mut end: usize = text.len();
    while end > start && is_whitespace(text[end - 1])
        invariant
            start <= end <= text.len(),
            spec_trim_end(text@, start as int, end as int) == spec_trim_end(
                text@,
                start as int,
                text@.len() as int,
            ),
        decreases end,
    {
        end = end - 1;
    }
    let mut out: Vec<char> = Vec::new();
    crate::text::push_range(&mut out, text, start, end);
    assert(out@ =~= text@.subrange(start as int, end as int));
    out
}

/// Where the piece of a text that starts at `i` ends: at the next
/// delimiter, or at the end of the text.
pub open spec fn spec_piece_end(text: Seq<char>, delimiter: char, i: int) -> int
    decreases text.len() - i,
{
    if 0 <= i < text.len() && text[i] != delimiter {
        spec_piece_end(text, delimiter, i + 1)
    } else {
        i
    }
}

/// The pieces of a text between delimiters, from character `i` on. A text
/// that ends with a delimiter has an empty last piece.
pub open spec fn spec_split_from(text: Seq<char>, delimiter: char, i: int) -> Seq<Seq<char>>
    decreases text.len() - i,
{
    if i < 0 || i > text.len() {
        Seq::empty()
    } else {
        let e = spec_piece_end(text, delimiter, i);
        if i <= e < text.len() {
            seq![text.subrange(i, e)] + spec_split_from(text, delimiter, e + 1)
        } else {
            seq![text.subrange(i, e)]
        }
    }
}

/// The texts of a list of character vectors.
pub open spec fn spec_texts(pieces: Seq<Vec<char>>) -> Seq<Seq<char>> {
    Seq::new(pieces.len(), |k: int| pieces[k]@)
}

/// The pieces of a text between delimiters.
pub fn split(text: &Vec<char>, delimiter: char) -> (pieces: Vec<Vec<char>>)
    ensures
        spec_texts(pieces@) == spec_split_from(text@, delimiter, 0),
{
    let mut pieces: Vec<Vec<char>> = Vec::new();
    let mut at: usize = 0;
    loop
        invariant_except_break
            at <= text.len(),
            spec_texts(pieces@) + spec_split_from(text@, delimiter, at as int) == spec_split_from(
                text@,
                delimiter,
                0,
            ),
        ensures
            spec_texts(pieces@) == spec_split_from(text@, delimiter, 0),
        decreases text.len() - at,
    {
        let mut e: usize = at;
        while e < text.len() && text[e] != delimiter
            invariant
                at <= e <= text.len(),
                spec_piece_end(text@, delimiter, e as int) == spec_piece_end(
                    text@,
                    delimiter,
                    at as int,
                ),
            decreases text.len() - e,
        {
            e = e + 1;
        }
        let mut piece: Vec<char> = Vec::new();
        crate::text::push_range(&mut piece, text, at, e);
        assert(piece@ =~= text@.subrange(at as int, e as int));
        let ghost before = pieces@;
        pieces.push(piece);
        assert(spec_texts(pieces@) =~= spec_texts(before) + seq![text@.subrange(
            at as int,
            e as int,
        )]);
        if e < text.len() {
            assert(spec_texts(pieces@) + spec_split_from(text@, delimiter, e + 1) =~= spec_texts(
                before,
            ) + spec_split_from(text@, delimiter, at as int));
            at = e + 1;
        } else {
            assert(spec_texts(pieces@) =~= spec_texts(before) + spec_split_from(
                text@,
                delimiter,
                at as int,
            ));
            break ;
        }
    }
    pieces
}

/// The index of the character that starts at byte `byte` of a text, for a
/// byte position at which a character starts or the text ends.
pub open spec fn spec_char_index(text: Seq<char>, byte: int) -> Option<int> {
    if exists|n: int| 0 <= n <= text.len() && spec_bytes_before(text, n) == byte {
        Some(choose|n: int| 0 <= n <= text.len() && spec_bytes_before(text, n) == byte)
    } else {
        None
    }
}

proof fn lemma_bytes_before_grows(text: Seq<char>, a: int, b: int)
    requires
        0 <= a <= b <= text.len(),
    ensures
        spec_bytes_before(text, a) + (b - a) <= spec_bytes_before(text, b),
        0 <= spec_bytes_before(text, a),
    decreases b,
{
    if a < b {
        lemma_bytes_before_grows(text, a, b - 1);
    } else if a > 0 {
        lemma_bytes_before_grows(text, a - 1, a - 1);
    }
}

/// The index of the character that starts at byte `byte`.
pub fn char_index(text: &Vec<char>, byte: i64) -> (r: Option<usize>)
    ensures
        match r {
            Some(n) => spec_char_index(text@, byte as int) == Some(n as int) && n <= text@.len(),
            None => spec_char_index(text@, byte as int) is None,
        },
{
    let mut n: usize = 0;
    let mut bytes: i64 = 0;
    loop
        invariant
            n <= text.len(),
            bytes == spec_bytes_before(text@, n as int),
            0 <= bytes,
            forall|k: int| 0 <= k < n ==> spec_bytes_before(text@, k) != byte,
        decreases text.len() - n,
    {
        if bytes == byte {
            proof {
                let chosen = choose|k: int|
                    0 <= k <= text@.len() && spec_bytes_before(text@, k) == byte;
                if chosen > n {
                    lemma_bytes_before_grows(text@, n as int, chosen);
                }
            }
            return Some(n);
        }
        if bytes > byte || n == text.len() {
            proof {
                assert forall|k: int| 0 <= k <= text@.len() implies spec_bytes_before(text@, k)
                    != byte by {
                    if k > n {
                        lemma_bytes_before_grows(text@, n as int, k);
                    }
                }
            }
            return None;
        }
        let width = char_bytes(text[n]) as i64;
        if bytes > i64::MAX - width {
            proof {
                assert forall|k: int| 0 <= k <= text@.len() implies spec_bytes_before(text@, k)
                    != byte by {
                    if k > n {
                        lemma_bytes_before_grows(text@, n + 1, k);
                    }
                }
            }
            return None;
        }
        bytes = bytes + width;
        n = n + 1;
    }
}

/// The part of a text between two byte positions, where a character starts
/// or the text ends at each of them and the first is not behind the second.
pub open spec fn spec_substring(text: Seq<char>, from: int, to: int) -> Option<Seq<char>> {
    match (spec_char_index(text, from), spec_char_index(text, to)) {
        (Some(a), Some(b)) => if a <= b {
            Some(text.subrange(a, b))
        } else {
            None
        },
        _ => None,
    }
}

/// `substring`.
pub fn string_substring(text: &Vec<char>, from: i64, to: i64) -> (r: Option<Vec<char>>)
    ensures
        match r {
            Some(part) => spec_substring(text@, from as int, to as int) == Some(part@),
            None => spec_substring(text@, from as int, to as int) is None,
        },
{
    match (char_index(text, from), char_index(text, to)) {
        (Some(a), Some(b)) => {
            if a <= b {
                let mut part: Vec<char> = Vec::new();
                crate::text::push_range(&mut part, text, a, b);
                assert(part@ =~= text@.subrange(a as int, b as int));
                Some(part)
            } else {
                None
            }
        },
        _ => None,
    }
}

/// The magnitude of an integer, wrapping around at the smallest one.
pub fn int_abs(n: i64) -> (r: i64)
    ensures
        r == crate::operation::spec_int_abs(n),
{
    if n < 0 {
        n.wrapping_mul(-1i64)
    } else {
        n
    }
}

/// The magnitude of a float.
pub fn float_abs(f: u64) -> (r: u64)
    ensures
        r == crate::operation::spec_float_abs(f),
{
    f & !crate::operation::FLOAT_SIGN
}

/// Whether the bits are those of a float that is not a number: all bits of
/// the exponent are set, and some bit of the fraction.
pub open spec fn spec_is_nan(f: u64) -> bool {
    f & 0x7ff0_0000_0000_0000u64 == 0x7ff0_0000_0000_0000u64 && f & 0x000f_ffff_ffff_ffffu64 != 0
}

pub fn float_is_nan(f: u64) -> (b: bool)
    ensures
        b == spec_is_nan(f),
{
    f & 0x7ff0_0000_0000_0000u64 == 0x7ff0_0000_0000_0000u64 && f & 0x000f_ffff_ffff_ffffu64 != 0
}

/// The bits of the float nearest to π.
pub const FLOAT_PI: u64 = 0x4009_21fb_5444_2d18;

pub fn float_pi() -> (f: u64)
    ensures
        f == FLOAT_PI,
{
    FLOAT_PI
}

/// What reading a boolean from a text gives.
pub open spec fn spec_parse_bool(text: Seq<char>) -> Option<bool> {
    if text == "true"@ {
        Some(true)
    } else if text == "false"@ {
        Some(false)
    } else {
        None
    }
}

pub fn parse_bool(text: &Vec<char>) -> (r: Option<bool>)
    ensures
        r == spec_parse_bool(text@),
{
    if crate::text::is_text(text, "true") {
        Some(true)
    } else if crate::text::is_text(text, "false") {
        Some(false)
    } else {
        None
    }
}

/// The integers from `min` up to, but without, `max`.
pub fn range_items(min: i64, max: i64) -> (items: Vec<Value>)
    ensures
        items@.len() == if min < max {
            max - min
        } else {
            0
        },
        forall|k: int| 0 <= k < items@.len() ==> items@[k] == Value::Int((min + k) as i64),
{
    let mut items: Vec<Value> = Vec::new();
    let mut i: i64 = min;
    while i < max
        invariant
            min <= i || min >= max,
            i <= max || min >= max,
            min < max ==> items@.len() == i - min,
            min >= max ==> items@.len() == 0 && i == min,
            forall|k: int| 0 <= k < items@.len() ==> items@[k] == Value::Int((min + k) as i64),
        decreases max - i,
    {
        items.push(Value::Int(i));
        i = i + 1;
    }
    items
}

/// `push`.
pub fn vec_push(heap: &mut Heap, this: usize, a: Value) -> (r: Result<Value, ErrorKind>)
    ensures
        final(heap).strings == old(heap).strings,
        final(heap).instances == old(heap).instances,
        final(heap).vectors@.len() == old(heap).vectors@.len(),
        forall|i: int|
            0 <= i < old(heap).vectors@.len() && i != this ==> final(heap).vectors@[i] == old(heap).vectors@[i],
        match old(heap).spec_vector(this) {
            Some(items) => r == Ok::<Value, ErrorKind>(Value::Nil) && final(heap).spec_vector(this)
                == Some(items.push(a)),
            None => (r matches Err(kind) && spec_invalid(kind)) && *final(heap) == *old(heap),
        },
{
    if this >= heap.vectors.len() {
        return Err(invalid_value());
    }
    let mut items = heap.take_vector(this);
    items.push(a);
    heap.set_vector(this, items);
    Ok(Value::Nil)
}

/// Whether `r` reports that `index` is not a place of a vector of `len`
/// items.
pub open spec fn spec_is_out_of_range(r: Result<Value, ErrorKind>, index: i64, len: nat) -> bool {
    r matches Err(ErrorKind::IndexOutOfRange(i, n)) && i == index && n == len
}

/// `get`.
pub fn vec_get(heap: &Heap, this: usize, index: i64) -> (r: Result<Value, ErrorKind>)
    ensures
        match heap.spec_vector(this) {
            Some(items) => if 0 <= index < items.len() {
                r == Ok::<Value, ErrorKind>(items[index as int])
            } else {
                spec_is_out_of_range(r, index, items.len())
            },
            None => r matches Err(kind) && spec_invalid(kind),
        },
{
    match heap.vector(this) {
        None => Err(invalid_value()),
        Some(items) => {
            if index < 0 || index as u64 >= items.len() as u64 {
                Err(ErrorKind::IndexOutOfRange(index, items.len()))
            } else {
                Ok(items[index as usize])
            }
        },
    }
}

/// `set`.
pub fn vec_set(heap: &mut Heap, this: usize, index: i64, value: Value) -> (r: Result<
    Value,
    ErrorKind,
>)
    ensures
        final(heap).strings == old(heap).strings,
        final(heap).instances == old(heap).instances,
        final(heap).vectors@.len() == old(heap).vectors@.len(),
        forall|i: int|
            0 <= i < old(heap).vectors@.len() && i != this ==> final(heap).vectors@[i] == old(heap).vectors@[i],
        match old(heap).spec_vector(this) {
            Some(items) => if 0 <= index < items.len() {
                r == Ok::<Value, ErrorKind>(Value::Nil) && final(heap).spec_vector(this) == Some(
                    items.update(index as int, value),
                )
            } else {
                spec_is_out_of_range(r, index, items.len()) && *final(heap) == *old(heap)
            },
            None => (r matches Err(kind) && spec_invalid(kind)) && *final(heap) == *old(heap),
        },
{
    let len = match heap.vector(this) {
        None => {
            return Err(invalid_value());
        },
        Some(items) => items.len(),
    };
    if index < 0 || index as u64 >= len as u64 {
        return Err(ErrorKind::IndexOutOfRange(index, len));
    }
    let mut items = heap.take_vector(this);
    items.set(index as usize, value);
    heap.set_vector(this, items);
    Ok(Value::Nil)
}

/// `remove`.
pub fn vec_remove(heap: &mut Heap, this: usize, index: i64) -> (r: Result<Value, ErrorKind>)
    ensures
        final(heap).strings == old(heap).strings,
        final(heap).instances == old(heap).instances,
        final(heap).vectors@.len() == old(heap).vectors@.len(),
        forall|i: int|
            0 <= i < old(heap).vectors@.len() && i != this ==> final(heap).vectors@[i] == old(heap).vectors@[i],
        match old(heap).spec_vector(this) {
            Some(items) => if 0 <= index < items.len() {
                r == Ok::<Value, ErrorKind>(items[index as int]) && final(heap).spec_vector(this)
                    == Some(items.remove(index as int))
            } else {
                spec_is_out_of_range(r, index, items.len()) && *final(heap) == *old(heap)
            },
            None => (r matches Err(kind) && spec_invalid(kind)) && *final(heap) == *old(heap),
        },
{
    let len = match heap.vector(this) {
        None => {
            return Err(invalid_value());
        },
        Some(items) => items.len(),
    };
    if index < 0 || index as u64 >= len as u64 {
        return Err(ErrorKind::IndexOutOfRange(index, len));
    }
    let mut items = heap.take_vector(this);
    let removed = items.remove(index as usize);
    heap.set_vector(this, items);
    Ok(removed)
}

/// `pop`: takes the last item off, `none` where the vector is empty.
pub fn vec_pop(heap: &mut Heap, this: usize) -> (r: Result<Value, ErrorKind>)
    ensures
        final(heap).strings == old(heap).strings,
        final(heap).instances == old(heap).instances,
        final(heap).vectors@.len() == old(heap).vectors@.len(),
        forall|i: int|
            0 <= i < old(heap).vectors@.len() && i != this ==> final(heap).vectors@[i] == old(heap).vectors@[i],
        match old(heap).spec_vector(this) {
            Some(items) => if items.len() > 0 {
                r == Ok::<Value, ErrorKind>(items.last()) && final(heap).spec_vector(this) == Some(
                    items.drop_last(),
                )
            } else {
                r == Ok::<Value, ErrorKind>(Value::Nil) && final(heap).spec_vector(this) == Some(
                    items,
                )
            },
            None => (r matches Err(kind) && spec_invalid(kind)) && *final(heap) == *old(heap),
        },
{
    if this >= heap.vectors.len() {
        return Err(invalid_value());
    }
    let mut items = heap.take_vector(this);
    let ghost before = items@;
    let r = match items.pop() {
        Some(v) => {
            assert(items@ =~= before.drop_last());
            Ok(v)
        },
        None => Ok(Value::Nil),
    };
    heap.set_vector(this, items);
    r
}

/// `clear`.
pub fn vec_clear(heap: &mut Heap, this: usize) -> (r: Result<Value, ErrorKind>)
    ensures
        final(heap).strings == old(heap).strings,
        final(heap).instances == old(heap).instances,
        final(heap).vectors@.len() == old(heap).vectors@.len(),
        forall|i: int|
            0 <= i < old(heap).vectors@.len() && i != this ==> final(heap).vectors@[i] == old(heap).vectors@[i],
        match old(heap).spec_vector(this) {
            Some(items) => r == Ok::<Value, ErrorKind>(Value::Nil) && final(heap).spec_vector(this)
                == Some(Seq::<Value>::empty()),
            None => (r matches Err(kind) && spec_invalid(kind)) && *final(heap) == *old(heap),
        },
{
    if this >= heap.vectors.len() {
        return Err(invalid_value());
    }
    let _ = heap.take_vector(this);
    assert(heap.vectors@[this as int]@ =~= Seq::<Value>::empty());
    Ok(Value::Nil)
}

/// `len`.
pub fn vec_len(heap: &Heap, this: usize) -> (r: Result<Value, ErrorKind>)
    ensures
        match heap.spec_vector(this) {
            Some(items) => r == Ok::<Value, ErrorKind>(
                Value::Int(
                    if items.len() <= i64::MAX {
                        items.len() as i64
                    } else {
                        i64::MAX
                    },
                ),
            ),
            None => r matches Err(kind) && spec_invalid(kind),
        },
{
    match heap.vector(this) {
        None => Err(invalid_value()),
        Some(items) => {
            if items.len() as u64 > i64::MAX as u64 {
                Ok(Value::Int(i64::MAX))
            } else {
                Ok(Value::Int(items.len() as i64))
            }
        },
    }
}

/// `join`: appends a text to a stored string.
pub fn string_join(heap: &mut Heap, this: usize, a: usize) -> (r: Result<Value, ErrorKind>)
    ensures
        final(heap).vectors == old(heap).vectors,
        final(heap).instances == old(heap).instances,
        final(heap).strings@.len() == old(heap).strings@.len(),
        forall|i: int|
            0 <= i < old(heap).strings@.len() && i != this ==> final(heap).strings@[i] == old(heap).strings@[i],
        match old(heap).spec_string(this) {
            Some(text) => r == Ok::<Value, ErrorKind>(Value::Nil) && final(heap).spec_string(this)
                == Some(text + old(heap).spec_text(a)),
            None => (r matches Err(kind) && spec_invalid(kind)) && *final(heap) == *old(heap),
        },
{
    if this >= heap.strings.len() {
        return Err(invalid_value());
    }
    let addition = heap.text(a);
    let mut text = heap.take_string(this);
    crate::text::push_range(&mut text, &addition, 0, addition.len());
    assert(addition@.subrange(0, addition.len() as int) =~= addition@);
    heap.set_string(this, text);
    Ok(Value::Nil)
}

/// `pop` on a string: takes the last character off and gives it as a new
/// string, `none` where the string is empty.
pub fn string_pop(heap: &mut Heap, this: usize) -> (r: Result<Value, ErrorKind>)
    ensures
        final(heap).vectors == old(heap).vectors,
        final(heap).instances == old(heap).instances,
        forall|i: int|
            0 <= i < old(heap).strings@.len() && i != this ==> final(heap).strings@[i] == old(heap).strings@[i],
        match old(heap).spec_string(this) {
            Some(text) => if text.len() > 0 {
                r == Ok::<Value, ErrorKind>(Value::Str(old(heap).strings@.len() as usize))
                    && final(heap).strings@.len() == old(heap).strings@.len() + 1 && final(heap).spec_string(this) == Some(text.drop_last()) && final(heap).spec_string(old(heap).strings@.len() as usize) == Some(seq![text.last()])
            } else {
                r == Ok::<Value, ErrorKind>(Value::Nil) && final(heap).strings@.len() == old(heap).strings@.len() && final(heap).spec_string(this) == Some(
                    text,
                )
            },
            None => (r matches Err(kind) && spec_invalid(kind)) && *final(heap) == *old(heap),
        },
{
    if this >= heap.strings.len() {
        return Err(invalid_value());
    }
    let mut text = heap.take_string(this);
    let ghost before = text@;
    match text.pop() {
        Some(c) => {
            assert(text@ =~= before.drop_last());
            heap.set_string(this, text);
            let mut last: Vec<char> = Vec::new();
            last.push(c);
            assert(last@ =~= seq![before.last()]);
            Ok(heap.new_string(last))
        },
        None => {
            heap.set_string(this, text);
            Ok(Value::Nil)
        },
    }
}

} // verus!

verus! {

/// What a built-in function does on the heap besides giving a value.
pub enum Effect {
    /// A new string with the given text joins the heap; it is the value.
    NewString(Seq<char>),
    /// New strings with the given texts join the heap, and a new vector that
    /// holds them in their order; the vector is the value.
    NewStrings(Seq<Seq<char>>),
    /// A new vector with the given items joins the heap; it is the value.
    NewVector(Seq<Value>),
    /// The vector of the given number gets the given items.
    SetVector(usize, Seq<Value>),
    /// The string of the given number gets the given text.
    SetString(usize, Seq<char>),
    /// The string of the given number gets the given text, and a new string
    /// with the given character joins the heap; it is the value.
    PopString(usize, Seq<char>, char),
    /// A new `Result` with the given state joins the heap; it is the value.
    NewResult(bool, Value),
    /// A new string with the given text joins the heap, and a new `Result`
    /// that holds it; the `Result` is the value.
    NewResultText(bool, Seq<char>),
    /// New strings with the given texts join the heap, a new vector that
    /// holds them, and a new `Result` that holds the vector; the `Result` is
    /// the value.
    NewResultTexts(Seq<Seq<char>>),
    /// The instance of the given number notes that it was asked.
    Checked(usize),
}

/// Whether the heap `after` is the heap `before` with new strings of the
/// given texts behind its strings.
pub open spec fn spec_strings_added(before: &Heap, after: &Heap, texts: Seq<Seq<char>>) -> bool {
    &&& after.strings@.len() == before.strings@.len() + texts.len()
    &&& after.strings@.subrange(0, before.strings@.len() as int) == before.strings@
    &&& forall|k: int|
        0 <= k < texts.len() ==> (#[trigger] after.strings@[before.strings@.len() + k])@ == texts[k]
}

/// Whether the heap `after` has one vector more than the heap `before`,
/// with the given items.
pub open spec fn spec_vector_added(before: &Heap, after: &Heap, items: Seq<Value>) -> bool {
    &&& after.vectors@.len() == before.vectors@.len() + 1
    &&& after.vectors@.drop_last() == before.vectors@
    &&& after.vectors@.last()@ == items
}

/// Whether the heap `after` has one instance more than the heap `before`:
/// a `Result` in the given state that was not asked yet what it holds.
pub open spec fn spec_result_added(before: &Heap, after: &Heap, is_ok: bool, value: Value) -> bool {
    &&& after.instances@.len() == before.instances@.len() + 1
    &&& after.instances@.drop_last() == before.instances@
    &&& after.instances@.last().typeid == TYPEID_RESULT
    &&& after.instances@.last().properties@ == spec_result_properties(is_ok, value, false)
}

/// The strings that were stored one after the other from the number `first`
/// on, as values.
pub open spec fn spec_string_values(first: int, count: nat) -> Seq<Value> {
    Seq::new(count, |k: int| Value::Str((first + k) as usize))
}

/// Whether the heap has gone from `before` to `after` as the effect says,
/// and `value` is the new object where the effect makes one.
pub open spec fn spec_heap_effect(before: &Heap, effect: Effect, after: &Heap, value: Value) -> bool {
    match effect {
        Effect::NewString(text) => {
            &&& value == Value::Str(before.strings@.len() as usize)
            &&& spec_strings_added(before, after, seq![text])
            &&& after.vectors == before.vectors
            &&& after.instances == before.instances
        },
        Effect::NewStrings(texts) => {
            &&& value == Value::Vector(before.vectors@.len() as usize)
            &&& spec_strings_added(before, after, texts)
            &&& spec_vector_added(
                before,
                after,
                spec_string_values(before.strings@.len() as int, texts.len()),
            )
            &&& after.instances == before.instances
        },
        Effect::NewVector(items) => {
            &&& value == Value::Vector(before.vectors@.len() as usize)
            &&& spec_vector_added(before, after, items)
            &&& after.strings == before.strings
            &&& after.instances == before.instances
        },
        Effect::SetVector(id, items) => {
            &&& after.strings == before.strings
            &&& after.instances == before.instances
            &&& after.vectors@.len() == before.vectors@.len()
            &&& forall|i: int|
                0 <= i < before.vectors@.len() && i != id ==> after.vectors@[i] == before.vectors@[i]
            &&& after.spec_vector(id) == Some(items)
        },
        Effect::SetString(id, text) => {
            &&& after.vectors == before.vectors
            &&& after.instances == before.instances
            &&& after.strings@.len() == before.strings@.len()
            &&& forall|i: int|
                0 <= i < before.strings@.len() && i != id ==> after.strings@[i] == before.strings@[i]
            &&& after.spec_string(id) == Some(text)
        },
        Effect::PopString(id, text, last) => {
            &&& value == Value::Str(before.strings@.len() as usize)
            &&& after.vectors == before.vectors
            &&& after.instances == before.instances
            &&& after.strings@.len() == before.strings@.len() + 1
            &&& forall|i: int|
                0 <= i < before.strings@.len() && i != id ==> after.strings@[i] == before.strings@[i]
            &&& after.spec_string(id) == Some(text)
            &&& after.spec_string(before.strings@.len() as usize) == Some(seq![last])
        },
        Effect::NewResult(is_ok, held) => {
            &&& value == (Value::Class {
                object: before.instances@.len() as usize,
                typeid: TYPEID_RESULT,
            })
            &&& spec_result_added(before, after, is_ok, held)
            &&& after.strings == before.strings
            &&& after.vectors == before.vectors
        },
        Effect::NewResultText(is_ok, text) => {
            &&& value == (Value::Class {
                object: before.instances@.len() as usize,
                typeid: TYPEID_RESULT,
            })
            &&& spec_strings_added(before, after, seq![text])
            &&& spec_result_added(
                before,
                after,
                is_ok,
                Value::Str(before.strings@.len() as usize),
            )
            &&& after.vectors == before.vectors
        },
        Effect::NewResultTexts(texts) => {
            &&& value == (Value::Class {
                object: before.instances@.len() as usize,
                typeid: TYPEID_RESULT,
            })
            &&& spec_strings_added(before, after, texts)
            &&& spec_vector_added(
                before,
                after,
                spec_string_values(before.strings@.len() as int, texts.len()),
            )
            &&& spec_result_added(
                before,
                after,
                true,
                Value::Vector(before.vectors@.len() as usize),
            )
        },
        Effect::Checked(object) => {
            &&& after.strings == before.strings
            &&& after.vectors == before.vectors
            &&& after.instances@.len() == before.instances@.len()
            &&& forall|i: int|
                0 <= i < before.instances@.len() && i != object ==> after.instances@[i]
                    == before.instances@[i]
            &&& object < before.instances@.len()
            &&& after.instances@[object as int].typeid == before.instances@[object as int].typeid
            &&& after.instances@[object as int].properties@
                == before.instances@[object as int].properties@.insert(
                "is_checked"@,
                Property {
                    var: Variable { value: Value::Bool(true), is_dynamic: false },
                    is_public: false,
                },
            )
        },
    }
}

/// Whether a step left everything of the session but the heap and the
/// printed text as it was.
pub open spec fn spec_same_frames(before: &ExecSession, after: &ExecSession) -> bool {
    &&& after.call_count == before.call_count
    &&& after.local_scopes == before.local_scopes
    &&& after.global_scope == before.global_scope
    &&& after.backtrace == before.backtrace
}

/// The value bound to a name in the current scope: the parameters of the
/// running function stand there.
pub open spec fn spec_argument(exec: &ExecSession, name: Seq<char>) -> Option<Value> {
    if exec.spec_scope().contains_key(name) {
        Some(exec.spec_scope()[name].value)
    } else {
        None
    }
}

/// The text of the string bound to a name in the current scope.
pub open spec fn spec_argument_text(exec: &ExecSession, name: Seq<char>) -> Option<Seq<char>> {
    match spec_argument(exec, name) {
        Some(Value::Str(id)) => Some(exec.heap.spec_text(id)),
        _ => None,
    }
}

/// What a built-in function that only reads its arguments gives, `None`
/// for the functions that do more, or on arguments that the function does
/// not take.
pub open spec fn spec_computed(body: Builtin, exec: &ExecSession) -> Option<Value> {
    match body {
        Builtin::IntAbs => match spec_argument(exec, "self"@) {
            Some(Value::Int(n)) => Some(Value::Int(crate::operation::spec_int_abs(n))),
            _ => None,
        },
        Builtin::FloatAbs => match spec_argument(exec, "self"@) {
            Some(Value::Float(f)) => Some(Value::Float(crate::operation::spec_float_abs(f))),
            _ => None,
        },
        Builtin::FloatIsNan => match spec_argument(exec, "self"@) {
            Some(Value::Float(f)) => Some(Value::Bool(spec_is_nan(f))),
            _ => None,
        },
        Builtin::FloatPi => Some(Value::Float(FLOAT_PI)),
        Builtin::StringStartsWith => match (
            spec_argument_text(exec, "self"@),
            spec_argument_text(exec, "a"@),
        ) {
            (Some(text), Some(pattern)) => Some(Value::Bool(spec_found_at(text, pattern, 0))),
            _ => None,
        },
        Builtin::StringEndsWith => match (
            spec_argument_text(exec, "self"@),
            spec_argument_text(exec, "a"@),
        ) {
            (Some(text), Some(pattern)) => Some(
                Value::Bool(
                    pattern.len() <= text.len() && spec_found_at(
                        text,
                        pattern,
                        text.len() - pattern.len(),
                    ),
                ),
            ),
            _ => None,
        },
        Builtin::StringContains => match (
            spec_argument_text(exec, "self"@),
            spec_argument_text(exec, "a"@),
        ) {
            (Some(text), Some(pattern)) => Some(
                Value::Bool(exists|at: int| spec_found_at(text, pattern, at)),
            ),
            _ => None,
        },
        Builtin::VecGet => match (spec_argument(exec, "self"@), spec_argument(exec, "a"@)) {
            (Some(Value::Vector(id)), Some(Value::Int(index))) => match exec.heap.spec_vector(id) {
                Some(items) => if 0 <= index < items.len() {
                    Some(items[index as int])
                } else {
                    None
                },
                None => None,
            },
            _ => None,
        },
        Builtin::VecLen => match spec_argument(exec, "self"@) {
            Some(Value::Vector(id)) => match exec.heap.spec_vector(id) {
                Some(items) => Some(
                    Value::Int(
                        if items.len() <= i64::MAX {
                            items.len() as i64
                        } else {
                            i64::MAX
                        },
                    ),
                ),
                None => None,
            },
            _ => None,
        },
        Builtin::StringLen => match spec_argument_text(exec, "self"@) {
            Some(text) => Some(
                Value::Int(
                    if spec_bytes_before(text, text.len() as int) <= i64::MAX {
                        spec_bytes_before(text, text.len() as int) as i64
                    } else {
                        i64::MAX
                    },
                ),
            ),
            None => None,
        },
        Builtin::ResultValue => match spec_argument(exec, "self"@) {
            Some(this) => match result_owner(&exec.heap, this) {
                Some(properties) => spec_result_value(properties),
                None => None,
            },
            None => None,
        },
        Builtin::ResultUnwrap => match spec_argument(exec, "self"@) {
            Some(this) => match result_owner(&exec.heap, this) {
                Some(properties) => spec_result_unwrap(properties),
                None => None,
            },
            None => None,
        },
        _ => None,
    }
}

/// Whether `request` is what a built-in function asks the host on the
/// arguments in the current scope.
pub open spec fn spec_is_request(body: Builtin, exec: &ExecSession, request: Request) -> bool {
    match body {
        Builtin::Println | Builtin::Print => request matches Request::Format(parts)
            && spec_argument(exec, "a"@) matches Some(value) && parts@ == value.spec_float_parts(
            &exec.heap,
        ) && parts@.len() > 0,
        Builtin::SelfToString => request matches Request::Format(parts) && spec_argument(
            exec,
            "self"@,
        ) matches Some(value) && parts@ == value.spec_float_parts(&exec.heap) && parts@.len() > 0,
        Builtin::Input => request matches Request::Input(prompt) && spec_argument_text(exec, "a"@)
            == Some(prompt@),
        Builtin::IntToFloat => request matches Request::FromInt(i) && spec_argument(exec, "self"@)
            == Some(Value::Int(i)),
        Builtin::FloatToInt => request matches Request::ToInt(f) && spec_argument(exec, "self"@)
            == Some(Value::Float(f)),
        Builtin::FloatParse => request matches Request::Parse(text) && spec_argument_text(
            exec,
            "a"@,
        ) == Some(text@),
        _ => match spec_float_fn(body) {
            Some(function) => request matches Request::Unary(f, bits) && f == function
                && spec_argument(exec, "a"@) == Some(Value::Float(bits)),
            None => match spec_file_op(body) {
                Some((op, count)) => request matches Request::File(o, first, second) && o == op
                    && (count >= 1 ==> spec_argument_text(exec, "a"@) == Some(first@)) && (count
                    >= 2 ==> spec_argument_text(exec, "b"@) == Some(second@)) && (count < 1
                    ==> first@.len() == 0) && (count < 2 ==> second@.len() == 0),
                None => false,
            },
        },
    }
}

/// The value bound to a parameter of the running built-in function.
fn argument(exec: &ExecSession, name: &str) -> (r: Result<Value, ErrorKind>)
    ensures
        match spec_argument(exec, name@) {
            Some(v) => r == Ok::<Value, ErrorKind>(v),
            None => r matches Err(kind) && spec_invalid(kind),
        },
{
    match exec.get_variable(name) {
        Some(variable) => Ok(variable.get_value_clone()),
        None => Err(invalid_value()),
    }
}

fn int_argument(exec: &ExecSession, name: &str) -> (r: Result<i64, ErrorKind>)
    ensures
        match spec_argument(exec, name@) {
            Some(Value::Int(i)) => r == Ok::<i64, ErrorKind>(i),
            _ => r matches Err(kind) && spec_invalid(kind),
        },
{
    match argument(exec, name)? {
        Value::Int(i) => Ok(i),
        _ => Err(invalid_value()),
    }
}

fn float_argument(exec: &ExecSession, name: &str) -> (r: Result<u64, ErrorKind>)
    ensures
        match spec_argument(exec, name@) {
            Some(Value::Float(f)) => r == Ok::<u64, ErrorKind>(f),
            _ => r matches Err(kind) && spec_invalid(kind),
        },
{
    match argument(exec, name)? {
        Value::Float(f) => Ok(f),
        _ => Err(invalid_value()),
    }
}

fn string_argument(exec: &ExecSession, name: &str) -> (r: Result<usize, ErrorKind>)
    ensures
        match spec_argument(exec, name@) {
            Some(Value::Str(id)) => r == Ok::<usize, ErrorKind>(id),
            _ => r matches Err(kind) && spec_invalid(kind),
        },
{
    match argument(exec, name)? {
        Value::Str(id) => Ok(id),
        _ => Err(invalid_value()),
    }
}

fn vector_argument(exec: &ExecSession, name: &str) -> (r: Result<usize, ErrorKind>)
    ensures
        match spec_argument(exec, name@) {
            Some(Value::Vector(id)) => r == Ok::<usize, ErrorKind>(id),
            _ => r matches Err(kind) && spec_invalid(kind),
        },
{
    match argument(exec, name)? {
        Value::Vector(id) => Ok(id),
        _ => Err(invalid_value()),
    }
}

fn text_argument(exec: &ExecSession, name: &str) -> (r: Result<Vec<char>, ErrorKind>)
    ensures
        match spec_argument_text(exec, name@) {
            Some(text) => r matches Ok(t) && t@ == text,
            None => r matches Err(kind) && spec_invalid(kind),
        },
{
    let id = string_argument(exec, name)?;
    Ok(exec.heap.text(id))
}

/// A new string with the given text.
fn new_text(exec: &mut ExecSession, text: Vec<char>) -> (v: Value)
    ensures
        spec_same_frames(old(exec), final(exec)),
        final(exec).output_stream == old(exec).output_stream,
        spec_heap_effect(&old(exec).heap, Effect::NewString(text@), &final(exec).heap, v),
{
    let v = exec.heap.new_string(text);
    assert(exec.heap.strings@.subrange(0, old(exec).heap.strings@.len() as int)
        =~= old(exec).heap.strings@);
    v
}

/// A new vector with the given items.
fn new_items(exec: &mut ExecSession, items: Vec<Value>) -> (v: Value)
    ensures
        spec_same_frames(old(exec), final(exec)),
        final(exec).output_stream == old(exec).output_stream,
        spec_heap_effect(&old(exec).heap, Effect::NewVector(items@), &final(exec).heap, v),
{
    let v = exec.heap.new_vector(items);
    assert(exec.heap.vectors@.drop_last() =~= old(exec).heap.vectors@);
    v
}

/// The float function that a function of `Math` stands for.
pub open spec fn spec_float_fn(body: Builtin) -> Option<FloatFn> {
    match body {
        Builtin::Sin => Some(FloatFn::Sin),
        Builtin::Sind => Some(FloatFn::Sind),
        Builtin::Asin => Some(FloatFn::Asin),
        Builtin::Asind => Some(FloatFn::Asind),
        Builtin::Cos => Some(FloatFn::Cos),
        Builtin::Cosd => Some(FloatFn::Cosd),
        Builtin::Acos => Some(FloatFn::Acos),
        Builtin::Acosd => Some(FloatFn::Acosd),
        Builtin::Tan => Some(FloatFn::Tan),
        Builtin::Tand => Some(FloatFn::Tand),
        Builtin::Atan => Some(FloatFn::Atan),
        Builtin::Atand => Some(FloatFn::Atand),
        Builtin::Ln => Some(FloatFn::Ln),
        Builtin::Log => Some(FloatFn::Log),
        _ => None,
    }
}

pub fn float_fn(body: Builtin) -> (r: Option<FloatFn>)
    ensures
        r == spec_float_fn(body),
{
    match body {
        Builtin::Sin => Some(FloatFn::Sin),
        Builtin::Sind => Some(FloatFn::Sind),
        Builtin::Asin => Some(FloatFn::Asin),
        Builtin::Asind => Some(FloatFn::Asind),
        Builtin::Cos => Some(FloatFn::Cos),
        Builtin::Cosd => Some(FloatFn::Cosd),
        Builtin::Acos => Some(FloatFn::Acos),
        Builtin::Acosd => Some(FloatFn::Acosd),
        Builtin::Tan => Some(FloatFn::Tan),
        Builtin::Tand => Some(FloatFn::Tand),
        Builtin::Atan => Some(FloatFn::Atan),
        Builtin::Atand => Some(FloatFn::Atand),
        Builtin::Ln => Some(FloatFn::Ln),
        Builtin::Log => Some(FloatFn::Log),
        _ => None,
    }
}

/// The file operation that a function of `File` or `Fs` stands for, and
/// how many texts it takes.
pub open spec fn spec_file_op(body: Builtin) -> Option<(FileOp, u8)> {
    match body {
        Builtin::FileRead => Some((FileOp::Read, 1u8)),
        Builtin::FileWrite => Some((FileOp::Write, 2u8)),
        Builtin::FileAppend => Some((FileOp::Append, 2u8)),
        Builtin::FsCurrentDirectory => Some((FileOp::CurrentDirectory, 0u8)),
        Builtin::FsChangeDirectory => Some((FileOp::ChangeDirectory, 1u8)),
        Builtin::FsExists => Some((FileOp::Exists, 1u8)),
        Builtin::FsList => Some((FileOp::List, 1u8)),
        Builtin::FsRemoveFile => Some((FileOp::RemoveFile, 1u8)),
        Builtin::FsRemoveDirectory => Some((FileOp::RemoveDirectory, 1u8)),
        Builtin::FsCreateDirectory => Some((FileOp::CreateDirectory, 1u8)),
        Builtin::FsCopy => Some((FileOp::Copy, 2u8)),
        Builtin::FsMove => Some((FileOp::Move, 2u8)),
        _ => None,
    }
}

pub fn file_op(body: Builtin) -> (r: Option<(FileOp, u8)>)
    ensures
        r == spec_file_op(body),
{
    match body {
        Builtin::FileRead => Some((FileOp::Read, 1)),
        Builtin::FileWrite => Some((FileOp::Write, 2)),
        Builtin::FileAppend => Some((FileOp::Append, 2)),
        Builtin::FsCurrentDirectory => Some((FileOp::CurrentDirectory, 0)),
        Builtin::FsChangeDirectory => Some((FileOp::ChangeDirectory, 1)),
        Builtin::FsExists => Some((FileOp::Exists, 1)),
        Builtin::FsList => Some((FileOp::List, 1)),
        Builtin::FsRemoveFile => Some((FileOp::RemoveFile, 1)),
        Builtin::FsRemoveDirectory => Some((FileOp::RemoveDirectory, 1)),
        Builtin::FsCreateDirectory => Some((FileOp::CreateDirectory, 1)),
        Builtin::FsCopy => Some((FileOp::Copy, 2)),
        Builtin::FsMove => Some((FileOp::Move, 2)),
        _ => None,
    }
}

/// Prints a value: appends it, as it is shown, to the printed text, and a
/// line break behind it where `line` is set.
pub fn print(exec: &mut ExecSession, session: &ParseSession, value: Value, texts: &Vec<String>, line: bool)
    ensures
        spec_same_frames(old(exec), final(exec)),
        final(exec).heap == old(exec).heap,
        final(exec).output_stream@ == old(exec).output_stream@ + value.spec_text(
            session,
            &old(exec).heap,
            texts@,
        ) + if line {
            seq!['\n']
        } else {
            Seq::empty()
        },
{
    let shown = value.to_string(session, &exec.heap, texts);
    exec.write(shown.as_str());
    if line {
        exec.write("\n");
        proof {
            reveal_strlit("\n");
        }
        assert("\n"@ =~= seq!['\n']);
    }
    assert(exec.output_stream@ =~= old(exec).output_stream@ + value.spec_text(
        session,
        &old(exec).heap,
        texts@,
    ) + if line {
        seq!['\n']
    } else {
        Seq::empty()
    });
}

/// A new `Result` that holds a new string with the given text.
fn text_result(exec: &mut ExecSession, is_ok: bool, text: Vec<char>) -> (v: Value)
    ensures
        spec_same_frames(old(exec), final(exec)),
        final(exec).output_stream == old(exec).output_stream,
        spec_heap_effect(&old(exec).heap, Effect::NewResultText(is_ok, text@), &final(exec).heap, v),
{
    let held = exec.heap.new_string(text);
    assert(exec.heap.strings@.subrange(0, old(exec).heap.strings@.len() as int)
        =~= old(exec).heap.strings@);
    make_result(is_ok, held, &mut exec.heap)
}

/// How a built-in function fails.
pub enum Failure {
    /// On a value that it cannot take.
    Invalid,
    /// On an index that is no place of a vector of the given length.
    OutOfRange(i64, usize),
    /// With a message of its own.
    Message(Seq<char>),
}

/// Whether an error reports the failure.
pub open spec fn spec_is_failure(failure: Failure, kind: ErrorKind) -> bool {
    match failure {
        Failure::Invalid => spec_invalid(kind),
        Failure::OutOfRange(index, len) => kind == ErrorKind::IndexOutOfRange(index, len),
        Failure::Message(text) => kind matches ErrorKind::CustomError(m) && m@ == text,
    }
}

/// What a built-in function is to do on the arguments bound in the current
/// scope.
pub enum Plan {
    /// Hand the construction of an instance back.
    Construct,
    /// Give the value; nothing changes.
    Value(Value),
    /// Ask the host.
    Ask,
    /// Append the text to the printed text.
    Print(Seq<char>),
    /// Work on the heap.
    Work(Effect, Value),
    /// Draw a number between the two, both included.
    Draw(i64, i64),
    /// Fail; nothing changes.
    Fail(Failure),
}

/// A value where there is one, the failure on a value that a built-in
/// function cannot take where there is none.
pub open spec fn spec_value_or_invalid(value: Option<Value>) -> Plan {
    match value {
        Some(v) => Plan::Value(v),
        None => Plan::Fail(Failure::Invalid),
    }
}

/// Whether the arguments bound in the current scope are those of a
/// built-in function that asks the host with them.
pub open spec fn spec_asks(body: Builtin, exec: &ExecSession) -> bool {
    match body {
        Builtin::Input | Builtin::FloatParse => spec_argument_text(exec, "a"@) is Some,
        Builtin::IntToFloat => spec_argument(exec, "self"@) matches Some(Value::Int(_)),
        Builtin::FloatToInt => spec_argument(exec, "self"@) matches Some(Value::Float(_)),
        _ => match spec_float_fn(body) {
            Some(_) => spec_argument(exec, "a"@) matches Some(Value::Float(_)),
            None => match spec_file_op(body) {
                Some((_, count)) => (count >= 1 ==> spec_argument_text(exec, "a"@) is Some) && (
                count >= 2 ==> spec_argument_text(exec, "b"@) is Some),
                None => false,
            },
        },
    }
}

/// The items of a range: the integers from `min` up to `max`, without
/// `max`.
pub open spec fn spec_range_items(min: i64, max: i64) -> Seq<Value> {
    Seq::new(
        (if min < max {
            max - min
        } else {
            0
        }) as nat,
        |k: int| Value::Int((min + k) as i64),
    )
}

/// What a function of a vector does to the vector `items` of the number
/// `id`, on the arguments `a` and `b`.
pub open spec fn spec_vector_plan(
    body: Builtin,
    id: usize,
    items: Seq<Value>,
    a: Option<Value>,
    b: Option<Value>,
) -> Plan {
    match body {
        Builtin::VecPush => match a {
            Some(item) => Plan::Work(Effect::SetVector(id, items.push(item)), Value::Nil),
            None => Plan::Fail(Failure::Invalid),
        },
        Builtin::VecSet => match (a, b) {
            (Some(Value::Int(index)), Some(item)) => if 0 <= index < items.len() {
                Plan::Work(Effect::SetVector(id, items.update(index as int, item)), Value::Nil)
            } else {
                Plan::Fail(Failure::OutOfRange(index, items.len() as usize))
            },
            _ => Plan::Fail(Failure::Invalid),
        },
        Builtin::VecGet => match a {
            Some(Value::Int(index)) => if 0 <= index < items.len() {
                Plan::Value(items[index as int])
            } else {
                Plan::Fail(Failure::OutOfRange(index, items.len() as usize))
            },
            _ => Plan::Fail(Failure::Invalid),
        },
        Builtin::VecRemove => match a {
            Some(Value::Int(index)) => if 0 <= index < items.len() {
                Plan::Work(Effect::SetVector(id, items.remove(index as int)), items[index as int])
            } else {
                Plan::Fail(Failure::OutOfRange(index, items.len() as usize))
            },
            _ => Plan::Fail(Failure::Invalid),
        },
        Builtin::VecPop => if items.len() > 0 {
            Plan::Work(Effect::SetVector(id, items.drop_last()), items.last())
        } else {
            Plan::Work(Effect::SetVector(id, items), Value::Nil)
        },
        Builtin::VecClear => Plan::Work(Effect::SetVector(id, Seq::empty()), Value::Nil),
        _ => Plan::Fail(Failure::Invalid),
    }
}

/// What a function of a string that makes or changes an object does on the
/// string `this` with the text `text`, on the arguments bound in the current
/// scope.
pub open spec fn spec_string_plan(body: Builtin, this: usize, text: Seq<char>, exec: &ExecSession) -> Plan {
    match body {
        Builtin::StringJoin => match spec_argument(exec, "a"@) {
            Some(Value::Str(a)) => Plan::Work(
                Effect::SetString(this, text + exec.heap.spec_text(a)),
                Value::Nil,
            ),
            _ => Plan::Fail(Failure::Invalid),
        },
        Builtin::StringPop => if text.len() > 0 {
            Plan::Work(
                Effect::PopString(this, text.drop_last(), text.last()),
                Value::Str(exec.heap.strings@.len() as usize),
            )
        } else {
            Plan::Work(Effect::SetString(this, text), Value::Nil)
        },
        Builtin::StringTrim => Plan::Work(
            Effect::NewString(spec_trim(text)),
            Value::Str(exec.heap.strings@.len() as usize),
        ),
        Builtin::StringToLowercase => Plan::Work(
            Effect::NewString(spec_lowercase(text)),
            Value::Str(exec.heap.strings@.len() as usize),
        ),
        Builtin::StringToUppercase => Plan::Work(
            Effect::NewString(spec_uppercase(text)),
            Value::Str(exec.heap.strings@.len() as usize),
        ),
        Builtin::StringChars => Plan::Work(
            Effect::NewStrings(Seq::new(text.len(), |i: int| seq![text[i]])),
            Value::Vector(exec.heap.vectors@.len() as usize),
        ),
        Builtin::StringSubstring => match (spec_argument(exec, "a"@), spec_argument(exec, "b"@)) {
            (Some(Value::Int(from)), Some(Value::Int(to))) => match spec_substring(
                text,
                from as int,
                to as int,
            ) {
                Some(part) => Plan::Work(
                    Effect::NewResultText(true, part),
                    spec_new_result(&exec.heap),
                ),
                None => Plan::Work(
                    Effect::NewResult(false, Value::Nil),
                    spec_new_result(&exec.heap),
                ),
            },
            _ => Plan::Fail(Failure::Invalid),
        },
        Builtin::StringSplit => match spec_argument_text(exec, "a"@) {
            Some(delimiter) => if delimiter.len() == 1 && spec_char_bytes(delimiter[0]) == 1 {
                Plan::Work(
                    Effect::NewStrings(spec_split_from(text, delimiter[0], 0)),
                    Value::Vector(exec.heap.vectors@.len() as usize),
                )
            } else {
                Plan::Fail(Failure::Message("Delimiter must be a single character"@))
            },
            None => Plan::Fail(Failure::Invalid),
        },
        _ => Plan::Fail(Failure::Invalid),
    }
}

/// The value that names the next instance of the heap as a `Result`.
pub open spec fn spec_new_result(heap: &Heap) -> Value {
    Value::Class { object: heap.instances@.len() as usize, typeid: TYPEID_RESULT }
}

/// What parsing a text gives: a new `Result` with the value that the text
/// stands for, or with the message that says why it stands for none.
pub open spec fn spec_parse_plan(body: Builtin, text: Seq<char>, heap: &Heap) -> Plan {
    match body {
        Builtin::IntParse => match crate::text::spec_parse_int(text) {
            Ok(number) => Plan::Work(
                Effect::NewResult(true, Value::Int(number)),
                spec_new_result(heap),
            ),
            Err(e) => Plan::Work(
                Effect::NewResultText(false, e.spec_message()),
                spec_new_result(heap),
            ),
        },
        _ => match spec_parse_bool(text) {
            Some(b) => Plan::Work(Effect::NewResult(true, Value::Bool(b)), spec_new_result(heap)),
            None => Plan::Work(
                Effect::NewResultText(false, "provided string was not `true` or `false`"@),
                spec_new_result(heap),
            ),
        },
    }
}

/// What a built-in function is to do on the arguments bound in the current
/// scope.
pub open spec fn spec_plan(body: Builtin, exec: &ExecSession, session: &ParseSession) -> Plan {
    match body {
        Builtin::ClassConstructor => Plan::Construct,
        Builtin::Println | Builtin::Print => match spec_argument(exec, "a"@) {
            Some(value) => if value.spec_float_parts(&exec.heap).len() == 0 {
                Plan::Print(
                    value.spec_text(session, &exec.heap, Seq::<String>::empty()) + if body
                        == Builtin::Println {
                        seq!['\n']
                    } else {
                        Seq::empty()
                    },
                )
            } else {
                Plan::Ask
            },
            None => Plan::Fail(Failure::Invalid),
        },
        Builtin::SelfToString => match spec_argument(exec, "self"@) {
            Some(value) => if value.spec_float_parts(&exec.heap).len() == 0 {
                Plan::Work(
                    Effect::NewString(
                        value.spec_text(session, &exec.heap, Seq::<String>::empty()),
                    ),
                    Value::Str(exec.heap.strings@.len() as usize),
                )
            } else {
                Plan::Ask
            },
            None => Plan::Fail(Failure::Invalid),
        },
        Builtin::Rand => match (spec_argument(exec, "a"@), spec_argument(exec, "b"@)) {
            (Some(Value::Int(min)), Some(Value::Int(max))) => if min <= max {
                Plan::Draw(min, max)
            } else {
                Plan::Fail(Failure::Message("cannot sample empty range"@))
            },
            _ => Plan::Fail(Failure::Invalid),
        },
        Builtin::Range => match (spec_argument(exec, "a"@), spec_argument(exec, "b"@)) {
            (Some(Value::Int(min)), Some(Value::Int(max))) => Plan::Work(
                Effect::NewVector(spec_range_items(min, max)),
                Value::Vector(exec.heap.vectors@.len() as usize),
            ),
            _ => Plan::Fail(Failure::Invalid),
        },
        Builtin::Panic => match spec_argument_text(exec, "a"@) {
            Some(message) => Plan::Fail(Failure::Message("Explicit panic: "@ + message)),
            None => Plan::Fail(Failure::Invalid),
        },
        Builtin::IntParse | Builtin::BoolParse => match spec_argument_text(exec, "a"@) {
            Some(text) => spec_parse_plan(body, text, &exec.heap),
            None => Plan::Fail(Failure::Invalid),
        },
        Builtin::IntAbs
        | Builtin::FloatAbs
        | Builtin::FloatIsNan
        | Builtin::FloatPi
        | Builtin::StringStartsWith
        | Builtin::StringEndsWith
        | Builtin::StringContains
        | Builtin::StringLen
        | Builtin::VecLen => spec_value_or_invalid(spec_computed(body, exec)),
        Builtin::StringJoin
        | Builtin::StringPop
        | Builtin::StringTrim
        | Builtin::StringToLowercase
        | Builtin::StringToUppercase
        | Builtin::StringChars
        | Builtin::StringSubstring
        | Builtin::StringSplit => match spec_argument(exec, "self"@) {
            Some(Value::Str(this)) => match exec.heap.spec_string(this) {
                Some(text) => spec_string_plan(body, this, text, exec),
                None => Plan::Fail(Failure::Invalid),
            },
            _ => Plan::Fail(Failure::Invalid),
        },
        Builtin::VecNew => Plan::Work(
            Effect::NewVector(Seq::empty()),
            Value::Vector(exec.heap.vectors@.len() as usize),
        ),
        Builtin::VecPush
        | Builtin::VecGet
        | Builtin::VecSet
        | Builtin::VecRemove
        | Builtin::VecPop
        | Builtin::VecClear => match spec_argument(exec, "self"@) {
            Some(Value::Vector(id)) => match exec.heap.spec_vector(id) {
                Some(items) => spec_vector_plan(
                    body,
                    id,
                    items,
                    spec_argument(exec, "a"@),
                    spec_argument(exec, "b"@),
                ),
                None => Plan::Fail(Failure::Invalid),
            },
            _ => Plan::Fail(Failure::Invalid),
        },
        Builtin::ResultNew => match (spec_argument(exec, "a"@), spec_argument(exec, "b"@)) {
            (Some(Value::Bool(is_ok)), Some(held)) => Plan::Work(
                Effect::NewResult(is_ok, held),
                spec_new_result(&exec.heap),
            ),
            _ => Plan::Fail(Failure::Invalid),
        },
        Builtin::ResultIsOk => match spec_argument(exec, "self"@) {
            Some(this) => match spec_checkable(&exec.heap, this) {
                Some((object, answer)) => Plan::Work(Effect::Checked(object), answer),
                None => Plan::Fail(Failure::Invalid),
            },
            None => Plan::Fail(Failure::Invalid),
        },
        Builtin::ResultValue | Builtin::ResultUnwrap => match spec_argument(exec, "self"@) {
            Some(this) => match result_owner(&exec.heap, this) {
                Some(_) => match spec_computed(body, exec) {
                    Some(v) => Plan::Value(v),
                    None => Plan::Fail(
                        Failure::Message(
                            if body == Builtin::ResultValue {
                                spec_unchecked_message()
                            } else {
                                "Unwrap called on a 'Result' containing an error"@
                            },
                        ),
                    ),
                },
                None => Plan::Fail(Failure::Invalid),
            },
            None => Plan::Fail(Failure::Invalid),
        },
        _ => if spec_asks(body, exec) {
            Plan::Ask
        } else {
            Plan::Fail(Failure::Invalid)
        },
    }
}

/// Whether `r`, with the session going from `before` to `after`, is what
/// starting the built-in function owes: what it is to do on its arguments
/// ([`spec_plan`]), done.
pub open spec fn spec_start_is(
    body: Builtin,
    before: &ExecSession,
    after: &ExecSession,
    session: &ParseSession,
    r: Result<Outcome, ErrorKind>,
) -> bool {
    &&& spec_same_frames(before, after)
    &&& match spec_plan(body, before, session) {
        Plan::Construct => r == Ok::<Outcome, ErrorKind>(Outcome::Construct) && *after == *before,
        Plan::Value(value) => r == Ok::<Outcome, ErrorKind>(Outcome::Done(value)) && *after
            == *before,
        Plan::Ask => r matches Ok(Outcome::Ask(request)) && spec_is_request(body, before, request)
            && *after == *before,
        Plan::Print(text) => r == Ok::<Outcome, ErrorKind>(Outcome::Done(Value::Nil))
            && after.heap == before.heap && after.output_stream@ == before.output_stream@ + text,
        Plan::Work(effect, value) => r == Ok::<Outcome, ErrorKind>(Outcome::Done(value))
            && spec_heap_effect(&before.heap, effect, &after.heap, value) && after.output_stream
            == before.output_stream,
        Plan::Draw(min, max) => r matches Ok(Outcome::Done(Value::Int(number))) && min <= number
            <= max && *after == *before,
        Plan::Fail(failure) => r matches Err(kind) && spec_is_failure(failure, kind) && *after
            == *before,
    }
}

/// Starts a built-in function on the arguments bound in the current scope,
/// and does what the function is to do on them ([`spec_plan`]).
pub fn start(body: Builtin, exec: &mut ExecSession, session: &ParseSession) -> (r: Result<
    Outcome,
    ErrorKind,
>)
    ensures
        spec_start_is(body, old(exec), final(exec), session, r),
{
    match body {
        Builtin::ClassConstructor => Ok(Outcome::Construct),
        Builtin::Println | Builtin::Print => {
            let value = argument(exec, "a")?;
            let parts = value.float_parts(&exec.heap);
            if parts.len() == 0 {
                print(exec, session, value, &Vec::new(), body == Builtin::Println);
                assert(exec.output_stream@ =~= old(exec).output_stream@ + (value.spec_text(
                    session,
                    &old(exec).heap,
                    Seq::<String>::empty(),
                ) + if body == Builtin::Println {
                    seq!['\n']
                } else {
                    Seq::empty()
                }));
                Ok(Outcome::Done(Value::Nil))
            } else {
                Ok(Outcome::Ask(Request::Format(parts)))
            }
        },
        Builtin::SelfToString => {
            let value = argument(exec, "self")?;
            let parts = value.float_parts(&exec.heap);
            if parts.len() == 0 {
                let shown = value.text(session, &exec.heap, &Vec::new());
                Ok(Outcome::Done(new_text(exec, shown)))
            } else {
                Ok(Outcome::Ask(Request::Format(parts)))
            }
        },
        Builtin::Rand => {
            let min = int_argument(exec, "a")?;
            let max = int_argument(exec, "b")?;
            if min <= max {
                Ok(Outcome::Done(Value::Int(random_between(min, max))))
            } else {
                Err(ErrorKind::CustomError(String::from_str("cannot sample empty range")))
            }
        },
        Builtin::Range => {
            let min = int_argument(exec, "a")?;
            let max = int_argument(exec, "b")?;
            let items = range_items(min, max);
            assert(items@ =~= spec_range_items(min, max));
            Ok(Outcome::Done(new_items(exec, items)))
        },
        Builtin::Panic => {
            let message = text_argument(exec, "a")?;
            let mut text = to_chars("Explicit panic: ");
            crate::text::push_range(&mut text, &message, 0, message.len());
            assert(message@.subrange(0, message@.len() as int) =~= message@);
            Err(ErrorKind::CustomError(from_chars(&text)))
        },
        Builtin::IntParse | Builtin::BoolParse => {
            let text = text_argument(exec, "a")?;
            Ok(Outcome::Done(start_parse(body, exec, &text)))
        },
        Builtin::IntAbs => {
            let number = int_argument(exec, "self")?;
            Ok(Outcome::Done(Value::Int(int_abs(number))))
        },
        Builtin::FloatAbs => {
            let number = float_argument(exec, "self")?;
            Ok(Outcome::Done(Value::Float(float_abs(number))))
        },
        Builtin::FloatIsNan => {
            let number = float_argument(exec, "self")?;
            Ok(Outcome::Done(Value::Bool(float_is_nan(number))))
        },
        Builtin::FloatPi => Ok(Outcome::Done(Value::Float(float_pi()))),
        Builtin::StringStartsWith => {
            let text = text_argument(exec, "self")?;
            let pattern = text_argument(exec, "a")?;
            Ok(Outcome::Done(Value::Bool(string_starts_with(&text, &pattern))))
        },
        Builtin::StringEndsWith => {
            let text = text_argument(exec, "self")?;
            let pattern = text_argument(exec, "a")?;
            Ok(Outcome::Done(Value::Bool(string_ends_with(&text, &pattern))))
        },
        Builtin::StringContains => {
            let text = text_argument(exec, "self")?;
            let pattern = text_argument(exec, "a")?;
            Ok(Outcome::Done(Value::Bool(string_contains(&text, &pattern))))
        },
        Builtin::StringLen => {
            let text = text_argument(exec, "self")?;
            Ok(Outcome::Done(Value::Int(string_len(&text))))
        },
        Builtin::VecLen => {
            let this = vector_argument(exec, "self")?;
            Ok(Outcome::Done(vec_len(&exec.heap, this)?))
        },
        Builtin::StringJoin
        | Builtin::StringPop
        | Builtin::StringTrim
        | Builtin::StringToLowercase
        | Builtin::StringToUppercase
        | Builtin::StringChars
        | Builtin::StringSubstring
        | Builtin::StringSplit => {
            let this = string_argument(exec, "self")?;
            if this >= exec.heap.strings.len() {
                return Err(invalid_value());
            }
            start_on_string(body, this, exec)
        },
        Builtin::VecNew => {
            let items: Vec<Value> = Vec::new();
            assert(items@ =~= Seq::<Value>::empty());
            Ok(Outcome::Done(new_items(exec, items)))
        },
        Builtin::VecPush
        | Builtin::VecGet
        | Builtin::VecSet
        | Builtin::VecRemove
        | Builtin::VecPop
        | Builtin::VecClear => {
            let this = vector_argument(exec, "self")?;
            if this >= exec.heap.vectors.len() {
                return Err(invalid_value());
            }
            start_on_vector(body, this, exec)
        },
        Builtin::ResultNew => {
            let a = argument(exec, "a")?;
            let b = argument(exec, "b")?;
            Ok(Outcome::Done(result_new(&mut exec.heap, a, b)?))
        },
        Builtin::ResultIsOk => {
            let this = argument(exec, "self")?;
            Ok(Outcome::Done(result_is_ok(&mut exec.heap, this, session)?))
        },
        Builtin::ResultValue => {
            let this = argument(exec, "self")?;
            Ok(Outcome::Done(result_value(&exec.heap, this)?))
        },
        Builtin::ResultUnwrap => {
            let this = argument(exec, "self")?;
            Ok(Outcome::Done(result_unwrap(&exec.heap, this)?))
        },
        _ => start_request(body, exec),
    }
}

/// Starts `int::parse` or `bool::parse` on the text given.
fn start_parse(body: Builtin, exec: &mut ExecSession, text: &Vec<char>) -> (v: Value)
    requires
        body == Builtin::IntParse || body == Builtin::BoolParse,
    ensures
        spec_same_frames(old(exec), final(exec)),
        final(exec).output_stream == old(exec).output_stream,
        spec_parse_plan(body, text@, &old(exec).heap) matches Plan::Work(effect, value) && v
            == value && spec_heap_effect(&old(exec).heap, effect, &final(exec).heap, v),
{
    match body {
        Builtin::IntParse => match crate::text::parse_int(text) {
            Ok(number) => make_result(true, Value::Int(number), &mut exec.heap),
            Err(e) => text_result(exec, false, to_chars(e.message())),
        },
        _ => match parse_bool(text) {
            Some(b) => make_result(true, Value::Bool(b), &mut exec.heap),
            None => text_result(exec, false, to_chars("provided string was not `true` or `false`")),
        },
    }
}

/// Starts a built-in function that asks the host with its arguments.
fn start_request(body: Builtin, exec: &ExecSession) -> (r: Result<Outcome, ErrorKind>)
    ensures
        spec_asks(body, exec) ==> (r matches Ok(Outcome::Ask(request)) && spec_is_request(
            body,
            exec,
            request,
        )),
        !spec_asks(body, exec) ==> (r matches Err(kind) && spec_invalid(kind)),
{
    match body {
        Builtin::Input => {
            let prompt = text_argument(exec, "a")?;
            Ok(Outcome::Ask(Request::Input(from_chars(&prompt))))
        },
        Builtin::IntToFloat => {
            let number = int_argument(exec, "self")?;
            Ok(Outcome::Ask(Request::FromInt(number)))
        },
        Builtin::FloatParse => {
            let text = text_argument(exec, "a")?;
            Ok(Outcome::Ask(Request::Parse(from_chars(&text))))
        },
        Builtin::FloatToInt => {
            let number = float_argument(exec, "self")?;
            Ok(Outcome::Ask(Request::ToInt(number)))
        },
        _ => {
            match float_fn(body) {
                Some(function) => {
                    let number = float_argument(exec, "a")?;
                    Ok(Outcome::Ask(Request::Unary(function, number)))
                },
                None => match file_op(body) {
                    Some((op, count)) => {
                        let first = if count >= 1 {
                            from_chars(&text_argument(exec, "a")?)
                        } else {
                            String::new()
                        };
                        let second = if count >= 2 {
                            from_chars(&text_argument(exec, "b")?)
                        } else {
                            String::new()
                        };
                        Ok(Outcome::Ask(Request::File(op, first, second)))
                    },
                    None => Err(invalid_value()),
                },
            }
        },
    }
}

/// Starts a function of a vector on the vector of the number `this`.
fn start_on_vector(body: Builtin, this: usize, exec: &mut ExecSession) -> (r: Result<
    Outcome,
    ErrorKind,
>)
    requires
        this < old(exec).heap.vectors@.len(),
    ensures
        spec_same_frames(old(exec), final(exec)),
        final(exec).output_stream == old(exec).output_stream,
        match spec_vector_plan(
            body,
            this,
            old(exec).heap.vectors@[this as int]@,
            spec_argument(old(exec), "a"@),
            spec_argument(old(exec), "b"@),
        ) {
            Plan::Value(value) => r == Ok::<Outcome, ErrorKind>(Outcome::Done(value))
                && *final(exec) == *old(exec),
            Plan::Work(effect, value) => r == Ok::<Outcome, ErrorKind>(Outcome::Done(value))
                && spec_heap_effect(&old(exec).heap, effect, &final(exec).heap, value),
            Plan::Fail(failure) => r matches Err(kind) && spec_is_failure(failure, kind)
                && *final(exec) == *old(exec),
            _ => false,
        },
{
    match body {
        Builtin::VecPush => {
            let a = argument(exec, "a")?;
            Ok(Outcome::Done(vec_push(&mut exec.heap, this, a)?))
        },
        Builtin::VecGet => {
            let index = int_argument(exec, "a")?;
            Ok(Outcome::Done(vec_get(&exec.heap, this, index)?))
        },
        Builtin::VecSet => {
            let index = int_argument(exec, "a")?;
            let value = argument(exec, "b")?;
            Ok(Outcome::Done(vec_set(&mut exec.heap, this, index, value)?))
        },
        Builtin::VecRemove => {
            let index = int_argument(exec, "a")?;
            Ok(Outcome::Done(vec_remove(&mut exec.heap, this, index)?))
        },
        Builtin::VecPop => Ok(Outcome::Done(vec_pop(&mut exec.heap, this)?)),
        Builtin::VecClear => Ok(Outcome::Done(vec_clear(&mut exec.heap, this)?)),
        _ => Err(invalid_value()),
    }
}

/// Starts a function of a string on the string of the number `this`.
fn start_on_string(body: Builtin, this: usize, exec: &mut ExecSession) -> (r: Result<
    Outcome,
    ErrorKind,
>)
    requires
        this < old(exec).heap.strings@.len(),
    ensures
        spec_same_frames(old(exec), final(exec)),
        final(exec).output_stream == old(exec).output_stream,
        match spec_string_plan(body, this, old(exec).heap.strings@[this as int]@, old(exec)) {
            Plan::Work(effect, value) => r == Ok::<Outcome, ErrorKind>(Outcome::Done(value))
                && spec_heap_effect(&old(exec).heap, effect, &final(exec).heap, value),
            Plan::Fail(failure) => r matches Err(kind) && spec_is_failure(failure, kind)
                && *final(exec) == *old(exec),
            _ => false,
        },
{
    let text = exec.heap.text(this);
    match body {
        Builtin::StringJoin => {
            let a = string_argument(exec, "a")?;
            Ok(Outcome::Done(string_join(&mut exec.heap, this, a)?))
        },
        Builtin::StringPop => Ok(Outcome::Done(string_pop(&mut exec.heap, this)?)),
        Builtin::StringTrim => Ok(Outcome::Done(new_text(exec, string_trim(&text)))),
        Builtin::StringToLowercase => {
            let lower = lowercase(from_chars(&text).as_str());
            Ok(Outcome::Done(new_text(exec, to_chars(lower.as_str()))))
        },
        Builtin::StringToUppercase => {
            let upper = uppercase(from_chars(&text).as_str());
            Ok(Outcome::Done(new_text(exec, to_chars(upper.as_str()))))
        },
        Builtin::StringChars => {
            let mut pieces: Vec<Vec<char>> = Vec::new();
            let mut i: usize = 0;
            while i < text.len()
                invariant
                    i <= text.len(),
                    pieces@.len() == i,
                    forall|k: int| 0 <= k < i ==> (#[trigger] pieces@[k])@ == seq![text@[k]],
                decreases text.len() - i,
            {
                let mut piece: Vec<char> = Vec::new();
                piece.push(text[i]);
                assert(piece@ =~= seq![text@[i as int]]);
                pieces.push(piece);
                i = i + 1;
            }
            assert(spec_texts(pieces@) =~= Seq::new(text@.len(), |i: int| seq![text@[i]]));
            Ok(Outcome::Done(new_string_vector(&mut exec.heap, &pieces)))
        },
        Builtin::StringSubstring => {
            let from = int_argument(exec, "a")?;
            let to = int_argument(exec, "b")?;
            match string_substring(&text, from, to) {
                Some(part) => Ok(Outcome::Done(text_result(exec, true, part))),
                None => Ok(Outcome::Done(make_result(false, Value::Nil, &mut exec.heap))),
            }
        },
        Builtin::StringSplit => {
            let delimiter = text_argument(exec, "a")?;
            if delimiter.len() != 1 || char_bytes(delimiter[0]) != 1 {
                return Err(
                    ErrorKind::CustomError(String::from_str("Delimiter must be a single character")),
                );
            }
            let pieces = split(&text, delimiter[0]);
            Ok(Outcome::Done(new_string_vector(&mut exec.heap, &pieces)))
        },
        _ => Err(invalid_value()),
    }
}

/// Whether a reply is of the kind that the built-in function waits for.
pub open spec fn spec_fits(body: Builtin, reply: Reply) -> bool {
    match reply {
        Reply::Texts(_) => body == Builtin::Println || body == Builtin::Print || body
            == Builtin::SelfToString,
        Reply::Text(_) => body == Builtin::Input,
        Reply::Float(_) => body == Builtin::IntToFloat || spec_float_fn(body) is Some,
        Reply::Int(_) => body == Builtin::FloatToInt,
        Reply::Parsed(_) => body == Builtin::FloatParse,
        Reply::File(_) => spec_file_op(body) is Some,
        Reply::Bool(_) => false,
    }
}

/// The texts of a list of strings.
pub open spec fn spec_names(names: Seq<String>) -> Seq<Seq<char>> {
    Seq::new(names.len(), |k: int| names[k]@)
}

/// What a built-in function that asked the host is to do with the reply.
///
/// A reply of another kind than the function waits for is refused. A float
/// or an integer that the host computed is the value of the function, and so
/// is the answer of a file operation that answers yes or no. The written
/// floats of a value to print or to show are used to print or to show it.
/// The line that was read becomes a new string. What parsing a float or a
/// file operation gave becomes a new `Result`: with the float; with nothing;
/// with a new string that holds the text read or the message of the failure;
/// with a new vector of new strings that hold the names listed.
pub open spec fn spec_finish_plan(
    body: Builtin,
    reply: Reply,
    exec: &ExecSession,
    session: &ParseSession,
) -> Plan {
    if !spec_fits(body, reply) {
        Plan::Fail(Failure::Invalid)
    } else {
        match reply {
            Reply::Float(bits) => Plan::Value(Value::Float(bits)),
            Reply::Int(number) => Plan::Value(Value::Int(number)),
            Reply::Texts(texts) => if body == Builtin::SelfToString {
                match spec_argument(exec, "self"@) {
                    Some(value) => Plan::Work(
                        Effect::NewString(value.spec_text(session, &exec.heap, texts@)),
                        Value::Str(exec.heap.strings@.len() as usize),
                    ),
                    None => Plan::Fail(Failure::Invalid),
                }
            } else {
                match spec_argument(exec, "a"@) {
                    Some(value) => Plan::Print(
                        value.spec_text(session, &exec.heap, texts@) + if body
                            == Builtin::Println {
                            seq!['\n']
                        } else {
                            Seq::empty()
                        },
                    ),
                    None => Plan::Fail(Failure::Invalid),
                }
            },
            Reply::Text(line) => Plan::Work(
                Effect::NewString(line@),
                Value::Str(exec.heap.strings@.len() as usize),
            ),
            Reply::Parsed(Ok(bits)) => Plan::Work(
                Effect::NewResult(true, Value::Float(bits)),
                spec_new_result(&exec.heap),
            ),
            Reply::Parsed(Err(message)) => Plan::Work(
                Effect::NewResultText(false, message@),
                spec_new_result(&exec.heap),
            ),
            Reply::File(FileOutcome::Done) => Plan::Work(
                Effect::NewResult(true, Value::Nil),
                spec_new_result(&exec.heap),
            ),
            Reply::File(FileOutcome::Text(text)) => Plan::Work(
                Effect::NewResultText(true, text@),
                spec_new_result(&exec.heap),
            ),
            Reply::File(FileOutcome::Bool(b)) => Plan::Value(Value::Bool(b)),
            Reply::File(FileOutcome::List(names)) => Plan::Work(
                Effect::NewResultTexts(spec_names(names@)),
                spec_new_result(&exec.heap),
            ),
            Reply::File(FileOutcome::Failed(message)) => Plan::Work(
                Effect::NewResultText(false, message@),
                spec_new_result(&exec.heap),
            ),
            Reply::Bool(_) => Plan::Fail(Failure::Invalid),
        }
    }
}

/// Whether `r`, with the session going from `before` to `after`, is what
/// finishing the built-in function with the reply owes: what it is to do
/// with the reply ([`spec_finish_plan`]), done.
pub open spec fn spec_finish_is(
    body: Builtin,
    reply: Reply,
    before: &ExecSession,
    after: &ExecSession,
    session: &ParseSession,
    r: Result<Value, ErrorKind>,
) -> bool {
    &&& spec_same_frames(before, after)
    &&& match spec_finish_plan(body, reply, before, session) {
        Plan::Value(value) => r == Ok::<Value, ErrorKind>(value) && *after == *before,
        Plan::Print(text) => r == Ok::<Value, ErrorKind>(Value::Nil) && after.heap == before.heap
            && after.output_stream@ == before.output_stream@ + text,
        Plan::Work(effect, value) => r == Ok::<Value, ErrorKind>(value) && spec_heap_effect(
            &before.heap,
            effect,
            &after.heap,
            value,
        ) && after.output_stream == before.output_stream,
        Plan::Fail(failure) => r matches Err(kind) && spec_is_failure(failure, kind) && *after
            == *before,
        _ => false,
    }
}

/// Finishes a built-in function that asked the host, with the reply: does
/// what the function is to do with it ([`spec_finish_plan`]).
pub fn finish(body: Builtin, reply: Reply, exec: &mut ExecSession, session: &ParseSession) -> (r:
    Result<Value, ErrorKind>)
    ensures
        spec_finish_is(body, reply, old(exec), final(exec), session, r),
{
    match reply {
        Reply::Texts(texts) => match body {
            Builtin::Println | Builtin::Print => {
                let value = argument(exec, "a")?;
                print(exec, session, value, &texts, body == Builtin::Println);
                assert(exec.output_stream@ =~= old(exec).output_stream@ + (value.spec_text(
                    session,
                    &old(exec).heap,
                    texts@,
                ) + if body == Builtin::Println {
                    seq!['\n']
                } else {
                    Seq::empty()
                }));
                Ok(Value::Nil)
            },
            Builtin::SelfToString => {
                let value = argument(exec, "self")?;
                let shown = value.text(session, &exec.heap, &texts);
                Ok(new_text(exec, shown))
            },
            _ => Err(invalid_value()),
        },
        Reply::Text(line) => match body {
            Builtin::Input => Ok(new_text(exec, to_chars(line.as_str()))),
            _ => Err(invalid_value()),
        },
        Reply::Float(bits) => match body {
            Builtin::IntToFloat => Ok(Value::Float(bits)),
            _ => match float_fn(body) {
                Some(_) => Ok(Value::Float(bits)),
                None => Err(invalid_value()),
            },
        },
        Reply::Int(number) => match body {
            Builtin::FloatToInt => Ok(Value::Int(number)),
            _ => Err(invalid_value()),
        },
        Reply::Parsed(parsed) => match body {
            Builtin::FloatParse => match parsed {
                Ok(bits) => Ok(make_result(true, Value::Float(bits), &mut exec.heap)),
                Err(message) => Ok(text_result(exec, false, to_chars(message.as_str()))),
            },
            _ => Err(invalid_value()),
        },
        Reply::File(outcome) => match file_op(body) {
            None => Err(invalid_value()),
            Some(_) => Ok(finish_file(outcome, exec)),
        },
        Reply::Bool(_) => Err(invalid_value()),
    }
}

/// Makes of what a file operation gave the value of the function that
/// asked for it.
fn finish_file(outcome: FileOutcome, exec: &mut ExecSession) -> (v: Value)
    ensures
        spec_same_frames(old(exec), final(exec)),
        final(exec).output_stream == old(exec).output_stream,
        match outcome {
            FileOutcome::Done => spec_heap_effect(
                &old(exec).heap,
                Effect::NewResult(true, Value::Nil),
                &final(exec).heap,
                v,
            ),
            FileOutcome::Text(text) => spec_heap_effect(
                &old(exec).heap,
                Effect::NewResultText(true, text@),
                &final(exec).heap,
                v,
            ),
            FileOutcome::Bool(b) => v == Value::Bool(b) && *final(exec) == *old(exec),
            FileOutcome::List(names) => spec_heap_effect(
                &old(exec).heap,
                Effect::NewResultTexts(spec_names(names@)),
                &final(exec).heap,
                v,
            ),
            FileOutcome::Failed(message) => spec_heap_effect(
                &old(exec).heap,
                Effect::NewResultText(false, message@),
                &final(exec).heap,
                v,
            ),
        },
{
    match outcome {
        FileOutcome::Done => make_result(true, Value::Nil, &mut exec.heap),
        FileOutcome::Text(text) => text_result(exec, true, to_chars(text.as_str())),
        FileOutcome::Bool(b) => Value::Bool(b),
        FileOutcome::List(names) => {
            let mut pieces: Vec<Vec<char>> = Vec::new();
            let mut i: usize = 0;
            while i < names.len()
                invariant
                    i <= names.len(),
                    pieces@.len() == i,
                    forall|k: int| 0 <= k < i ==> (#[trigger] pieces@[k])@ == names@[k]@,
                decreases names.len() - i,
            {
                pieces.push(to_chars(names[i].as_str()));
                i = i + 1;
            }
            assert(spec_texts(pieces@) =~= spec_names(names@));
            let list = new_string_vector(&mut exec.heap, &pieces);
            make_result(true, list, &mut exec.heap)
        },
        FileOutcome::Failed(message) => text_result(exec, false, to_chars(message.as_str())),
    }
}

} // verus!
