//! Interpreter state: what parsing registers and what execution mutates.

use vstd::prelude::*;
use vstd::hash_map::StringHashMap;
use crate::builtin::{
    self, spec_builtin_functions, spec_free_signatures, spec_is_builtin_classes,
    DEFAULT_TYPES_COUNT, TYPEID_BOOL, TYPEID_DYN, TYPEID_FILE, TYPEID_FILESYSTEM, TYPEID_FLOAT,
    TYPEID_INT, TYPEID_MATH, TYPEID_NONE, TYPEID_RESULT, TYPEID_STRING, TYPEID_VEC,
};
use crate::class::ClassDefinition;
use crate::error::{Context, Error, ErrorKind};
use crate::function::Function;
use crate::heap::Heap;
use crate::variable::{Value, Variable};
use crate::FUNCTION_CALL_LIMIT;

verus! {

/// One failed call, recorded as the error travels outwards.
#[derive(Debug, Clone)]
pub struct BacktraceItem {
    pub name: String,
    pub line: usize,
    pub col: usize,
}

impl BacktraceItem {
    #[inline]
    pub fn new(name: &str, line_col: (usize, usize)) -> (item: Self)
        ensures
            item.name@ == name@,
            item.line == line_col.0,
            item.col == line_col.1,
    {
        let (line, col) = line_col;
        BacktraceItem { name: String::from_str(name), line, col }
    }
}

} // verus!

verus! {

/// How a call looks a function up on a class: on which class, whether as a
/// method of an instance, and whether the caller has private access.
#[derive(Debug, Clone)]
pub struct FnQueryOptions {
    pub associated_typeid: usize,
    pub member_only: bool,
    pub private_access: bool,
}

impl FnQueryOptions {
    #[inline]
    pub fn new(associated_typeid: usize, member_only: bool, private_access: bool) -> (o:
        FnQueryOptions)
        ensures
            o.associated_typeid == associated_typeid,
            o.member_only == member_only,
            o.private_access == private_access,
    {
        FnQueryOptions { associated_typeid, member_only, private_access }
    }
}

/// The name of a reserved type, the empty text for any other type-id.
pub open spec fn spec_default_typename(typeid: usize) -> Seq<char> {
    if typeid == TYPEID_DYN {
        "dyn"@
    } else if typeid == TYPEID_NONE {
        "none"@
    } else if typeid == TYPEID_INT {
        "int"@
    } else if typeid == TYPEID_FLOAT {
        "float"@
    } else if typeid == TYPEID_STRING {
        "string"@
    } else if typeid == TYPEID_BOOL {
        "bool"@
    } else if typeid == TYPEID_VEC {
        "Vec"@
    } else if typeid == TYPEID_RESULT {
        "Result"@
    } else if typeid == TYPEID_FILE {
        "File"@
    } else if typeid == TYPEID_FILESYSTEM {
        "Fs"@
    } else if typeid == TYPEID_MATH {
        "Math"@
    } else {
        Seq::empty()
    }
}

pub fn default_typename(typeid: usize) -> (s: &'static str)
    ensures
        s@ == spec_default_typename(typeid),
{
    if typeid == TYPEID_DYN {
        "dyn"
    } else if typeid == TYPEID_NONE {
        "none"
    } else if typeid == TYPEID_INT {
        "int"
    } else if typeid == TYPEID_FLOAT {
        "float"
    } else if typeid == TYPEID_STRING {
        "string"
    } else if typeid == TYPEID_BOOL {
        "bool"
    } else if typeid == TYPEID_VEC {
        "Vec"
    } else if typeid == TYPEID_RESULT {
        "Result"
    } else if typeid == TYPEID_FILE {
        "File"
    } else if typeid == TYPEID_FILESYSTEM {
        "Fs"
    } else if typeid == TYPEID_MATH {
        "Math"
    } else {
        proof {
            reveal_strlit("");
        }
        assert(""@ =~= Seq::<char>::empty());
        ""
    }
}

/// What parsing registers and execution only reads: the functions and
/// classes of the program, the names of its types, and the source text fed
/// so far.
pub struct ParseSession {
    pub function_store: StringHashMap<Function>,
    pub class_definitions: Vec<ClassDefinition>,
    pub type_names: Vec<String>,
    pub source_code: String,
    pub offset: usize,
}

/// `dyn` and `none` have no class.
pub const CLASSLESS_TYPES_COUNT: usize = 2;

impl ParseSession {
    /// The name of a type: a reserved name, or the name of the class that
    /// was declared under this type-id, or the empty text for an id that no
    /// type has.
    pub open spec fn spec_typename(&self, typeid: usize) -> Seq<char> {
        if typeid < DEFAULT_TYPES_COUNT {
            spec_default_typename(typeid)
        } else if typeid - DEFAULT_TYPES_COUNT < self.type_names@.len() {
            self.type_names@[typeid - DEFAULT_TYPES_COUNT]@
        } else {
            Seq::empty()
        }
    }

    /// Every class stands in the list of classes at the place of its
    /// type-id: the classes of the reserved types first, `int` at the front,
    /// then the classes of the program in the order of their declaration.
    pub open spec fn spec_wf(&self) -> bool {
        &&& self.class_definitions@.len() == self.type_names@.len() + DEFAULT_TYPES_COUNT
            - CLASSLESS_TYPES_COUNT
        &&& forall|i: int|
            0 <= i < self.class_definitions@.len() ==> (#[trigger] self.class_definitions@[i]).typeid
                == i + CLASSLESS_TYPES_COUNT
    }

    /// The type-id that the next class gets.
    pub open spec fn spec_next_typeid(&self) -> int {
        crate::parser::spec_plus(DEFAULT_TYPES_COUNT as int, self.type_names@.len() as int)
    }

    /// The table from type names to type-ids for the types below `n`,
    /// entered in the order of their ids.
    pub open spec fn spec_typemap(&self, n: int) -> Map<Seq<char>, usize>
        decreases n,
    {
        if n <= 0 {
            Map::empty()
        } else {
            self.spec_typemap(n - 1).insert(self.spec_typename((n - 1) as usize), (n - 1) as usize)
        }
    }

    /// The table of type names depends on the names of the classes alone.
    pub proof fn lemma_typemap(&self, other: &ParseSession, n: int)
        requires
            self.type_names == other.type_names,
        ensures
            self.spec_typemap(n) == other.spec_typemap(n),
        decreases n,
    {
        if n > 0 {
            self.lemma_typemap(other, n - 1);
        }
    }

    /// A session with the built-in functions and classes and no source.
    #[inline]
    pub fn new() -> (s: Self)
        ensures
            s.type_names@.len() == 0,
            s.source_code@.len() == 0,
            s.offset == 0,
            spec_free_signatures(s.function_store@) == spec_builtin_functions(),
            spec_is_builtin_classes(s.class_definitions@),
            s.spec_wf(),
    {
        let mut function_store = StringHashMap::new();
        builtin::load_builtin_functions(&mut function_store);
        let mut class_definitions = Vec::new();
        builtin::load_builtin_class_definitions(&mut class_definitions);
        ParseSession {
            function_store,
            class_definitions,
            type_names: Vec::new(),
            source_code: String::new(),
            offset: 0,
        }
    }

    /// Forgets the program and the source, and starts again with the
    /// built-in functions and classes.
    #[inline]
    pub fn clear(&mut self)
        ensures
            final(self).type_names@.len() == 0,
            final(self).source_code@.len() == 0,
            final(self).offset == 0,
            spec_free_signatures(final(self).function_store@) == spec_builtin_functions(),
            spec_is_builtin_classes(final(self).class_definitions@),
            final(self).spec_wf(),
    {
        self.function_store.clear();
        builtin::load_builtin_functions(&mut self.function_store);
        self.class_definitions.clear();
        builtin::load_builtin_class_definitions(&mut self.class_definitions);
        self.type_names.clear();
        self.source_code = String::new();
        self.offset = 0;
    }

    #[inline]
    pub fn add_typename(&mut self, typename: &str)
        ensures
            final(self).type_names@.len() == old(self).type_names@.len() + 1,
            final(self).type_names@.last()@ == typename@,
            forall|i: int|
                0 <= i < old(self).type_names@.len() ==> final(self).type_names@[i] == old(self).type_names@[i],
            final(self).function_store == old(self).function_store,
            final(self).class_definitions == old(self).class_definitions,
            final(self).source_code == old(self).source_code,
            final(self).offset == old(self).offset,
    {
        self.type_names.push(String::from_str(typename));
    }

    #[inline]
    pub fn get_typename(&self, typeid: usize) -> (s: String)
        ensures
            s@ == self.spec_typename(typeid),
    {
        if typeid < DEFAULT_TYPES_COUNT {
            String::from_str(default_typename(typeid))
        } else if typeid - DEFAULT_TYPES_COUNT < self.type_names.len() {
            self.type_names[typeid - DEFAULT_TYPES_COUNT].clone()
        } else {
            String::new()
        }
    }

    /// The table from type names to type-ids.
    #[inline]
    pub fn create_typemap(&self) -> (m: StringHashMap<usize>)
        ensures
            m@ == self.spec_typemap(self.spec_next_typeid()),
    {
        let mut result: StringHashMap<usize> = StringHashMap::new();
        let count = self.get_next_typeid();
        let mut typeid: usize = 0;
        while typeid < count
            invariant
                typeid <= count,
                count == self.spec_next_typeid(),
                result@ == self.spec_typemap(typeid as int),
            decreases count - typeid,
        {
            result.insert(self.get_typename(typeid), typeid);
            typeid = typeid + 1;
        }
        result
    }

    /// Registers a free function unless one of that name exists, and says
    /// whether it did.
    #[inline]
    pub fn add_function(&mut self, name: String, value: Function) -> (added: bool)
        ensures
            added == !old(self).function_store@.contains_key(name@),
            added ==> final(self).function_store@ == old(self).function_store@.insert(
                name@,
                value,
            ),
            !added ==> final(self).function_store@ == old(self).function_store@,
            final(self).class_definitions == old(self).class_definitions,
            final(self).type_names == old(self).type_names,
            final(self).source_code == old(self).source_code,
            final(self).offset == old(self).offset,
    {
        if self.function_store.contains_key(name.as_str()) {
            false
        } else {
            self.function_store.insert(name, value);
            true
        }
    }

    /// The class of a type-id, where the type has one.
    pub open spec fn spec_class(&self, typeid: usize) -> Option<ClassDefinition> {
        if typeid >= CLASSLESS_TYPES_COUNT && typeid - CLASSLESS_TYPES_COUNT
            < self.class_definitions@.len() {
            Some(self.class_definitions@[typeid - CLASSLESS_TYPES_COUNT])
        } else {
            None
        }
    }

    /// The function that a call reaches, if it reaches one. Without query
    /// options it is the free function of that name. With them it is the
    /// function of that name of the class of the given type, provided it is
    /// of the form asked for, a method or a function of the class, and is
    /// public or the caller has private access.
    pub open spec fn spec_resolve(&self, name: Seq<char>, query_options: Option<FnQueryOptions>) -> Option<
        Function,
    > {
        match query_options {
            None => if self.function_store@.contains_key(name) {
                Some(self.function_store@[name])
            } else {
                None
            },
            Some(options) => match self.spec_class(options.associated_typeid) {
                None => None,
                Some(class) => if class.spec_has_function(name, options.member_only) && (
                class.function_definitions@[name].is_public || options.private_access) {
                    Some(class.function_definitions@[name].function)
                } else {
                    None
                },
            },
        }
    }

    /// Resolves a function for a call. Without query options the free
    /// functions are searched. With them the function is looked up on the
    /// class of the given type, as [`ClassDefinition::get_function`] does; a
    /// type without a class has no functions.
    #[inline]
    pub fn get_function(&self, name: &str, query_options: Option<FnQueryOptions>) -> (r: Result<
        &Function,
        ErrorKind,
    >)
        ensures
            match self.spec_resolve(name@, query_options) {
                Some(function) => r matches Ok(f) && *f == function,
                None => r matches Err(kind) && (kind is FunctionNotFound
                    || kind is MemberFunctionIsPrivate),
            },
            match query_options {
                None => if self.function_store@.contains_key(name@) {
                    r matches Ok(f) && *f == self.function_store@[name@]
                } else {
                    r matches Err(ErrorKind::FunctionNotFound)
                },
                Some(options) => match self.spec_class(options.associated_typeid) {
                    None => r matches Err(ErrorKind::FunctionNotFound),
                    Some(class) => class.spec_lookup_is(
                        name@,
                        options.member_only,
                        options.private_access,
                        r,
                    ),
                },
            },
    {
        match query_options {
            Some(options) => {
                if options.associated_typeid >= CLASSLESS_TYPES_COUNT && options.associated_typeid
                    - CLASSLESS_TYPES_COUNT < self.class_definitions.len() {
                    self.class_definitions[options.associated_typeid
                        - CLASSLESS_TYPES_COUNT].get_function(
                        name,
                        options.member_only,
                        options.private_access,
                    )
                } else {
                    Err(ErrorKind::FunctionNotFound)
                }
            },
            None => match self.function_store.get(name) {
                Some(f) => Ok(f),
                None => Err(ErrorKind::FunctionNotFound),
            },
        }
    }

    #[inline]
    pub fn get_next_typeid(&self) -> (id: usize)
        ensures
            id == self.spec_next_typeid(),
    {
        crate::parser::plus(DEFAULT_TYPES_COUNT, self.type_names.len())
    }

    /// Registers a class under the next type-id.
    #[inline]
    pub fn add_class_definition(&mut self, class_name: String, class_definition: ClassDefinition)
        requires
            class_definition.typeid == old(self).spec_next_typeid(),
        ensures
            final(self).type_names@ == old(self).type_names@.push(class_name),
            final(self).class_definitions@ == old(self).class_definitions@.push(class_definition),
            old(self).spec_wf() && old(self).spec_next_typeid() < usize::MAX ==> final(self).spec_wf(),
            final(self).function_store == old(self).function_store,
            final(self).source_code == old(self).source_code,
            final(self).offset == old(self).offset,
    {
        self.type_names.push(class_name);
        self.class_definitions.push(class_definition);
    }

    #[inline]
    pub fn get_class_definition(&self, typeid: usize) -> (r: Option<&ClassDefinition>)
        ensures
            match r {
                Some(c) => self.spec_class(typeid) == Some(*c),
                None => self.spec_class(typeid) is None,
            },
    {
        if typeid >= CLASSLESS_TYPES_COUNT && typeid - CLASSLESS_TYPES_COUNT
            < self.class_definitions.len() {
            Some(&self.class_definitions[typeid - CLASSLESS_TYPES_COUNT])
        } else {
            None
        }
    }

    /// The source buffer after `input` is fed: the old text, then the input,
    /// then a line break unless the input ends with one.
    pub open spec fn spec_appended(source: Seq<char>, input: Seq<char>) -> Seq<char> {
        if input.len() > 0 && input.last() == '\n' {
            source + input
        } else {
            source + input + seq!['\n']
        }
    }

    /// Adds `input` to the source buffer, and keeps as offset where it
    /// starts there.
    #[inline]
    pub fn append_source_code(&mut self, input: &str)
        ensures
            final(self).source_code@ == Self::spec_appended(old(self).source_code@, input@),
            final(self).offset == if old(self).source_code@.len() > 0 {
                old(self).source_code@.len() as usize
            } else {
                old(self).offset
            },
            final(self).function_store == old(self).function_store,
            final(self).class_definitions == old(self).class_definitions,
            final(self).type_names == old(self).type_names,
    {
        let length = self.source_code.as_str().unicode_len();
        if length > 0 {
            self.offset = length;
        }
        self.source_code.append(input);
        let n = input.unicode_len();
        if !(n > 0 && input.get_char(n - 1) == '\n') {
            self.source_code.append("\n");
            proof {
                reveal_strlit("\n");
            }
            assert("\n"@ =~= seq!['\n']);
        }
    }

    #[inline]
    pub fn get_source_code(&self) -> (s: &str)
        ensures
            s@ == self.source_code@,
    {
        self.source_code.as_str()
    }

    #[inline]
    pub fn get_source_code_offset(&self) -> (o: usize)
        ensures
            o == self.offset,
    {
        self.offset
    }

    /// Length of the source buffer in characters.
    #[inline]
    pub fn get_source_code_len(&self) -> (n: usize)
        ensures
            n == self.source_code@.len(),
    {
        self.source_code.as_str().unicode_len()
    }
}

} // verus!

verus! {

/// What execution mutates: the variables, the objects, the call depth, the
/// backtrace of the error on its way out, and the text printed so far.
pub struct ExecSession {
    pub output_stream: String,
    pub global_scope: StringHashMap<Variable>,
    pub local_scopes: Vec<StringHashMap<Variable>>,
    pub call_count: usize,
    pub backtrace: Vec<BacktraceItem>,
    pub heap: Heap,
}

impl ExecSession {
    #[inline]
    pub fn new() -> (s: Self)
        ensures
            s.output_stream@.len() == 0,
            s.global_scope@ == Map::<Seq<char>, Variable>::empty(),
            s.local_scopes@.len() == 0,
            s.call_count == 0,
            s.backtrace@.len() == 0,
            s.heap.strings@.len() == 0,
            s.heap.vectors@.len() == 0,
            s.heap.instances@.len() == 0,
    {
        ExecSession {
            output_stream: String::new(),
            global_scope: StringHashMap::new(),
            local_scopes: Vec::new(),
            call_count: 0,
            backtrace: Vec::new(),
            heap: Heap::new(),
        }
    }

    #[inline]
    pub fn clear(&mut self)
        ensures
            final(self).output_stream@.len() == 0,
            final(self).global_scope@ == Map::<Seq<char>, Variable>::empty(),
            final(self).local_scopes@.len() == 0,
            final(self).call_count == 0,
            final(self).backtrace@.len() == 0,
            final(self).heap.strings@.len() == 0,
            final(self).heap.vectors@.len() == 0,
            final(self).heap.instances@.len() == 0,
    {
        self.output_stream = String::new();
        self.global_scope.clear();
        self.local_scopes.clear();
        self.call_count = 0;
        self.backtrace.clear();
        self.heap.clear();
    }

    /// The scope in which names are looked up and bound: the innermost local
    /// scope where a function is running, the global scope otherwise.
    pub open spec fn spec_scope(&self) -> Map<Seq<char>, Variable> {
        if self.local_scopes@.len() > 0 {
            self.local_scopes@.last()@
        } else {
            self.global_scope@
        }
    }

    /// Whether nothing but the current scope differs between two states of
    /// the session.
    pub open spec fn spec_same_but_scope(before: &ExecSession, after: &ExecSession) -> bool {
        &&& after.local_scopes@.len() == before.local_scopes@.len()
        &&& before.local_scopes@.len() > 0 ==> after.global_scope == before.global_scope
            && after.local_scopes@.drop_last() == before.local_scopes@.drop_last()
        &&& after.output_stream == before.output_stream
        &&& after.call_count == before.call_count
        &&& after.backtrace == before.backtrace
        &&& after.heap == before.heap
    }

    /// Whether `after` is `before` with the name bound to the variable in
    /// the current scope, and nothing else changed.
    pub open spec fn spec_bound(
        before: &ExecSession,
        after: &ExecSession,
        name: Seq<char>,
        variable: Variable,
    ) -> bool {
        after.spec_scope() == before.spec_scope().insert(name, variable)
            && Self::spec_same_but_scope(before, after)
    }

    #[inline]
    pub fn get_variable(&self, var_name: &str) -> (r: Option<&Variable>)
        ensures
            match r {
                Some(v) => self.spec_scope().contains_key(var_name@) && *v
                    == self.spec_scope()[var_name@],
                None => !self.spec_scope().contains_key(var_name@),
            },
    {
        let len = self.local_scopes.len();
        if len > 0 {
            self.local_scopes[len - 1].get(var_name)
        } else {
            self.global_scope.get(var_name)
        }
    }

    /// Binds a name in the current scope; a variable that the scope holds
    /// under this name is replaced.
    #[inline]
    pub fn add_variable(&mut self, var_name: &str, var: Variable)
        ensures
            Self::spec_bound(old(self), final(self), var_name@, var),
            final(self).spec_scope() == old(self).spec_scope().insert(var_name@, var),
            final(self).local_scopes@.len() == old(self).local_scopes@.len(),
            old(self).local_scopes@.len() > 0 ==> final(self).global_scope == old(self).global_scope && final(self).local_scopes@.drop_last() == old(self).local_scopes@.drop_last(),
            final(self).output_stream == old(self).output_stream,
            final(self).call_count == old(self).call_count,
            final(self).backtrace == old(self).backtrace,
            final(self).heap == old(self).heap,
    {
        match self.local_scopes.pop() {
            Some(top) => {
                let mut top = top;
                top.insert(String::from_str(var_name), var);
                self.local_scopes.push(top);
                assert(self.local_scopes@.drop_last() =~= old(self).local_scopes@.drop_last());
            },
            None => {
                self.global_scope.insert(String::from_str(var_name), var);
            },
        }
    }

    #[inline]
    pub fn variable_exists(&self, var_name: &str) -> (b: bool)
        ensures
            b == self.spec_scope().contains_key(var_name@),
    {
        let len = self.local_scopes.len();
        if len > 0 {
            self.local_scopes[len - 1].contains_key(var_name)
        } else {
            self.global_scope.contains_key(var_name)
        }
    }

    /// Whether `r` is what assigning `value` to the variable `var_name`
    /// owes, given the scope before: a name that is not bound is not found;
    /// a variable that does not accept the value refuses it, naming its own
    /// type and the value's.
    pub open spec fn spec_assign_is(
        scope: Map<Seq<char>, Variable>,
        var_name: Seq<char>,
        value: Value,
        session: &ParseSession,
        r: Result<(), ErrorKind>,
    ) -> bool {
        if !scope.contains_key(var_name) {
            r matches Err(ErrorKind::IdentifierNotFound)
        } else if !scope[var_name].spec_accepts(value) {
            r matches Err(ErrorKind::InvalidAssignment(t1, t2)) && t1@ == session.spec_typename(
                scope[var_name].value.spec_typeid(),
            ) && t2@ == session.spec_typename(value.spec_typeid())
        } else {
            r is Ok
        }
    }

    /// Assigns to a variable of the current scope. A variable that is not
    /// dynamic keeps its type: it takes only a value of the type it holds.
    /// An assignment that fails changes nothing.
    pub fn assign_variable(&mut self, var_name: &str, value: Value, session: &ParseSession) -> (r:
        Result<(), ErrorKind>)
        ensures
            Self::spec_assign_is(old(self).spec_scope(), var_name@, value, session, r),
            Self::spec_same_but_scope(old(self), final(self)),
            r is Ok ==> final(self).spec_scope() == old(self).spec_scope().insert(
                var_name@,
                Variable { value, is_dynamic: old(self).spec_scope()[var_name@].is_dynamic },
            ),
            r is Err ==> final(self).spec_scope() == old(self).spec_scope(),
            final(self).local_scopes@.len() == old(self).local_scopes@.len(),
            final(self).output_stream == old(self).output_stream,
            final(self).call_count == old(self).call_count,
            final(self).backtrace == old(self).backtrace,
            final(self).heap == old(self).heap,
    {
        let found = match self.get_variable(var_name) {
            Some(v) => Some(*v),
            None => None,
        };
        match found {
            None => Err(ErrorKind::IdentifierNotFound),
            Some(variable) => {
                if variable.accepts(&value) {
                    self.add_variable(var_name, Variable::new(value, variable.is_dynamic()));
                    Ok(())
                } else {
                    Err(
                        ErrorKind::InvalidAssignment(
                            session.get_typename(variable.typeid()),
                            session.get_typename(value.typeid()),
                        ),
                    )
                }
            },
        }
    }

    #[inline]
    pub fn add_backtrace(&mut self, backtrace_item: BacktraceItem)
        ensures
            final(self).backtrace@ == old(self).backtrace@.push(backtrace_item),
            final(self).output_stream == old(self).output_stream,
            final(self).global_scope == old(self).global_scope,
            final(self).local_scopes == old(self).local_scopes,
            final(self).call_count == old(self).call_count,
            final(self).heap == old(self).heap,
    {
        self.backtrace.push(backtrace_item)
    }

    #[inline]
    pub fn get_backtrace(&self) -> (b: &Vec<BacktraceItem>)
        ensures
            *b == self.backtrace,
    {
        &self.backtrace
    }

    #[inline]
    pub fn clear_backtrace(&mut self)
        ensures
            final(self).backtrace@.len() == 0,
            final(self).output_stream == old(self).output_stream,
            final(self).global_scope == old(self).global_scope,
            final(self).local_scopes == old(self).local_scopes,
            final(self).call_count == old(self).call_count,
            final(self).heap == old(self).heap,
    {
        self.backtrace.clear();
    }

    #[inline]
    pub fn add_scope(&mut self, scope: StringHashMap<Variable>)
        ensures
            final(self).local_scopes@ == old(self).local_scopes@.push(scope),
            final(self).output_stream == old(self).output_stream,
            final(self).global_scope == old(self).global_scope,
            final(self).call_count == old(self).call_count,
            final(self).backtrace == old(self).backtrace,
            final(self).heap == old(self).heap,
    {
        self.local_scopes.push(scope);
    }

    /// Drops the innermost local scope, if there is one.
    #[inline]
    pub fn pop_scope(&mut self)
        ensures
            final(self).local_scopes@ == if old(self).local_scopes@.len() > 0 {
                old(self).local_scopes@.drop_last()
            } else {
                old(self).local_scopes@
            },
            final(self).output_stream == old(self).output_stream,
            final(self).global_scope == old(self).global_scope,
            final(self).call_count == old(self).call_count,
            final(self).backtrace == old(self).backtrace,
            final(self).heap == old(self).heap,
    {
        let ghost before = self.local_scopes@;
        match self.local_scopes.pop() {
            Some(_) => {
                assert(self.local_scopes@ =~= before.drop_last());
            },
            None => {},
        }
    }

    /// Counts one more call in progress. At the limit the count stays as it
    /// is and the call fails.
    #[inline]
    pub fn increment_call_count(&mut self) -> (r: Result<(), Error>)
        ensures
            old(self).call_count < FUNCTION_CALL_LIMIT ==> r is Ok && final(self).call_count == old(self).call_count + 1,
            old(self).call_count >= FUNCTION_CALL_LIMIT ==> (r matches Err(e) && e.kind
                is IterationLimitReached && e.pos == 0 && e.context == (Context { start: 0, end: 0 }))
                && final(self).call_count == old(self).call_count,
            old(self).call_count <= FUNCTION_CALL_LIMIT ==> final(self).call_count
                <= FUNCTION_CALL_LIMIT,
            final(self).output_stream == old(self).output_stream,
            final(self).global_scope == old(self).global_scope,
            final(self).local_scopes == old(self).local_scopes,
            final(self).backtrace == old(self).backtrace,
            final(self).heap == old(self).heap,
    {
        if self.call_count >= FUNCTION_CALL_LIMIT {
            Err(Error::new(Context { start: 0, end: 0 }, 0, ErrorKind::IterationLimitReached))
        } else {
            self.call_count += 1;
            Ok(())
        }
    }

    /// Counts one call in progress less; at zero the count stays there.
    #[inline]
    pub fn decrement_call_count(&mut self)
        ensures
            final(self).call_count == if old(self).call_count > 0 {
                (old(self).call_count - 1) as usize
            } else {
                0
            },
            final(self).output_stream == old(self).output_stream,
            final(self).global_scope == old(self).global_scope,
            final(self).local_scopes == old(self).local_scopes,
            final(self).backtrace == old(self).backtrace,
            final(self).heap == old(self).heap,
    {
        if self.call_count > 0 {
            self.call_count -= 1;
        }
    }

    /// Appends text to what was printed.
    pub fn write(&mut self, text: &str)
        ensures
            final(self).output_stream@ == old(self).output_stream@ + text@,
            final(self).global_scope == old(self).global_scope,
            final(self).local_scopes == old(self).local_scopes,
            final(self).call_count == old(self).call_count,
            final(self).backtrace == old(self).backtrace,
            final(self).heap == old(self).heap,
    {
        self.output_stream.append(text);
    }

    /// Hands out what was printed since the last call, and forgets it.
    pub fn take_output(&mut self) -> (text: String)
        ensures
            text == old(self).output_stream,
            final(self).output_stream@.len() == 0,
            final(self).global_scope == old(self).global_scope,
            final(self).local_scopes == old(self).local_scopes,
            final(self).call_count == old(self).call_count,
            final(self).backtrace == old(self).backtrace,
            final(self).heap == old(self).heap,
    {
        let mut text = String::new();
        core::mem::swap(&mut self.output_stream, &mut text);
        text
    }
}

/// The whole state of an interpreter.
pub struct Session {
    pub exec_session: ExecSession,
    pub parse_session: ParseSession,
}

impl Session {
    #[inline]
    pub fn new() -> (s: Self)
        ensures
            s.exec_session.call_count == 0,
            s.exec_session.local_scopes@.len() == 0,
            s.exec_session.global_scope@ == Map::<Seq<char>, Variable>::empty(),
            s.exec_session.backtrace@.len() == 0,
            s.exec_session.output_stream@.len() == 0,
            s.exec_session.heap.strings@.len() == 0,
            s.exec_session.heap.vectors@.len() == 0,
            s.exec_session.heap.instances@.len() == 0,
            s.parse_session.type_names@.len() == 0,
            s.parse_session.source_code@.len() == 0,
            spec_free_signatures(s.parse_session.function_store@) == spec_builtin_functions(),
            spec_is_builtin_classes(s.parse_session.class_definitions@),
            s.parse_session.spec_wf(),
    {
        Session { exec_session: ExecSession::new(), parse_session: ParseSession::new() }
    }

    /// Forgets every class, function and variable of the program, and the
    /// source fed so far.
    #[inline]
    pub fn clear(&mut self)
        ensures
            final(self).exec_session.call_count == 0,
            final(self).exec_session.local_scopes@.len() == 0,
            final(self).exec_session.global_scope@ == Map::<Seq<char>, Variable>::empty(),
            final(self).exec_session.backtrace@.len() == 0,
            final(self).exec_session.output_stream@.len() == 0,
            final(self).exec_session.heap.strings@.len() == 0,
            final(self).exec_session.heap.vectors@.len() == 0,
            final(self).exec_session.heap.instances@.len() == 0,
            final(self).parse_session.type_names@.len() == 0,
            final(self).parse_session.source_code@.len() == 0,
            spec_free_signatures(final(self).parse_session.function_store@)
                == spec_builtin_functions(),
            spec_is_builtin_classes(final(self).parse_session.class_definitions@),
            final(self).parse_session.spec_wf(),
    {
        self.exec_session.clear();
        self.parse_session.clear();
    }
}

/// What the user is shown for an error that stopped an input: the error as
/// text, with the source marked and with the backtrace, which the session
/// then forgets. Nothing else of the session changes.
pub fn render_failure(session: &mut Session, e: &Error) -> (s: String)
    ensures
        s@ == e.spec_render(
            old(session).parse_session.source_code@,
            old(session).exec_session.backtrace@,
        ),
        final(session).exec_session.backtrace@.len() == 0,
        final(session).parse_session == old(session).parse_session,
        final(session).exec_session.output_stream == old(session).exec_session.output_stream,
        final(session).exec_session.global_scope == old(session).exec_session.global_scope,
        final(session).exec_session.local_scopes == old(session).exec_session.local_scopes,
        final(session).exec_session.call_count == old(session).exec_session.call_count,
        final(session).exec_session.heap == old(session).exec_session.heap,
{
    let text = e.print_to_string(
        session.parse_session.get_source_code(),
        session.exec_session.get_backtrace(),
    );
    session.exec_session.clear_backtrace();
    text
}

} // verus!
