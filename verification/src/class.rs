//! Class definitions and class instances.

use vstd::prelude::*;
use vstd::hash_map::StringHashMap;
use crate::builtin::Builtin;
use crate::error::{Context, ErrorKind};
use crate::expression::Expression;
use crate::function::{BuiltinFunction, Function};
use crate::session::ParseSession;
use crate::variable::{AnnotatedIdentifier, Value, Variable};

verus! {

#[derive(Debug)]
pub struct PropertyDefinition {
    pub is_public: bool,
    pub id: AnnotatedIdentifier,
    pub init_expression: Expression,
    pub context: Context,
    pub assign_pos: usize,
}

impl PropertyDefinition {
    #[inline]
    pub fn new(
        is_public: bool,
        id: AnnotatedIdentifier,
        init_expression: Expression,
        context: Context,
        assign_pos: usize,
    ) -> (p: PropertyDefinition)
        ensures
            p.is_public == is_public,
            p.id == id,
            p.init_expression == init_expression,
            p.context == context,
            p.assign_pos == assign_pos,
    {
        PropertyDefinition { is_public, id, init_expression, context, assign_pos }
    }
}

/// A function of a class: `uses_self` tells a method, called on an instance,
/// from a function called on the class itself.
#[derive(Debug)]
pub struct ClassFunction {
    pub function: Function,
    pub uses_self: bool,
    pub is_public: bool,
}

impl ClassFunction {
    #[inline]
    pub fn new(function: Function, uses_self: bool, is_public: bool) -> (f: ClassFunction)
        ensures
            f.function == function,
            f.uses_self == uses_self,
            f.is_public == is_public,
    {
        ClassFunction { function, uses_self, is_public }
    }
}

/// Names and type-ids of a parameter list.
pub open spec fn spec_parameters(arguments: Seq<AnnotatedIdentifier>) -> Seq<(Seq<char>, usize)> {
    Seq::new(arguments.len(), |i: int| (arguments[i].name@, arguments[i].typeid))
}

/// What a call needs to know of a class function: which built-in operation
/// it performs, if it is one, its parameters, whether it is a method, and
/// whether it is public.
pub open spec fn spec_signature(f: ClassFunction) -> (
    Option<Builtin>,
    Seq<(Seq<char>, usize)>,
    bool,
    bool,
) {
    (
        match f.function {
            Function::BuiltinFunction(b) => Some(b.body),
            Function::UserFunction(_) => None,
        },
        spec_parameters(f.function.spec_arguments()@),
        f.uses_self,
        f.is_public,
    )
}

/// The signatures of a table of class functions, by name.
pub open spec fn spec_signatures(functions: Map<Seq<char>, ClassFunction>) -> Map<
    Seq<char>,
    (Option<Builtin>, Seq<(Seq<char>, usize)>, bool, bool),
> {
    Map::new(|name: Seq<char>| functions.contains_key(name), |name: Seq<char>| spec_signature(functions[name]))
}

pub struct ClassDefinition {
    pub property_definitions: Vec<PropertyDefinition>,
    pub function_definitions: StringHashMap<ClassFunction>,
    pub typeid: usize,
    pub context: Context,
}

impl ClassDefinition {
    /// A class of the program. Besides the functions given, it has the
    /// public constructor `new`, which takes the constructor parameters.
    #[inline]
    pub fn new(
        constructor_parameters: Vec<AnnotatedIdentifier>,
        property_definitions: Vec<PropertyDefinition>,
        function_definitions: StringHashMap<ClassFunction>,
        typeid: usize,
        context: Context,
    ) -> (c: ClassDefinition)
        ensures
            c.property_definitions == property_definitions,
            c.typeid == typeid,
            c.context == context,
            c.function_definitions@ == function_definitions@.insert(
                "new"@,
                ClassFunction {
                    function: Function::BuiltinFunction(
                        BuiltinFunction {
                            arguments: constructor_parameters,
                            body: Builtin::ClassConstructor,
                        },
                    ),
                    uses_self: false,
                    is_public: true,
                },
            ),
    {
        let mut function_definitions = function_definitions;
        function_definitions.insert(
            String::from_str("new"),
            ClassFunction::new(
                Function::BuiltinFunction(
                    BuiltinFunction::new(constructor_parameters, Builtin::ClassConstructor),
                ),
                false,
                true,
            ),
        );
        ClassDefinition { property_definitions, function_definitions, typeid, context }
    }

    /// A class with the given functions and nothing else.
    #[inline]
    pub fn new_without_constructor(
        function_definitions: StringHashMap<ClassFunction>,
        typeid: usize,
    ) -> (c: ClassDefinition)
        ensures
            c.property_definitions@.len() == 0,
            c.function_definitions == function_definitions,
            c.typeid == typeid,
            c.context == (Context { start: 0, end: 0 }),
    {
        ClassDefinition {
            property_definitions: Vec::new(),
            function_definitions,
            typeid,
            context: Context { start: 0, end: 0 },
        }
    }

    #[inline]
    pub fn property_definitions(&self) -> (p: &Vec<PropertyDefinition>)
        ensures
            *p == self.property_definitions,
    {
        &self.property_definitions
    }

    /// Whether a call may reach the function `name`: it exists and is of
    /// the form asked for, a method where `is_member` and a function of the
    /// class otherwise.
    pub open spec fn spec_has_function(&self, name: Seq<char>, is_member: bool) -> bool {
        self.function_definitions@.contains_key(name)
            && self.function_definitions@[name].uses_self == is_member
    }

    /// Whether `r` is what a lookup of the function `name` owes: a function
    /// that does not exist, or exists in the other form, is not found; one
    /// that is not public is given only to a caller with private access.
    pub open spec fn spec_lookup_is(
        &self,
        name: Seq<char>,
        is_member: bool,
        private_access: bool,
        r: Result<&Function, ErrorKind>,
    ) -> bool {
        if !self.spec_has_function(name, is_member) {
            r matches Err(ErrorKind::FunctionNotFound)
        } else if !self.function_definitions@[name].is_public && !private_access {
            r matches Err(ErrorKind::MemberFunctionIsPrivate(n)) && n@ == name
        } else {
            r matches Ok(f) && *f == self.function_definitions@[name].function
        }
    }

    /// Looks a function up for a call.
    #[inline]
    pub fn get_function(&self, name: &str, is_member: bool, private_access: bool) -> (r: Result<
        &Function,
        ErrorKind,
    >)
        ensures
            self.spec_lookup_is(name@, is_member, private_access, r),
    {
        match self.function_definitions.get(name) {
            Some(classfunc) => {
                if classfunc.uses_self != is_member {
                    Err(ErrorKind::FunctionNotFound)
                } else if !classfunc.is_public && !private_access {
                    Err(ErrorKind::MemberFunctionIsPrivate(String::from_str(name)))
                } else {
                    Ok(&classfunc.function)
                }
            },
            None => Err(ErrorKind::FunctionNotFound),
        }
    }

    #[inline]
    pub fn typeid(&self) -> (id: usize)
        ensures
            id == self.typeid,
    {
        self.typeid
    }

    #[inline]
    pub fn context(&self) -> (c: Context)
        ensures
            c == self.context,
    {
        self.context
    }
}

/// A property of an instance: its variable, and whether code outside the
/// class may reach it.
#[derive(Debug, Clone, Copy, PartialEq, Eq, Structural)]
pub struct Property {
    pub var: Variable,
    pub is_public: bool,
}

impl Property {
    #[inline]
    pub fn new(var: Variable, is_public: bool) -> (p: Property)
        ensures
            p.var == var,
            p.is_public == is_public,
    {
        Property { var, is_public }
    }
}

/// Whether `r`, with the properties of an instance of type `typeid` going
/// from `before` to `after`, is what assigning `value` to the property `name`
/// owes. The property must exist and be reachable, and it takes the value
/// only where its variable accepts it: a property that is not dynamic keeps
/// its type. A refused assignment changes nothing.
pub open spec fn spec_property_set(
    typeid: usize,
    before: Map<Seq<char>, Property>,
    after: Map<Seq<char>, Property>,
    name: Seq<char>,
    private_access: bool,
    value: Value,
    session: &ParseSession,
    r: Result<(), ErrorKind>,
) -> bool {
    if !before.contains_key(name) {
        after == before && (r matches Err(ErrorKind::HasNoMember(t, n)) && t@
            == session.spec_typename(typeid) && n@ == name)
    } else if !(before[name].is_public || private_access) {
        after == before && (r matches Err(ErrorKind::MemberIsPrivate(n)) && n@ == name)
    } else if !before[name].var.spec_accepts(value) {
        after == before && (r matches Err(ErrorKind::InvalidAssignment(t1, t2)) && t1@
            == session.spec_typename(before[name].var.value.spec_typeid()) && t2@
            == session.spec_typename(value.spec_typeid()))
    } else {
        r is Ok && after == before.insert(
            name,
            Property {
                var: Variable { value, is_dynamic: before[name].var.is_dynamic },
                is_public: before[name].is_public,
            },
        )
    }
}

pub struct ClassInstance {
    pub typeid: usize,
    pub properties: StringHashMap<Property>,
}

impl ClassInstance {
    #[inline]
    pub fn new(typeid: usize) -> (c: ClassInstance)
        ensures
            c.typeid == typeid,
            c.properties@ == Map::<Seq<char>, Property>::empty(),
    {
        ClassInstance { typeid, properties: StringHashMap::new() }
    }

    #[inline]
    pub fn typeid(&self) -> (id: usize)
        ensures
            id == self.typeid,
    {
        self.typeid
    }

    #[inline]
    pub fn add_property(&mut self, name: &str, var: Variable, is_public: bool)
        ensures
            final(self).typeid == old(self).typeid,
            final(self).properties@ == old(self).properties@.insert(
                name@,
                Property { var, is_public },
            ),
    {
        self.properties.insert(String::from_str(name), Property::new(var, is_public));
    }

    /// Whether a property may be reached: it is public, or the code that
    /// asks has private access.
    pub open spec fn spec_reachable(&self, name: Seq<char>, private_access: bool) -> bool {
        self.properties@.contains_key(name) && (self.properties@[name].is_public || private_access)
    }

    /// Reads a property.
    #[inline]
    pub fn get_property(&self, name: &str, private_access: bool, parse_session: &ParseSession) -> (r:
        Result<&Variable, ErrorKind>)
        ensures
            !self.properties@.contains_key(name@) ==> (r matches Err(ErrorKind::HasNoMember(t, n))
                && t@ == parse_session.spec_typename(self.typeid) && n@ == name@),
            self.properties@.contains_key(name@) && !self.spec_reachable(name@, private_access)
                ==> (r matches Err(ErrorKind::MemberIsPrivate(n)) && n@ == name@),
            self.spec_reachable(name@, private_access) ==> (r matches Ok(v) && *v
                == self.properties@[name@].var),
    {
        match self.properties.get(name) {
            Some(prop) => {
                if !prop.is_public && !private_access {
                    Err(ErrorKind::MemberIsPrivate(String::from_str(name)))
                } else {
                    Ok(&prop.var)
                }
            },
            None => Err(
                ErrorKind::HasNoMember(
                    parse_session.get_typename(self.typeid()),
                    String::from_str(name),
                ),
            ),
        }
    }

    /// Assigns to a property. The property must exist and be reachable, and
    /// it takes the value only where its variable accepts it: a property that
    /// is not dynamic keeps its type. A refused assignment changes nothing.
    #[inline]
    pub fn set_property(
        &mut self,
        name: &str,
        private_access: bool,
        value: Value,
        session: &ParseSession,
    ) -> (r: Result<(), ErrorKind>)
        ensures
            final(self).typeid == old(self).typeid,
            spec_property_set(
                old(self).typeid,
                old(self).properties@,
                final(self).properties@,
                name@,
                private_access,
                value,
                session,
                r,
            ),
            !old(self).properties@.contains_key(name@) ==> (r matches Err(
                ErrorKind::HasNoMember(t, n),
            ) && t@ == session.spec_typename(old(self).typeid) && n@ == name@),
            old(self).properties@.contains_key(name@) && !old(self).spec_reachable(
                name@,
                private_access,
            ) ==> (r matches Err(ErrorKind::MemberIsPrivate(n)) && n@ == name@),
            old(self).spec_reachable(name@, private_access) && !old(self).properties@[name@].var.spec_accepts(value) ==> (r matches Err(
                ErrorKind::InvalidAssignment(t1, t2),
            ) && t1@ == session.spec_typename(old(self).properties@[name@].var.value.spec_typeid())
                && t2@ == session.spec_typename(value.spec_typeid())),
            old(self).spec_reachable(name@, private_access) && old(self).properties@[name@].var.spec_accepts(value) ==> r is Ok,
            r is Ok ==> final(self).properties@ == old(self).properties@.insert(
                name@,
                Property {
                    var: Variable { value, is_dynamic: old(self).properties@[name@].var.is_dynamic },
                    is_public: old(self).properties@[name@].is_public,
                },
            ),
            r is Err ==> final(self).properties@ == old(self).properties@,
    {
        let found = match self.properties.get(name) {
            Some(prop) => Some(*prop),
            None => None,
        };
        match found {
            Some(prop) => {
                if !prop.is_public && !private_access {
                    return Err(ErrorKind::MemberIsPrivate(String::from_str(name)));
                }
                if prop.var.accepts(&value) {
                    let var = Variable::new(value, prop.var.is_dynamic());
                    self.properties.insert(String::from_str(name), Property::new(var, prop.is_public));
                    Ok(())
                } else {
                    Err(
                        ErrorKind::InvalidAssignment(
                            session.get_typename(prop.var.get_value().typeid()),
                            session.get_typename(value.typeid()),
                        ),
                    )
                }
            },
            None => Err(
                ErrorKind::HasNoMember(session.get_typename(self.typeid), String::from_str(name)),
            ),
        }
    }
}

} // verus!
