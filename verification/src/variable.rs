//! Values, variables and annotated identifiers.

use vstd::prelude::*;
use crate::builtin::{
    TYPEID_BOOL, TYPEID_FLOAT, TYPEID_INT, TYPEID_NONE, TYPEID_STRING, TYPEID_VEC,
};
use crate::heap::Heap;
use crate::session::ParseSession;

verus! {

/// A value of the language. Numbers, booleans and `none` are held directly.
/// Strings, vectors and class instances live in the [`crate::heap::Heap`] and
/// are held by their index there, so that every copy of such a value names
/// the same object. A float is held as the bit pattern of an IEEE-754 double.
#[derive(Debug, Clone, Copy, PartialEq, Eq, Structural)]
pub enum Value {
    /// The value `none`.
    Nil,
    Int(i64),
    Float(u64),
    Str(usize),
    Bool(bool),
    Class { object: usize, typeid: usize },
    Vector(usize),
}

impl Value {
    /// The type-id of a value: the reserved id of its variant, and for a
    /// class instance the id of its class.
    pub open spec fn spec_typeid(self) -> usize {
        match self {
            Value::Nil => TYPEID_NONE,
            Value::Int(_) => TYPEID_INT,
            Value::Float(_) => TYPEID_FLOAT,
            Value::Str(_) => TYPEID_STRING,
            Value::Bool(_) => TYPEID_BOOL,
            Value::Class { object, typeid } => typeid,
            Value::Vector(_) => TYPEID_VEC,
        }
    }

    #[inline]
    pub fn typeid(&self) -> (id: usize)
        ensures
            id == self.spec_typeid(),
    {
        match self {
            Value::Nil => TYPEID_NONE,
            Value::Int(_) => TYPEID_INT,
            Value::Float(_) => TYPEID_FLOAT,
            Value::Str(_) => TYPEID_STRING,
            Value::Bool(_) => TYPEID_BOOL,
            Value::Class { object: _, typeid } => *typeid,
            Value::Vector(_) => TYPEID_VEC,
        }
    }
}

/// A binding: its current value, and whether it accepts values of any type.
#[derive(Debug, Clone, Copy, PartialEq, Eq, Structural)]
pub struct Variable {
    pub value: Value,
    pub is_dynamic: bool,
}

impl Variable {
    #[inline]
    pub fn new(value: Value, is_dynamic: bool) -> (v: Self)
        ensures
            v.value == value,
            v.is_dynamic == is_dynamic,
    {
        Variable { value, is_dynamic }
    }

    /// Whether the variable may take `value`: a dynamic variable takes any
    /// value, any other only one of the type it holds.
    pub open spec fn spec_accepts(self, value: Value) -> bool {
        self.is_dynamic || self.value.spec_typeid() == value.spec_typeid()
    }

    #[inline]
    pub fn accepts(&self, value: &Value) -> (b: bool)
        ensures
            b == self.spec_accepts(*value),
    {
        self.is_dynamic || self.value.typeid() == value.typeid()
    }

    /// Replaces the value. A variable that is not dynamic keeps its type: it
    /// takes only a value that it accepts.
    #[inline]
    pub fn set_value(&mut self, value: Value)
        requires
            old(self).spec_accepts(value),
        ensures
            final(self).value == value,
            final(self).is_dynamic == old(self).is_dynamic,
            !old(self).is_dynamic ==> final(self).value.spec_typeid() == old(self).value.spec_typeid(),
    {
        self.value = value;
    }

    /// Assigns `value` where the variable accepts it, and says whether it
    /// did; a refused value leaves the variable as it was.
    pub fn assign(&mut self, value: Value) -> (assigned: bool)
        ensures
            assigned == old(self).spec_accepts(value),
            assigned ==> final(self).value == value,
            !assigned ==> *final(self) == *old(self),
            final(self).is_dynamic == old(self).is_dynamic,
            !old(self).is_dynamic ==> final(self).value.spec_typeid() == old(self).value.spec_typeid(),
    {
        if self.accepts(&value) {
            self.set_value(value);
            true
        } else {
            false
        }
    }

    #[inline]
    pub fn get_value(&self) -> (v: &Value)
        ensures
            *v == self.value,
    {
        &self.value
    }

    #[inline]
    pub fn get_value_clone(&self) -> (v: Value)
        ensures
            v == self.value,
    {
        self.value
    }

    #[inline]
    pub fn is_dynamic(&self) -> (b: bool)
        ensures
            b == self.is_dynamic,
    {
        self.is_dynamic
    }

    #[inline]
    pub fn typeid(&self) -> (id: usize)
        ensures
            id == self.value.spec_typeid(),
    {
        self.value.typeid()
    }
}

/// A variable that is not dynamic has one type for as long as it lives:
/// whatever values are assigned to it one after the other, each assignment
/// that succeeds leaves it with the type-id it started with.
pub proof fn lemma_static_variable_keeps_type(variable: Variable, values: Seq<Value>)
    requires
        !variable.is_dynamic,
    ensures
        spec_assign_all(variable, values).value.spec_typeid() == variable.value.spec_typeid(),
        !spec_assign_all(variable, values).is_dynamic,
        forall|i: int|
            0 <= i < values.len() && variable.spec_accepts(#[trigger] values[i])
                ==> values[i].spec_typeid() == variable.value.spec_typeid(),
    decreases values.len(),
{
    if values.len() > 0 {
        lemma_static_variable_keeps_type(variable, values.drop_last());
    }
}

/// The variable after each of `values` was offered to it in turn: a value
/// that it accepts replaces the one it holds, any other is passed over.
pub open spec fn spec_assign_all(variable: Variable, values: Seq<Value>) -> Variable
    decreases values.len(),
{
    if values.len() == 0 {
        variable
    } else {
        let before = spec_assign_all(variable, values.drop_last());
        if before.spec_accepts(values.last()) {
            Variable { value: values.last(), is_dynamic: before.is_dynamic }
        } else {
            before
        }
    }
}

#[derive(Debug, Clone)]
pub struct AnnotatedIdentifier {
    pub name: String,
    pub typeid: usize,
}

impl AnnotatedIdentifier {
    #[inline]
    pub fn new(name: String, typeid: usize) -> (id: Self)
        ensures
            id.name == name,
            id.typeid == typeid,
    {
        AnnotatedIdentifier { name, typeid }
    }

    /// The identifier with its annotation, or `None` where it has none.
    pub fn from_optional(input: OptionallyAnnotatedIdentifier) -> (r: Option<Self>)
        ensures
            match input.typeid {
                Some(typeid) => r == Some(AnnotatedIdentifier { name: input.name, typeid }),
                None => r is None,
            },
    {
        if let Some(typeid) = input.typeid {
            Some(AnnotatedIdentifier { name: input.name, typeid })
        } else {
            None
        }
    }

    #[inline]
    pub fn name(&self) -> (n: &str)
        ensures
            n@ == self.name@,
    {
        self.name.as_str()
    }

    #[inline]
    pub fn typeid(&self) -> (id: usize)
        ensures
            id == self.typeid,
    {
        self.typeid
    }

    /// The identifier as `name: typeid`.
    pub open spec fn spec_text(self) -> Seq<char> {
        self.name@ + ": "@ + crate::text::spec_nat_text(self.typeid as nat)
    }

    pub fn to_string(&self) -> (s: String)
        ensures
            s@ == self.spec_text(),
    {
        let mut out: Vec<char> = Vec::new();
        crate::text::push_str(&mut out, self.name.as_str());
        crate::text::push_str(&mut out, ": ");
        crate::text::push_nat(&mut out, self.typeid as u64);
        assert(out@ =~= self.spec_text());
        crate::text::from_chars(&out)
    }
}

#[derive(Debug, Clone)]
pub struct OptionallyAnnotatedIdentifier {
    pub name: String,
    pub typeid: Option<usize>,
}

impl OptionallyAnnotatedIdentifier {
    #[inline]
    pub fn new(name: String, typeid: Option<usize>) -> (id: Self)
        ensures
            id.name == name,
            id.typeid == typeid,
    {
        OptionallyAnnotatedIdentifier { name, typeid }
    }

    #[inline]
    pub fn name(&self) -> (n: &str)
        ensures
            n@ == self.name@,
    {
        self.name.as_str()
    }

    #[inline]
    pub fn typeid(&self) -> (id: Option<usize>)
        ensures
            id == self.typeid,
    {
        self.typeid
    }
}

} // verus!

verus! {

/// A text without the zeros at its end.
pub open spec fn spec_strip_zeros(text: Seq<char>) -> Seq<char>
    decreases text.len(),
{
    if text.len() > 0 && text.last() == '0' {
        spec_strip_zeros(text.drop_last())
    } else {
        text
    }
}

/// A float as it is shown, given the float written with six digits after
/// the decimal point: the zeros at the end go, and then the decimal point
/// if nothing is left behind it.
pub open spec fn spec_float_text(fixed: Seq<char>) -> Seq<char> {
    let stripped = spec_strip_zeros(fixed);
    if stripped.len() > 0 && stripped.last() == '.' {
        stripped.drop_last()
    } else {
        stripped
    }
}

pub fn format_float(fixed: &Vec<char>) -> (out: Vec<char>)
    ensures
        out@ == spec_float_text(fixed@),
{
    let mut end: usize = fixed.len();
    assert(fixed@.subrange(0, fixed.len() as int) =~= fixed@);
    while end > 0 && fixed[end - 1] == '0'
        invariant
            end <= fixed.len(),
            spec_strip_zeros(fixed@.subrange(0, end as int)) == spec_strip_zeros(fixed@),
        decreases end,
    {
        assert(fixed@.subrange(0, end as int).drop_last() =~= fixed@.subrange(0, end - 1));
        end = end - 1;
    }
    assert(fixed@.subrange(0, fixed.len() as int) =~= fixed@);
    assert(spec_strip_zeros(fixed@) == fixed@.subrange(0, end as int));
    if end > 0 && fixed[end - 1] == '.' {
        assert(fixed@.subrange(0, end as int).drop_last() =~= fixed@.subrange(0, end - 1));
        end = end - 1;
    }
    let mut out: Vec<char> = Vec::new();
    crate::text::push_range(&mut out, fixed, 0, end);
    assert(out@ =~= fixed@.subrange(0, end as int));
    out
}

/// How many of the first `n` items are floats.
pub open spec fn spec_floats_before(items: Seq<Value>, n: int) -> int
    decreases n,
{
    if n <= 0 || n > items.len() {
        0
    } else {
        spec_floats_before(items, n - 1) + if items[n - 1] is Float {
            1int
        } else {
            0int
        }
    }
}

/// The floats among the first `n` items, in order.
pub open spec fn spec_floats_of(items: Seq<Value>, n: int) -> Seq<u64>
    decreases n,
{
    if n <= 0 || n > items.len() {
        Seq::empty()
    } else {
        match items[n - 1] {
            Value::Float(f) => spec_floats_of(items, n - 1).push(f),
            _ => spec_floats_of(items, n - 1),
        }
    }
}

/// Text number `k` of a list of texts, the empty text where the list is
/// shorter.
pub open spec fn spec_text_at(texts: Seq<String>, k: int) -> Seq<char> {
    if 0 <= k < texts.len() {
        texts[k]@
    } else {
        Seq::empty()
    }
}

impl Value {
    /// The floats that showing the value needs in written form, in the
    /// order in which they are shown: the value itself, or the floats among
    /// the items of a vector.
    pub open spec fn spec_float_parts(self, heap: &Heap) -> Seq<u64> {
        match self {
            Value::Float(f) => seq![f],
            Value::Vector(id) => match heap.spec_vector(id) {
                Some(items) => spec_floats_of(items, items.len() as int),
                None => Seq::empty(),
            },
            _ => Seq::empty(),
        }
    }

    pub fn float_parts(&self, heap: &Heap) -> (parts: Vec<u64>)
        ensures
            parts@ == self.spec_float_parts(heap),
    {
        let mut parts: Vec<u64> = Vec::new();
        match self {
            Value::Float(f) => {
                parts.push(*f);
                assert(parts@ =~= seq![*f]);
            },
            Value::Vector(id) => {
                match heap.vector(*id) {
                    Some(items) => {
                        let mut i: usize = 0;
                        while i < items.len()
                            invariant
                                i <= items.len(),
                                parts@ == spec_floats_of(items@, i as int),
                            decreases items.len() - i,
                        {
                            match items[i] {
                                Value::Float(f) => {
                                    parts.push(f);
                                },
                                _ => {},
                            }
                            i = i + 1;
                        }
                    },
                    None => {},
                }
            },
            _ => {},
        }
        parts
    }

    /// A value that is not a vector as it is shown: `none`, an integer in
    /// decimal, a float as [`spec_float_text`] makes it of its written
    /// form, a string by its text, a boolean as `true` or `false`, a class
    /// instance by the name of its class.
    pub open spec fn spec_plain_text(
        self,
        session: &ParseSession,
        heap: &Heap,
        fixed: Seq<char>,
    ) -> Seq<char> {
        match self {
            Value::Nil => "none"@,
            Value::Int(i) => crate::text::spec_int_text(i as int),
            Value::Float(_) => spec_float_text(fixed),
            Value::Str(id) => heap.spec_text(id),
            Value::Bool(b) => if b {
                "true"@
            } else {
                "false"@
            },
            Value::Class { object, typeid } => session.spec_typename(typeid),
            Value::Vector(_) => "[...]"@,
        }
    }

    /// An item of a vector as it is shown: a vector inside a vector as
    /// `[...]`, a string between quotes, anything else as it is shown
    /// alone.
    pub open spec fn spec_item_text(
        self,
        session: &ParseSession,
        heap: &Heap,
        fixed: Seq<char>,
    ) -> Seq<char> {
        match self {
            Value::Str(id) => "\""@ + heap.spec_text(id) + "\""@,
            _ => self.spec_plain_text(session, heap, fixed),
        }
    }

    /// The first `n` items of a vector as they are shown, with `, `
    /// between them. `texts` holds the written forms of the floats among
    /// the items.
    pub open spec fn spec_items_text(
        items: Seq<Value>,
        n: int,
        session: &ParseSession,
        heap: &Heap,
        texts: Seq<String>,
    ) -> Seq<char>
        decreases n,
    {
        if n <= 0 || n > items.len() {
            Seq::empty()
        } else {
            Self::spec_items_text(items, n - 1, session, heap, texts) + (if n > 1 {
                ", "@
            } else {
                Seq::empty()
            }) + items[n - 1].spec_item_text(
                session,
                heap,
                spec_text_at(texts, spec_floats_before(items, n - 1)),
            )
        }
    }

    /// A value as it is shown. A vector is shown as its items between
    /// parentheses; a vector among them is shown as `[...]`, so that showing
    /// a vector ends even where it holds itself. `texts` holds the written
    /// forms of the floats of [`Value::spec_float_parts`].
    pub open spec fn spec_text(self, session: &ParseSession, heap: &Heap, texts: Seq<String>) -> Seq<
        char,
    > {
        match self {
            Value::Vector(id) => match heap.spec_vector(id) {
                Some(items) => "("@ + Self::spec_items_text(
                    items,
                    items.len() as int,
                    session,
                    heap,
                    texts,
                ) + ")"@,
                None => "()"@,
            },
            _ => self.spec_plain_text(session, heap, spec_text_at(texts, 0)),
        }
    }

    fn push_plain(
        &self,
        out: &mut Vec<char>,
        session: &ParseSession,
        heap: &Heap,
        texts: &Vec<String>,
        k: usize,
    )
        ensures
            final(out)@ == old(out)@ + self.spec_plain_text(
                session,
                heap,
                spec_text_at(texts@, k as int),
            ),
    {
        match self {
            Value::Nil => crate::text::push_str(out, "none"),
            Value::Int(i) => crate::text::push_int(out, *i),
            Value::Float(_) => {
                let fixed = if k < texts.len() {
                    crate::text::to_chars(texts[k].as_str())
                } else {
                    Vec::new()
                };
                let shown = format_float(&fixed);
                crate::text::push_range(out, &shown, 0, shown.len());
                assert(shown@.subrange(0, shown.len() as int) =~= shown@);
            },
            Value::Str(id) => {
                let text = heap.text(*id);
                crate::text::push_range(out, &text, 0, text.len());
                assert(text@.subrange(0, text.len() as int) =~= text@);
            },
            Value::Bool(b) => {
                if *b {
                    crate::text::push_str(out, "true")
                } else {
                    crate::text::push_str(out, "false")
                }
            },
            Value::Class { object: _, typeid } => {
                let name = session.get_typename(*typeid);
                crate::text::push_str(out, name.as_str());
            },
            Value::Vector(_) => crate::text::push_str(out, "[...]"),
        }
    }

    /// The value as it is shown, as characters.
    pub fn text(&self, session: &ParseSession, heap: &Heap, texts: &Vec<String>) -> (out: Vec<char>)
        ensures
            out@ == self.spec_text(session, heap, texts@),
    {
        let mut out: Vec<char> = Vec::new();
        match self {
            Value::Vector(id) => {
                crate::text::push_str(&mut out, "(");
                match heap.vector(*id) {
                    Some(items) => {
                        let ghost head = out@;
                        let mut i: usize = 0;
                        let mut k: usize = 0;
                        while i < items.len()
                            invariant
                                i <= items.len(),
                                k == spec_floats_before(items@, i as int),
                                k <= i,
                                out@ == head + Self::spec_items_text(
                                    items@,
                                    i as int,
                                    session,
                                    heap,
                                    texts@,
                                ),
                            decreases items.len() - i,
                        {
                            let ghost before = out@;
                            if i > 0 {
                                crate::text::push_str(&mut out, ", ");
                            }
                            match items[i] {
                                Value::Str(id) => {
                                    crate::text::push_str(&mut out, "\"");
                                    let text = heap.text(id);
                                    crate::text::push_range(&mut out, &text, 0, text.len());
                                    assert(text@.subrange(0, text.len() as int) =~= text@);
                                    crate::text::push_str(&mut out, "\"");
                                },
                                _ => {
                                    items[i].push_plain(&mut out, session, heap, texts, k);
                                },
                            }
                            assert(out@ =~= before + (if i > 0 {
                                ", "@
                            } else {
                                Seq::empty()
                            }) + items@[i as int].spec_item_text(
                                session,
                                heap,
                                spec_text_at(texts@, k as int),
                            ));
                            match items[i] {
                                Value::Float(_) => {
                                    k = k + 1;
                                },
                                _ => {},
                            }
                            i = i + 1;
                            assert(out@ =~= head + Self::spec_items_text(
                                items@,
                                i as int,
                                session,
                                heap,
                                texts@,
                            ));
                        }
                        crate::text::push_str(&mut out, ")");
                        assert(out@ =~= self.spec_text(session, heap, texts@));
                    },
                    None => {
                        crate::text::push_str(&mut out, ")");
                        proof {
                            reveal_strlit("(");
                            reveal_strlit(")");
                            reveal_strlit("()");
                        }
                        assert(out@ =~= "()"@);
                    },
                }
            },
            _ => {
                self.push_plain(&mut out, session, heap, texts, 0);
                assert(out@ =~= self.spec_text(session, heap, texts@));
            },
        }
        out
    }

    /// The value as it is shown.
    #[inline]
    pub fn to_string(&self, session: &ParseSession, heap: &Heap, texts: &Vec<String>) -> (s: String)
        ensures
            s@ == self.spec_text(session, heap, texts@),
    {
        crate::text::from_chars(&self.text(session, heap, texts))
    }

    /// The value that a variable of the given type starts with, for the
    /// types that have one.
    #[inline]
    pub fn default(typeid: usize, heap: &mut Heap) -> (r: Option<Value>)
        ensures
            typeid == TYPEID_NONE ==> r == Some(Value::Nil) && *final(heap) == *old(heap),
            typeid == TYPEID_INT ==> r == Some(Value::Int(0)) && *final(heap) == *old(heap),
            typeid == TYPEID_FLOAT ==> r == Some(Value::Float(0)) && *final(heap) == *old(heap),
            typeid == TYPEID_BOOL ==> r == Some(Value::Bool(false)) && *final(heap) == *old(heap),
            typeid == TYPEID_STRING ==> r == Some(Value::Str(old(heap).strings@.len() as usize))
                && final(heap).strings@ == old(heap).strings@.push(final(heap).strings@.last())
                && final(heap).strings@.last()@.len() == 0,
            typeid != TYPEID_NONE && typeid != TYPEID_INT && typeid != TYPEID_FLOAT && typeid
                != TYPEID_BOOL && typeid != TYPEID_STRING ==> r is None && *final(heap) == *old(heap),
    {
        if typeid == TYPEID_NONE {
            Some(Value::Nil)
        } else if typeid == TYPEID_INT {
            Some(Value::Int(0))
        } else if typeid == TYPEID_FLOAT {
            Some(Value::Float(0))
        } else if typeid == TYPEID_STRING {
            Some(heap.new_string(Vec::new()))
        } else if typeid == TYPEID_BOOL {
            Some(Value::Bool(false))
        } else {
            None
        }
    }

    /// A new string with the given text.
    #[inline]
    pub fn new_string(value: String, heap: &mut Heap) -> (v: Value)
        ensures
            v == Value::Str(old(heap).strings@.len() as usize),
            final(heap).strings@.len() == old(heap).strings@.len() + 1,
            final(heap).strings@.last()@ == value@,
            final(heap).strings@.drop_last() == old(heap).strings@,
            final(heap).vectors == old(heap).vectors,
            final(heap).instances == old(heap).instances,
    {
        let v = heap.new_string(crate::text::to_chars(value.as_str()));
        assert(heap.strings@.drop_last() =~= old(heap).strings@);
        v
    }

    #[inline]
    pub fn new_class_instance(value: crate::class::ClassInstance, heap: &mut Heap) -> (v: Value)
        ensures
            v == (Value::Class {
                object: old(heap).instances@.len() as usize,
                typeid: value.typeid,
            }),
            final(heap).instances@ == old(heap).instances@.push(value),
            final(heap).strings == old(heap).strings,
            final(heap).vectors == old(heap).vectors,
    {
        heap.new_instance(value)
    }

    #[inline]
    pub fn new_vec_instance(heap: &mut Heap) -> (v: Value)
        ensures
            v == Value::Vector(old(heap).vectors@.len() as usize),
            final(heap).vectors@.len() == old(heap).vectors@.len() + 1,
            final(heap).vectors@.last()@.len() == 0,
            final(heap).vectors@.drop_last() == old(heap).vectors@,
            final(heap).strings == old(heap).strings,
            final(heap).instances == old(heap).instances,
    {
        let v = heap.new_vector(Vec::new());
        assert(heap.vectors@.drop_last() =~= old(heap).vectors@);
        v
    }

    #[inline]
    pub fn new_vec_instance_from(vec: Vec<Value>, heap: &mut Heap) -> (v: Value)
        ensures
            v == Value::Vector(old(heap).vectors@.len() as usize),
            final(heap).vectors@ == old(heap).vectors@.push(vec),
            final(heap).strings == old(heap).strings,
            final(heap).instances == old(heap).instances,
    {
        heap.new_vector(vec)
    }
}

/// A vector that holds itself is shown as `([...])`.
pub proof fn lemma_vector_of_itself(id: usize, session: &ParseSession, heap: &Heap, texts: Seq<String>)
    requires
        heap.spec_vector(id) == Some(seq![Value::Vector(id)]),
    ensures
        Value::Vector(id).spec_text(session, heap, texts) == "([...])"@,
{
    let items = seq![Value::Vector(id)];
    reveal_with_fuel(Value::spec_items_text, 2);
    reveal_strlit("(");
    reveal_strlit(")");
    reveal_strlit("[...]");
    reveal_strlit("([...])");
    assert(Value::spec_items_text(items, 0, session, heap, texts) =~= Seq::<char>::empty());
    assert(Value::spec_items_text(items, 1, session, heap, texts) =~= "[...]"@);
    assert("("@ + "[...]"@ + ")"@ =~= "([...])"@);
}

} // verus!
