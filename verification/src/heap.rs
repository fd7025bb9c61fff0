//! The objects that values share: strings, vectors and class instances.

use vstd::prelude::*;
use crate::class::ClassInstance;
use crate::variable::Value;

verus! {

/// Storage for the objects that are held by reference. An object is named by
/// its index in the list of its kind and stays there for as long as the heap
/// lives, so two values that hold the same index name the same object.
pub struct Heap {
    pub strings: Vec<Vec<char>>,
    pub vectors: Vec<Vec<Value>>,
    pub instances: Vec<ClassInstance>,
}

impl Heap {
    pub fn new() -> (h: Heap)
        ensures
            h.strings@.len() == 0,
            h.vectors@.len() == 0,
            h.instances@.len() == 0,
    {
        Heap { strings: Vec::new(), vectors: Vec::new(), instances: Vec::new() }
    }

    pub fn clear(&mut self)
        ensures
            final(self).strings@.len() == 0,
            final(self).vectors@.len() == 0,
            final(self).instances@.len() == 0,
    {
        self.strings.clear();
        self.vectors.clear();
        self.instances.clear();
    }

    /// Stores a new string and gives the value that names it.
    pub fn new_string(&mut self, text: Vec<char>) -> (v: Value)
        ensures
            v == Value::Str(old(self).strings@.len() as usize),
            final(self).strings@ == old(self).strings@.push(text),
            final(self).vectors == old(self).vectors,
            final(self).instances == old(self).instances,
    {
        let id = self.strings.len();
        self.strings.push(text);
        Value::Str(id)
    }

    /// Stores a new vector and gives the value that names it.
    pub fn new_vector(&mut self, items: Vec<Value>) -> (v: Value)
        ensures
            v == Value::Vector(old(self).vectors@.len() as usize),
            final(self).vectors@ == old(self).vectors@.push(items),
            final(self).strings == old(self).strings,
            final(self).instances == old(self).instances,
    {
        let id = self.vectors.len();
        self.vectors.push(items);
        Value::Vector(id)
    }

    /// Stores a new class instance and gives the value that names it.
    pub fn new_instance(&mut self, instance: ClassInstance) -> (v: Value)
        ensures
            v == (Value::Class {
                object: old(self).instances@.len() as usize,
                typeid: instance.typeid,
            }),
            final(self).instances@ == old(self).instances@.push(instance),
            final(self).strings == old(self).strings,
            final(self).vectors == old(self).vectors,
    {
        let id = self.instances.len();
        let typeid = instance.typeid;
        self.instances.push(instance);
        Value::Class { object: id, typeid }
    }

    pub open spec fn spec_string(&self, id: usize) -> Option<Seq<char>> {
        if id < self.strings@.len() {
            Some(self.strings@[id as int]@)
        } else {
            None
        }
    }

    pub open spec fn spec_vector(&self, id: usize) -> Option<Seq<Value>> {
        if id < self.vectors@.len() {
            Some(self.vectors@[id as int]@)
        } else {
            None
        }
    }

    pub open spec fn spec_instance(&self, id: usize) -> Option<ClassInstance> {
        if id < self.instances@.len() {
            Some(self.instances@[id as int])
        } else {
            None
        }
    }

    /// The text of a stored string, the empty text for an index that names
    /// none.
    pub open spec fn spec_text(&self, id: usize) -> Seq<char> {
        match self.spec_string(id) {
            Some(text) => text,
            None => Seq::empty(),
        }
    }

    /// A copy of the text of a stored string.
    pub fn text(&self, id: usize) -> (t: Vec<char>)
        ensures
            t@ == self.spec_text(id),
    {
        let mut t: Vec<char> = Vec::new();
        if id < self.strings.len() {
            let stored = &self.strings[id];
            crate::text::push_range(&mut t, stored, 0, stored.len());
            assert(stored@.subrange(0, stored.len() as int) =~= stored@);
            assert(t@ =~= stored@);
        }
        t
    }

    pub fn string(&self, id: usize) -> (r: Option<&Vec<char>>)
        ensures
            match r {
                Some(s) => self.spec_string(id) == Some(s@),
                None => self.spec_string(id) is None,
            },
    {
        if id < self.strings.len() {
            Some(&self.strings[id])
        } else {
            None
        }
    }

    pub fn vector(&self, id: usize) -> (r: Option<&Vec<Value>>)
        ensures
            match r {
                Some(s) => self.spec_vector(id) == Some(s@),
                None => self.spec_vector(id) is None,
            },
    {
        if id < self.vectors.len() {
            Some(&self.vectors[id])
        } else {
            None
        }
    }

    pub fn instance(&self, id: usize) -> (r: Option<&ClassInstance>)
        ensures
            match r {
                Some(s) => self.spec_instance(id) == Some(*s),
                None => self.spec_instance(id) is None,
            },
    {
        if id < self.instances.len() {
            Some(&self.instances[id])
        } else {
            None
        }
    }

    /// Replaces the text of a stored string.
    pub fn set_string(&mut self, id: usize, text: Vec<char>)
        requires
            id < old(self).strings@.len(),
        ensures
            final(self).strings@ == old(self).strings@.update(id as int, text),
            final(self).vectors == old(self).vectors,
            final(self).instances == old(self).instances,
    {
        self.strings.set(id, text);
    }

    /// Replaces the items of a stored vector.
    pub fn set_vector(&mut self, id: usize, items: Vec<Value>)
        requires
            id < old(self).vectors@.len(),
        ensures
            final(self).vectors@ == old(self).vectors@.update(id as int, items),
            final(self).strings == old(self).strings,
            final(self).instances == old(self).instances,
    {
        self.vectors.set(id, items);
    }

    /// Takes a stored vector's items out, leaving it empty, to put them back
    /// with [`Heap::set_vector`].
    pub fn take_vector(&mut self, id: usize) -> (items: Vec<Value>)
        requires
            id < old(self).vectors@.len(),
        ensures
            items == old(self).vectors@[id as int],
            final(self).vectors@.len() == old(self).vectors@.len(),
            final(self).vectors@[id as int]@.len() == 0,
            forall|i: int|
                0 <= i < old(self).vectors@.len() && i != id ==> final(self).vectors@[i] == old(self).vectors@[i],
            final(self).strings == old(self).strings,
            final(self).instances == old(self).instances,
    {
        let mut items: Vec<Value> = Vec::new();
        self.vectors.set_and_swap(id, &mut items);
        items
    }

    /// Takes a stored string's text out, leaving it empty.
    pub fn take_string(&mut self, id: usize) -> (text: Vec<char>)
        requires
            id < old(self).strings@.len(),
        ensures
            text == old(self).strings@[id as int],
            final(self).strings@.len() == old(self).strings@.len(),
            final(self).strings@[id as int]@.len() == 0,
            forall|i: int|
                0 <= i < old(self).strings@.len() && i != id ==> final(self).strings@[i] == old(self).strings@[i],
            final(self).vectors == old(self).vectors,
            final(self).instances == old(self).instances,
    {
        let mut text: Vec<char> = Vec::new();
        self.strings.set_and_swap(id, &mut text);
        text
    }
}

} // verus!

verus! {

impl Heap {
    /// Assigns to a property of a stored instance, as
    /// [`ClassInstance::set_property`] does; an index that names no instance
    /// counts as an object without members.
    pub fn set_property(
        &mut self,
        id: usize,
        name: &str,
        private_access: bool,
        value: Value,
        session: &crate::session::ParseSession,
    ) -> (r: Result<(), crate::error::ErrorKind>)
        ensures
            final(self).strings == old(self).strings,
            final(self).vectors == old(self).vectors,
            final(self).instances@.len() == old(self).instances@.len(),
            old(self).spec_instance(id) is None ==> (r matches Err(
                crate::error::ErrorKind::InvalidMemberAccess,
            )) && final(self).instances == old(self).instances,
            forall|i: int|
                0 <= i < old(self).instances@.len() && i != id ==> final(self).instances@[i] == old(self).instances@[i],
            old(self).spec_instance(id) matches Some(before) ==> {
                let after = final(self).instances@[id as int];
                &&& after.typeid == before.typeid
                &&& crate::class::spec_property_set(
                    before.typeid,
                    before.properties@,
                    after.properties@,
                    name@,
                    private_access,
                    value,
                    session,
                    r,
                )
                &&& r is Ok ==> before.spec_reachable(name@, private_access)
                    && before.properties@[name@].var.spec_accepts(value) && after.properties@
                    == before.properties@.insert(
                    name@,
                    crate::class::Property {
                        var: crate::variable::Variable {
                            value,
                            is_dynamic: before.properties@[name@].var.is_dynamic,
                        },
                        is_public: before.properties@[name@].is_public,
                    },
                )
                &&& r is Err ==> after.properties@ == before.properties@
                &&& before.spec_reachable(name@, private_access)
                    && before.properties@[name@].var.spec_accepts(value) ==> r is Ok
            },
    {
        if id >= self.instances.len() {
            return Err(crate::error::ErrorKind::InvalidMemberAccess);
        }
        let mut instance = ClassInstance::new(0);
        self.instances.set_and_swap(id, &mut instance);
        let r = instance.set_property(name, private_access, value, session);
        self.instances.set_and_swap(id, &mut instance);
        r
    }
}

} // verus!
