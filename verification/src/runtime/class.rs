//! Classes and their method tables, and the search for a method through a
//! class and the classes it is composed of.
//!
//! A class names its parents by their index in the class table. A class is
//! added after its parents, so the parent relation has no cycle.

use vstd::prelude::*;
use crate::parser::{Expr, SourceExpression};
use crate::runtime::shape::lemma_push_no_duplicates;
use crate::runtime::symbol::{Symbol, texts, position, lemma_position};
use crate::runtime::vmap::VMap;
use vstd::std_specs::cmp::PartialEqSpec;

verus! {

/// The declaration of a slot: the class of the values that it is meant for.
#[derive(Debug)]
pub struct SlotDef {
    slot_type: usize,
}

impl SlotDef {
    /// A slot meant for values of the class with index `slot_type`.
    pub fn new(slot_type: usize) -> (d: SlotDef)
        ensures
            d.spec_slot_type() == slot_type,
    {
        SlotDef { slot_type }
    }

    /// The index of the class that the slot is meant for.
    pub closed spec fn spec_slot_type(&self) -> usize {
        self.slot_type
    }

    /// The index of the class that the slot is meant for.
    pub fn slot_type(&self) -> (c: usize)
        ensures
            c == self.spec_slot_type(),
    {
        self.slot_type
    }
}

/// A method as a mathematical value.
pub struct MethodView {
    pub name: Seq<char>,
    pub receiver: usize,
    pub it: Option<usize>,
    pub ret: Option<usize>,
    pub code: Expr,
}

/// A method: its name, the class of its receiver, the classes of its argument
/// and of its result where they are declared, and its body.
#[derive(Debug)]
pub struct Method {
    name: Symbol,
    receiver: usize,
    it: Option<usize>,
    ret: Option<usize>,
    code: SourceExpression,
}

impl View for Method {
    type V = MethodView;

    closed spec fn view(&self) -> MethodView {
        MethodView {
            name: self.name@,
            receiver: self.receiver,
            it: self.it,
            ret: self.ret,
            code: self.code@,
        }
    }
}

impl Method {
    /// A method `name` for receivers of class `receiver`, with body `code`.
    pub fn new(
        name: Symbol,
        receiver: usize,
        it: Option<usize>,
        ret: Option<usize>,
        code: SourceExpression,
    ) -> (m: Method)
        ensures
            m@ == (MethodView { name: name@, receiver, it, ret, code: code@ }),
    {
        Method { name, receiver, it, ret, code }
    }

    /// The method's name.
    pub fn name(&self) -> (s: &Symbol)
        ensures
            s@ == self@.name,
    {
        &self.name
    }

    /// The index of the receiver's class.
    pub fn receiver(&self) -> (c: usize)
        ensures
            c == self@.receiver,
    {
        self.receiver
    }

    /// The index of the argument's class, where one is declared.
    pub fn it(&self) -> (c: Option<usize>)
        ensures
            c == self@.it,
    {
        self.it
    }

    /// The index of the result's class, where one is declared.
    pub fn ret(&self) -> (c: Option<usize>)
        ensures
            c == self@.ret,
    {
        self.ret
    }

    /// The body.
    pub fn code(&self) -> (e: &SourceExpression)
        ensures
            e@ == self@.code,
    {
        &self.code
    }
}

/// A class as a mathematical value.
pub struct ClassView {
    pub name: Seq<char>,
    /// The declared slots, in declaration order.
    pub slots: Seq<Seq<char>>,
    /// For each declared slot, the index of the class it is meant for.
    pub slot_types: Seq<usize>,
    /// The indices of the parents, in declaration order.
    pub parents: Seq<usize>,
    /// The class's own methods, in definition order.
    pub methods: Seq<MethodView>,
}

impl ClassView {
    /// The names of the class's own methods.
    pub open spec fn method_names(self) -> Seq<Seq<char>> {
        self.methods.map_values(|m: MethodView| m.name)
    }

    /// The index, in the class's own table, of the method called `name`.
    /// The parents take no part in it.
    pub open spec fn own_method(self, name: Seq<char>) -> Option<int> {
        position(self.method_names(), name)
    }

    /// The slots are declared once each, every declared slot has its class,
    /// and the method names are distinct.
    pub open spec fn wf(self) -> bool {
        &&& self.slots.no_duplicates()
        &&& self.slots.len() == self.slot_types.len()
        &&& self.method_names().no_duplicates()
    }
}

/// A class: a name, the slots that it declares, the classes that it is
/// composed of, and its own methods.
#[derive(Debug)]
pub struct Class {
    name: Symbol,
    slot_defs: VMap<Symbol, SlotDef>,
    parents: Vec<usize>,
    methods: VMap<Symbol, Method>,
}

impl View for Class {
    type V = ClassView;

    closed spec fn view(&self) -> ClassView {
        ClassView {
            name: self.name@,
            slots: texts(self.slot_defs.keys()),
            slot_types: self.slot_defs.values().map_values(|d: SlotDef| d.spec_slot_type()),
            parents: self.parents@,
            methods: self.methods.values().map_values(|m: Method| m@),
        }
    }
}

impl Class {
    /// The tables are well formed, and every method is stored under its name.
    pub closed spec fn wf(&self) -> bool {
        &&& self.slot_defs.wf()
        &&& self.methods.wf()
        &&& texts(self.slot_defs.keys()).no_duplicates()
        &&& texts(self.methods.keys()).no_duplicates()
        &&& forall|i: int|
            0 <= i < self.methods.keys().len() ==> (#[trigger] self.methods.keys()[i])@
                == self.methods.values()[i]@.name
    }

    /// A well-formed class is well formed as a mathematical value.
    pub proof fn lemma_wf(&self)
        requires
            self.wf(),
        ensures
            self@.wf(),
    {
        assert(self@.method_names() =~= texts(self.methods.keys()));
    }

    /// A class called `name`, with no slots, no parents and no methods.
    pub fn new(name: Symbol) -> (c: Class)
        ensures
            c.wf(),
            c@ == (ClassView {
                name: name@,
                slots: Seq::empty(),
                slot_types: Seq::empty(),
                parents: Seq::empty(),
                methods: Seq::empty(),
            }),
    {
        let c = Class { name, slot_defs: VMap::new(), parents: Vec::new(), methods: VMap::new() };
        assert(c@.slots =~= Seq::empty());
        assert(c@.slot_types =~= Seq::empty());
        assert(c@.methods =~= Seq::empty());
        c
    }

    /// The class's name.
    pub fn name(&self) -> (s: &Symbol)
        ensures
            s@ == self@.name,
    {
        &self.name
    }

    /// Whether the two classes are equal: whether they have the same name.
    pub fn same(&self, other: &Class) -> (b: bool)
        ensures
            b == (self@.name == other@.name),
    {
        self.name.same(&other.name)
    }

    /// Adds a parent after the parents the class has.
    pub fn add_parent(&mut self, parent: usize)
        requires
            old(self).wf(),
        ensures
            final(self).wf(),
            final(self)@ == (ClassView { parents: old(self)@.parents.push(parent), ..old(self)@ }),
    {
        self.parents.push(parent);
    }

    /// The number of parents.
    pub fn parent_count(&self) -> (n: usize)
        ensures
            n == self@.parents.len(),
    {
        self.parents.len()
    }

    /// The parent at position `i` of the parent list.
    pub fn parent(&self, i: usize) -> (p: usize)
        requires
            i < self@.parents.len(),
        ensures
            p == self@.parents[i as int],
    {
        self.parents[i]
    }

    /// Declares a slot. A slot that is declared already has its class
    /// replaced and keeps its place.
    pub fn define_slot(&mut self, name: Symbol, def: SlotDef)
        requires
            old(self).wf(),
        ensures
            final(self).wf(),
            final(self)@.name == old(self)@.name,
            final(self)@.parents == old(self)@.parents,
            final(self)@.methods == old(self)@.methods,
            match position(old(self)@.slots, name@) {
                Some(i) => {
                    &&& final(self)@.slots == old(self)@.slots
                    &&& final(self)@.slot_types == old(self)@.slot_types.update(
                        i,
                        def.spec_slot_type(),
                    )
                },
                None => {
                    &&& final(self)@.slots == old(self)@.slots.push(name@)
                    &&& final(self)@.slot_types == old(self)@.slot_types.push(def.spec_slot_type())
                },
            },
    {
        proof {
            self.lemma_wf();
        }
        let ghost before = *self;
        let idx = self.slot_defs.insert(name, def);
        proof {
            if before.slot_defs.is_index_of(name, Some(idx)) {
                assert(before@.slots[idx as int] == name@);
                lemma_position(before@.slots, name@, idx as int);
                assert(self@.slot_types =~= before@.slot_types.update(
                    idx as int,
                    def.spec_slot_type(),
                ));
            } else {
                assert(before.slot_defs.is_index_of(name, None));
                assert(!before@.slots.contains(name@)) by {
                    if before@.slots.contains(name@) {
                        let j = before@.slots.index_of(name@);
                        assert(before.slot_defs.keys()[j].eq_spec(&name));
                    }
                }
                assert(self@.slots =~= before@.slots.push(name@));
                assert(self@.slot_types =~= before@.slot_types.push(def.spec_slot_type()));
                lemma_push_no_duplicates(before@.slots, name@);
            }
        }
    }

    /// The index of the declared slot `name`.
    pub fn slot_def_index(&self, name: &Symbol) -> (r: Option<usize>)
        requires
            self.wf(),
        ensures
            r matches Some(i) ==> position(self@.slots, name@) == Some(i as int),
            r is None ==> position(self@.slots, name@) is None,
    {
        proof {
            self.lemma_wf();
        }
        let r = self.slot_defs.get_index(name);
        proof {
            match r {
                Some(i) => {
                    assert(self@.slots[i as int] == name@);
                    lemma_position(self@.slots, name@, i as int);
                },
                None => {
                    if self@.slots.contains(name@) {
                        let j = self@.slots.index_of(name@);
                        assert(self.slot_defs.keys()[j].eq_spec(name));
                    }
                },
            }
        }
        r
    }

    /// Defines a method under its name. A method that the class has under
    /// that name is replaced and keeps its place.
    pub fn define_method(&mut self, method: Method)
        requires
            old(self).wf(),
        ensures
            final(self).wf(),
            final(self)@.name == old(self)@.name,
            final(self)@.parents == old(self)@.parents,
            final(self)@.slots == old(self)@.slots,
            final(self)@.slot_types == old(self)@.slot_types,
            match old(self)@.own_method(method@.name) {
                Some(i) => final(self)@.methods == old(self)@.methods.update(i, method@),
                None => final(self)@.methods == old(self)@.methods.push(method@),
            },
    {
        proof {
            self.lemma_wf();
        }
        let ghost before = *self;
        let key = method.name.duplicate();
        let idx = self.methods.insert(key, method);
        proof {
            let names = before@.method_names();
            assert(names =~= texts(before.methods.keys()));
            if before.methods.is_index_of(key, Some(idx)) {
                assert(names[idx as int] == key@);
                lemma_position(names, key@, idx as int);
                assert(self@.methods =~= before@.methods.update(idx as int, method@));
            } else {
                assert(before.methods.is_index_of(key, None));
                assert(!names.contains(key@)) by {
                    if names.contains(key@) {
                        let j = names.index_of(key@);
                        assert(before.methods.keys()[j].eq_spec(&key));
                    }
                }
                assert(self@.methods =~= before@.methods.push(method@));
                assert(texts(self.methods.keys()) =~= names.push(key@));
                lemma_push_no_duplicates(names, key@);
            }
        }
    }

    /// The index, in the class's own table, of the method called `name`. The
    /// parents are not searched.
    pub fn method_index(&self, name: &Symbol) -> (r: Option<usize>)
        requires
            self.wf(),
        ensures
            r matches Some(i) ==> self@.own_method(name@) == Some(i as int) && i
                < self@.methods.len(),
            r is None ==> self@.own_method(name@) is None,
    {
        proof {
            self.lemma_wf();
        }
        let r = self.methods.get_index(name);
        proof {
            let names = self@.method_names();
            match r {
                Some(i) => {
                    assert(names[i as int] == name@);
                    lemma_position(names, name@, i as int);
                },
                None => {
                    if names.contains(name@) {
                        let j = names.index_of(name@);
                        assert(self.methods.keys()[j].eq_spec(name));
                    }
                },
            }
        }
        r
    }

    /// The class's own method at index `idx`.
    pub fn method_at(&self, idx: usize) -> (m: &Method)
        requires
            self.wf(),
            idx < self@.methods.len(),
        ensures
            m@ == self@.methods[idx as int],
    {
        self.methods.value_at(idx)
    }

    /// The class's own method called `name`. The parents are not searched.
    pub fn find_method(&self, name: &Symbol) -> (r: Option<&Method>)
        requires
            self.wf(),
        ensures
            match self@.own_method(name@) {
                Some(i) => r is Some && r->0@ == self@.methods[i],
                None => r is None,
            },
    {
        match self.method_index(name) {
            Some(i) => Some(self.method_at(i)),
            None => None,
        }
    }
}

impl PartialEq for Class {
    fn eq(&self, other: &Class) -> (b: bool) {
        self.same(other)
    }
}

impl vstd::std_specs::cmp::PartialEqSpecImpl for Class {
    open spec fn obeys_eq_spec() -> bool {
        true
    }

    open spec fn eq_spec(&self, other: &Class) -> bool {
        self@.name == other@.name
    }
}

} // verus!
