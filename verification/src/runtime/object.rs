//! Objects: a class, a shape, and one stored reference for each slot of the
//! shape.

use vstd::prelude::*;
use crate::runtime::oref::{ORef, ORefView};
use crate::runtime::shape::{
    Layouts, ShapeRegistry, layouts_wf, lemma_spec_transition, slot_index, spec_transition,
};
use crate::runtime::symbol::lemma_position;
use crate::runtime::symbol::Symbol;
use crate::runtime::table::{ClassTable, Classes, resolve};

verus! {

/// Why a message could not be served.
#[derive(Debug)]
pub enum SimulabraErr {
    /// Neither a slot nor a method of that name was found. A missing slot
    /// and a missing method are the same failure.
    MethodMissing(Symbol),
}

impl View for SimulabraErr {
    type V = Seq<char>;

    open spec fn view(&self) -> Seq<char> {
        match self {
            SimulabraErr::MethodMissing(name) => name@,
        }
    }
}

impl SimulabraErr {
    /// The name that was not found.
    pub fn symbol(&self) -> (s: &Symbol)
        ensures
            s@ == self@,
    {
        match self {
            SimulabraErr::MethodMissing(name) => name,
        }
    }
}

/// An object as a mathematical value.
pub struct ObjectView {
    pub id: u64,
    /// The index of the object's class in the class table.
    pub class: usize,
    /// The identifier of the object's shape in the shape registry.
    pub shape: int,
    /// The stored references, each at its slot index.
    pub slots: Seq<ORefView>,
}

impl ObjectView {
    /// The object's shape is in the registry, and the object stores one
    /// reference for each slot of the shape.
    pub open spec fn wf(self, layouts: Layouts) -> bool {
        &&& 0 <= self.shape < layouts.len()
        &&& self.slots.len() == layouts[self.shape].len()
    }

    /// The names of the object's slots, each at its slot index.
    pub open spec fn names(self, layouts: Layouts) -> Seq<Seq<char>> {
        layouts[self.shape]
    }

    /// What slot `name` holds, if the object has such a slot.
    pub open spec fn slot(self, layouts: Layouts, name: Seq<char>) -> Option<ORefView> {
        match slot_index(self.names(layouts), name) {
            Some(i) => Some(self.slots[i]),
            None => None,
        }
    }

    /// The object after `value` was stored at slot index `idx`.
    pub open spec fn with_slot_at(self, idx: int, value: ORefView) -> ObjectView {
        ObjectView { slots: self.slots.update(idx, value), ..self }
    }

    /// The registry and the object after `value` was stored in slot `name`. A
    /// slot that the object has is overwritten, and the shape stays. A new
    /// slot is appended, and the shape is the one that the transition by
    /// `name` leads to.
    pub open spec fn with_slot(self, layouts: Layouts, name: Seq<char>, value: ORefView) -> (
        Layouts,
        ObjectView,
    ) {
        match slot_index(self.names(layouts), name) {
            Some(i) => (layouts, self.with_slot_at(i, value)),
            None => {
                let (grown, shape) = spec_transition(layouts, self.shape, name);
                (grown, ObjectView { shape, slots: self.slots.push(value), ..self })
            },
        }
    }

    /// What a send of `name` to the object does to it and gives back. A slot
    /// called `name` is served first: without an argument it is read, with
    /// one it is overwritten. Where there is no such slot, the method that
    /// `name` resolves to on the object's class is to be invoked. Where there
    /// is none either, the send fails with the name.
    pub open spec fn sent(
        self,
        layouts: Layouts,
        classes: Classes,
        name: Seq<char>,
        arg: Option<ORefView>,
    ) -> (ObjectView, Result<SentView, Seq<char>>) {
        match slot_index(self.names(layouts), name) {
            Some(i) => match arg {
                None => (self, Ok(SentView::Value(self.slots[i]))),
                Some(value) => (self.with_slot_at(i, value), Ok(SentView::Stored)),
            },
            None => match resolve(classes, self.class as int, name) {
                Some((c, k)) => (self, Ok(SentView::Invoke(c, k))),
                None => (self, Err(name)),
            },
        }
    }
}

/// Storing into a slot and reading slots. After `value` is stored in slot
/// `name`, the object is well formed in the registry as it then is, slot
/// `name` holds `value`, and every other slot holds what it held. The names
/// of the object are those it had, followed by `name` if that is new. The
/// registry keeps every shape that it held.
pub proof fn lemma_with_slot(obj: ObjectView, layouts: Layouts, name: Seq<char>, value: ORefView)
    requires
        layouts_wf(layouts),
        obj.wf(layouts),
    ensures
        ({
            let (grown, after) = obj.with_slot(layouts, name, value);
            &&& layouts_wf(grown)
            &&& after.wf(grown)
            &&& after.id == obj.id
            &&& after.class == obj.class
            &&& after.slot(grown, name) == Some(value)
            &&& forall|other: Seq<char>|
                other != name ==> #[trigger] after.slot(grown, other) == obj.slot(layouts, other)
            &&& after.names(grown) == if obj.names(layouts).contains(name) {
                obj.names(layouts)
            } else {
                obj.names(layouts).push(name)
            }
            &&& grown.len() >= layouts.len()
            &&& forall|i: int| 0 <= i < layouts.len() ==> grown[i] == layouts[i]
        }),
{
    let names = obj.names(layouts);
    let (grown, after) = obj.with_slot(layouts, name, value);
    assert(names.no_duplicates());
    match slot_index(names, name) {
        Some(i) => {
            assert(names.contains(name));
            assert(names[i] == name);
            assert forall|other: Seq<char>| other != name implies #[trigger] after.slot(
                grown,
                other,
            ) == obj.slot(layouts, other) by {
                if names.contains(other) {
                    let j = names.index_of(other);
                    assert(names[j] == other);
                }
            }
        },
        None => {
            lemma_spec_transition(layouts, obj.shape, name);
            let extended = names.push(name);
            assert(after.names(grown) == extended);
            assert(extended.no_duplicates());
            assert(extended[names.len() as int] == name);
            lemma_position(extended, name, names.len() as int);
            assert forall|other: Seq<char>| other != name implies #[trigger] after.slot(
                grown,
                other,
            ) == obj.slot(layouts, other) by {
                if names.contains(other) {
                    let j = names.index_of(other);
                    assert(names[j] == other);
                    assert(extended[j] == other);
                    lemma_position(extended, other, j);
                } else {
                    if extended.contains(other) {
                        let j = extended.index_of(other);
                        assert(extended[j] == other);
                        assert(j < names.len());
                        assert(names[j] == other);
                    }
                }
            }
        },
    }
}

/// What a send did, as a mathematical value.
pub enum SentView {
    Value(ORefView),
    Stored,
    Invoke(int, int),
}

/// What a send to an object did, or asks for.
#[derive(Debug)]
pub enum Sent {
    /// A slot was read: the reference that it holds.
    Value(ORef),
    /// A slot was overwritten with the argument.
    Stored,
    /// A method is to be invoked: the index of the class that defines it, and
    /// the method's index in that class's table.
    Invoke(usize, usize),
}

impl View for Sent {
    type V = SentView;

    open spec fn view(&self) -> SentView {
        match self {
            Sent::Value(r) => SentView::Value(r@),
            Sent::Stored => SentView::Stored,
            Sent::Invoke(c, k) => SentView::Invoke(*c as int, *k as int),
        }
    }
}

/// The view of the result of a send.
pub open spec fn sent_view(r: Result<Sent, SimulabraErr>) -> Result<SentView, Seq<char>> {
    match r {
        Ok(s) => Ok(s@),
        Err(e) => Err(e@),
    }
}

/// The views of the references of a sequence.
pub open spec fn refs_view(refs: Seq<ORef>) -> Seq<ORefView> {
    refs.map_values(|r: ORef| r@)
}

/// An object of the store.
#[derive(Debug)]
pub struct Object {
    id: u64,
    class: usize,
    shape: usize,
    slots: Vec<ORef>,
}

impl View for Object {
    type V = ObjectView;

    closed spec fn view(&self) -> ObjectView {
        ObjectView {
            id: self.id,
            class: self.class,
            shape: self.shape as int,
            slots: refs_view(self.slots@),
        }
    }
}

impl Object {
    /// An object `id` of the class with index `class`, with no slots. Its
    /// shape is the empty shape.
    pub fn new(id: u64, class: usize) -> (o: Object)
        ensures
            o@ == (ObjectView { id, class, shape: 0, slots: Seq::empty() }),
    {
        let o = Object { id, class, shape: 0, slots: Vec::new() };
        assert(o@.slots =~= Seq::empty());
        o
    }

    /// The object's identifier.
    pub fn id(&self) -> (n: u64)
        ensures
            n == self@.id,
    {
        self.id
    }

    /// The index of the object's class.
    pub fn class(&self) -> (c: usize)
        ensures
            c == self@.class,
    {
        self.class
    }

    /// The identifier of the object's shape.
    pub fn shape(&self) -> (s: usize)
        ensures
            s == self@.shape,
    {
        self.shape
    }

    /// The number of slots.
    pub fn slot_count(&self) -> (n: usize)
        ensures
            n == self@.slots.len(),
    {
        self.slots.len()
    }

    /// A copy of the object.
    pub fn duplicate(&self) -> (o: Object)
        ensures
            o@ == self@,
    {
        let mut slots: Vec<ORef> = Vec::new();
        let mut i: usize = 0;
        while i < self.slots.len()
            invariant
                i <= self.slots.len(),
                slots@.len() == i,
                forall|k: int| 0 <= k < i ==> (#[trigger] slots@[k])@ == self.slots@[k]@,
            decreases self.slots.len() - i,
        {
            slots.push(self.slots[i].duplicate());
            i = i + 1;
        }
        let o = Object { id: self.id, class: self.class, shape: self.shape, slots };
        assert(o@.slots =~= self@.slots);
        o
    }

    /// The slot index of `name` in the object's shape.
    fn slot_index(&self, shapes: &ShapeRegistry, name: &Symbol) -> (r: Option<usize>)
        requires
            shapes.wf(),
            self@.wf(shapes@),
        ensures
            r matches Some(i) ==> slot_index(self@.names(shapes@), name@) == Some(i as int) && i
                < self@.slots.len(),
            r is None ==> slot_index(self@.names(shapes@), name@) is None,
    {
        shapes.shape(self.shape).get_slot_index(name)
    }

    /// The reference stored at slot index `idx`. The index comes from the
    /// object's shape.
    pub fn get_slot_index(&self, idx: usize) -> (r: ORef)
        requires
            idx < self@.slots.len(),
        ensures
            r@ == self@.slots[idx as int],
    {
        self.slots[idx].duplicate()
    }

    /// The reference stored in slot `name`. Where the object has no such
    /// slot, the name is missing.
    pub fn get_slot(&self, shapes: &ShapeRegistry, name: &Symbol) -> (r: Result<ORef, SimulabraErr>)
        requires
            shapes.wf(),
            self@.wf(shapes@),
        ensures
            match self@.slot(shapes@, name@) {
                Some(v) => r is Ok && r->Ok_0@ == v,
                None => r is Err && r->Err_0@ == name@,
            },
    {
        match self.slot_index(shapes, name) {
            Some(idx) => Ok(self.get_slot_index(idx)),
            None => Err(SimulabraErr::MethodMissing(name.duplicate())),
        }
    }

    /// Stores `value` at slot index `idx`. The index comes from the object's
    /// shape.
    pub fn set_slot_index(&mut self, idx: usize, value: ORef)
        requires
            idx < old(self)@.slots.len(),
        ensures
            final(self)@ == old(self)@.with_slot_at(idx as int, value@),
    {
        self.slots.set(idx, value);
        assert(self@.slots =~= old(self)@.slots.update(idx as int, value@));
    }

    /// Stores `value` in slot `name`. A slot that the object has is
    /// overwritten. Else the object's shape becomes the one that the
    /// transition by `name` leads to, and the value is appended. The result is
    /// always `Ok`.
    pub fn set_slot(&mut self, shapes: &mut ShapeRegistry, name: &Symbol, value: ORef) -> (r:
        Result<(), SimulabraErr>)
        requires
            old(shapes).wf(),
            old(self)@.wf(old(shapes)@),
        ensures
            r is Ok,
            final(shapes).wf(),
            final(self)@.wf(final(shapes)@),
            (final(shapes)@, final(self)@) == old(self)@.with_slot(old(shapes)@, name@, value@),
            final(self)@.slot(final(shapes)@, name@) == Some(value@),
            final(shapes)@.len() >= old(shapes)@.len(),
            forall|i: int| 0 <= i < old(shapes)@.len() ==> final(shapes)@[i] == old(shapes)@[i],
    {
        proof {
            shapes.lemma_wf();
            lemma_with_slot(self@, shapes@, name@, value@);
        }
        match self.slot_index(shapes, name) {
            Some(idx) => {
                self.set_slot_index(idx, value);
            },
            None => {
                self.shape = shapes.transition(self.shape, name);
                self.slots.push(value);
                assert(self@.slots =~= old(self)@.slots.push(value@));
            },
        }
        Ok(())
    }

    /// Sends `name` to the object, with the argument `arg` where there is
    /// one. A slot called `name` is served first: without an argument it is
    /// read, with one it is overwritten. Else the method that `name` resolves
    /// to is handed back for the caller to invoke. Where there is none, the
    /// name is missing.
    pub fn send(
        &mut self,
        classes: &ClassTable,
        shapes: &ShapeRegistry,
        name: &Symbol,
        arg: Option<ORef>,
    ) -> (r: Result<Sent, SimulabraErr>)
        requires
            shapes.wf(),
            classes.wf(),
            old(self)@.wf(shapes@),
            old(self)@.class < classes@.len(),
        ensures
            final(self)@.wf(shapes@),
            (final(self)@, sent_view(r)) == old(self)@.sent(
                shapes@,
                classes@,
                name@,
                match arg {
                    Some(a) => Some(a@),
                    None => None,
                },
            ),
            r matches Ok(Sent::Invoke(c, k)) ==> c < classes@.len() && k
                < classes@[c as int].methods.len(),
    {
        match self.slot_index(shapes, name) {
            Some(idx) => match arg {
                None => Ok(Sent::Value(self.get_slot_index(idx))),
                Some(value) => {
                    self.set_slot_index(idx, value);
                    Ok(Sent::Stored)
                },
            },
            None => match classes.find_method(self.class, name) {
                Some((c, k)) => Ok(Sent::Invoke(c, k)),
                None => Err(SimulabraErr::MethodMissing(name.duplicate())),
            },
        }
    }
}

impl Clone for Object {
    fn clone(&self) -> (o: Object)
        ensures
            o@ == self@,
    {
        self.duplicate()
    }
}

} // verus!
