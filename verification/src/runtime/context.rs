//! The context: the arena that owns the objects, the classes and the shapes
//! of a running model, and the history of its frames.
//!
//! Versions are kept as whole snapshots. Leaving a frame freezes it: the
//! object store as it then is is copied and kept under the frame's path, and
//! is never changed again. A reference pinned to a frame reads that copy; a
//! reference to the present reads the live store. Writes go to the live store
//! alone and are seen at once by every reader of the present.

use vstd::prelude::*;
use crate::runtime::class::{Class, Method, MethodView};
use crate::runtime::frame::{Frame, RefFrame};
use crate::runtime::object::{Object, ObjectView, SimulabraErr, lemma_with_slot};
use crate::runtime::oref::{ORef, ORefView};
use crate::runtime::shape::{Layouts, ShapeRegistry, layouts_wf};
use crate::runtime::store::{ObjectStore, Objects};
use crate::runtime::symbol::Symbol;
use crate::runtime::table::{ClassTable, Classes, admits, classes_wf, resolve};

verus! {

/// The frozen frames of a context: for each, the object store as it was when
/// the frame was left.
pub type History = Map<Seq<u64>, Objects>;

/// Every object of the store is kept under its own identifier, which the
/// context has given out, has a shape of the registry with as many stored
/// references as the shape has slots, and has a class of the table.
pub open spec fn objects_wf(objects: Objects, next_id: u64, layouts: Layouts, classes: Classes) -> bool {
    forall|id: u64| #[trigger]
        objects.contains_key(id) ==> {
            &&& objects[id].id == id
            &&& id < next_id
            &&& objects[id].wf(layouts)
            &&& objects[id].class < classes.len()
        }
}

/// Whether `layouts` is kept in `grown`: every shape identifier of the first
/// names the same layout in the second.
pub open spec fn layouts_kept(layouts: Layouts, grown: Layouts) -> bool {
    &&& layouts.len() <= grown.len()
    &&& forall|i: int| 0 <= i < layouts.len() ==> grown[i] == layouts[i]
}

/// Whether `classes` is kept in `grown`: every class index of the first names
/// the same class in the second.
pub open spec fn classes_kept(classes: Classes, grown: Classes) -> bool {
    &&& classes.len() <= grown.len()
    &&& forall|i: int| 0 <= i < classes.len() ==> grown[i] == classes[i]
}

/// A well-formed store stays so when identifiers are given out, shapes are
/// added and classes are added.
pub proof fn lemma_objects_wf_kept(
    objects: Objects,
    next_id: u64,
    layouts: Layouts,
    classes: Classes,
    later_id: u64,
    grown: Layouts,
    more: Classes,
)
    requires
        objects_wf(objects, next_id, layouts, classes),
        next_id <= later_id,
        layouts_kept(layouts, grown),
        classes.len() <= more.len(),
    ensures
        objects_wf(objects, later_id, grown, more),
{
    assert forall|id: u64| #[trigger] objects.contains_key(id) implies {
        &&& objects[id].id == id
        &&& id < later_id
        &&& objects[id].wf(grown)
        &&& objects[id].class < more.len()
    } by {
        assert(objects[id].wf(layouts));
        assert(grown[objects[id].shape] == layouts[objects[id].shape]);
    }
}

/// A context as a mathematical value.
pub struct ContextView {
    pub id: u64,
    /// The current frame: the one that writes are recorded against.
    pub frame: Seq<u64>,
    /// The live objects.
    pub objects: Objects,
    /// The identifier that the next object gets.
    pub next_id: u64,
    pub classes: Classes,
    pub layouts: Layouts,
    /// The frozen frames.
    pub history: History,
}

impl ContextView {
    /// What holds of every context. The registry, the table and every store,
    /// live or frozen, are well formed. The current frame is not frozen. The
    /// frames form a tree: every frame but the root, frozen or current, is
    /// the child of a frozen frame.
    pub open spec fn wf(self) -> bool {
        &&& layouts_wf(self.layouts)
        &&& classes_wf(self.classes)
        &&& objects_wf(self.objects, self.next_id, self.layouts, self.classes)
        &&& forall|f: Seq<u64>| #[trigger]
            self.history.contains_key(f) ==> objects_wf(
                self.history[f],
                self.next_id,
                self.layouts,
                self.classes,
            )
        &&& !self.history.contains_key(self.frame)
        &&& self.frame.len() > 0 ==> self.history.contains_key(self.frame.drop_last())
        &&& forall|f: Seq<u64>| #[trigger]
            self.history.contains_key(f) && f.len() > 0 ==> self.history.contains_key(
                f.drop_last(),
            )
    }

    /// The store that a reference of the given version reads: the live store
    /// for the present, the frozen store for a frozen frame, none for a frame
    /// that is not frozen.
    pub open spec fn store_at(self, frame: Option<Seq<u64>>) -> Option<Objects> {
        match frame {
            None => Some(self.objects),
            Some(f) => if self.history.contains_key(f) {
                Some(self.history[f])
            } else {
                None
            },
        }
    }

    /// The object that a reference denotes: the object with the reference's
    /// identifier in the store of the reference's version. A reference of
    /// another context denotes nothing.
    pub open spec fn deref(self, r: ORefView) -> Option<ObjectView> {
        if r.context != self.id {
            None
        } else {
            match self.store_at(r.frame) {
                Some(store) => if store.contains_key(r.id) {
                    Some(store[r.id])
                } else {
                    None
                },
                None => None,
            }
        }
    }

    /// What slot `name` of the object that `r` denotes holds.
    pub open spec fn slot(self, r: ORefView, name: Seq<char>) -> Option<ORefView> {
        match self.deref(r) {
            Some(obj) => obj.slot(self.layouts, name),
            None => None,
        }
    }

    /// The names of the slots of the object that `r` denotes.
    pub open spec fn names(self, r: ORefView) -> Option<Seq<Seq<char>>> {
        match self.deref(r) {
            Some(obj) => Some(obj.names(self.layouts)),
            None => None,
        }
    }

    /// The method that `name` resolves to on the object that `receiver`
    /// denotes: the defining class and the index in its table.
    pub open spec fn resolve(self, name: Seq<char>, receiver: ORefView) -> Option<(int, int)> {
        match self.deref(receiver) {
            Some(obj) => resolve(self.classes, obj.class as int, name),
            None => None,
        }
    }

    /// That method itself.
    pub open spec fn find_method(self, name: Seq<char>, receiver: ORefView) -> Option<MethodView> {
        match self.resolve(name, receiver) {
            Some((c, k)) => Some(self.classes[c].methods[k]),
            None => None,
        }
    }

    /// Whether `r` can be written through: it is a reference of this context
    /// to the present version of an object that the live store holds.
    pub open spec fn writable(self, r: ORefView) -> bool {
        &&& r.context == self.id
        &&& r.frame is None
        &&& self.objects.contains_key(r.id)
    }

    /// The context after `value` was stored in slot `name` of the live object
    /// `id`. The history is as it was.
    pub open spec fn with_slot(self, id: u64, name: Seq<char>, value: ORefView) -> ContextView {
        let (grown, after) = self.objects[id].with_slot(self.layouts, name, value);
        ContextView { objects: self.objects.insert(id, after), layouts: grown, ..self }
    }

    /// Whether an object of class `class` can be made: the class is in the
    /// table, and an identifier is left.
    pub open spec fn can_instantiate(self, class: usize) -> bool {
        class < self.classes.len() && self.next_id < u64::MAX
    }

    /// The context after an object of class `class` was made. The object has
    /// no slots, and its identifier is the one that was next.
    pub open spec fn instantiated(self, class: usize) -> ContextView {
        ContextView {
            objects: self.objects.insert(
                self.next_id,
                ObjectView { id: self.next_id, class, shape: 0, slots: Seq::empty() },
            ),
            next_id: (self.next_id + 1) as u64,
            ..self
        }
    }

    /// The context after the current frame was left for its child under
    /// `marker`: the frame that was current is frozen with the live store as
    /// it is, and the child is current.
    pub open spec fn frozen(self, marker: u64) -> ContextView {
        ContextView {
            frame: self.frame.push(marker),
            history: self.history.insert(self.frame, self.objects),
            ..self
        }
    }

    /// Whether the context can go back to `frame` and go on from there under
    /// `marker`: the frame is frozen, and its child under the marker is not.
    pub open spec fn can_return_to(self, frame: Seq<u64>, marker: u64) -> bool {
        self.history.contains_key(frame) && !self.history.contains_key(frame.push(marker))
    }

    /// The context after it went back to `frame`: the live store is the one
    /// frozen with the frame, and the frame's child under `marker` is
    /// current. The history is as it was.
    pub open spec fn returned_to(self, frame: Seq<u64>, marker: u64) -> ContextView {
        ContextView { frame: frame.push(marker), objects: self.history[frame], ..self }
    }

    /// Whether `later` can come after `self` in the life of one context: what
    /// is frozen stays frozen as it is, shapes and classes keep their
    /// identifiers, and identifiers are not given out twice.
    pub open spec fn precedes(self, later: ContextView) -> bool {
        &&& later.id == self.id
        &&& self.next_id <= later.next_id
        &&& layouts_kept(self.layouts, later.layouts)
        &&& classes_kept(self.classes, later.classes)
        &&& forall|f: Seq<u64>| #[trigger]
            self.history.contains_key(f) ==> later.history.contains_key(f) && later.history[f]
                == self.history[f]
    }
}

/// A pinned reference reads the same in every later state of the context: it
/// denotes the same object, with the same slot names and the same stored
/// references.
pub proof fn lemma_pinned_read_kept(before: ContextView, later: ContextView, r: ORefView)
    requires
        before.wf(),
        before.precedes(later),
        r.frame is Some,
        before.deref(r) is Some,
    ensures
        later.deref(r) == before.deref(r),
        later.names(r) == before.names(r),
        forall|name: Seq<char>| later.slot(r, name) == before.slot(r, name),
{
    let f = r.frame->0;
    assert(before.history.contains_key(f));
    let obj = before.deref(r)->0;
    assert(before.history[f].contains_key(r.id));
    assert(obj.wf(before.layouts));
    assert(later.layouts[obj.shape] == before.layouts[obj.shape]);
}

/// A frozen frame: its path, and the object store as it was when the frame
/// was left.
#[derive(Debug)]
pub struct Snapshot {
    frame: Frame,
    objects: ObjectStore,
}

/// The frozen frames that a sequence of snapshots holds.
spec fn history_view(h: Seq<Snapshot>) -> History
    decreases h.len(),
{
    if h.len() == 0 {
        Map::empty()
    } else {
        history_view(h.drop_last()).insert(h.last().frame@, h.last().objects@)
    }
}

/// No two snapshots have the same path.
spec fn labels_distinct(h: Seq<Snapshot>) -> bool {
    forall|i: int, j: int|
        0 <= i < h.len() && 0 <= j < h.len() && i != j ==> (#[trigger] h[i]).frame@ != (
        #[trigger] h[j]).frame@
}

/// A frame is frozen exactly when one of the snapshots has its path.
proof fn lemma_history_contains(h: Seq<Snapshot>, f: Seq<u64>)
    ensures
        history_view(h).contains_key(f) <==> exists|i: int|
            0 <= i < h.len() && (#[trigger] h[i]).frame@ == f,
    decreases h.len(),
{
    if h.len() > 0 {
        let t = h.drop_last();
        lemma_history_contains(t, f);
        if history_view(h).contains_key(f) {
            if h.last().frame@ == f {
                assert(h[h.len() - 1].frame@ == f);
            } else {
                let i = choose|i: int| 0 <= i < t.len() && (#[trigger] t[i]).frame@ == f;
                assert(h[i].frame@ == f);
            }
        }
        if exists|i: int| 0 <= i < h.len() && (#[trigger] h[i]).frame@ == f {
            let i = choose|i: int| 0 <= i < h.len() && (#[trigger] h[i]).frame@ == f;
            if i < t.len() {
                assert(t[i].frame@ == f);
            }
        }
    }
}

/// Where no two snapshots have the same path, the store frozen with the path
/// of a snapshot is that snapshot's store.
proof fn lemma_history_lookup(h: Seq<Snapshot>, i: int)
    requires
        labels_distinct(h),
        0 <= i < h.len(),
    ensures
        history_view(h).contains_key(h[i].frame@),
        history_view(h)[h[i].frame@] == h[i].objects@,
    decreases h.len(),
{
    let t = h.drop_last();
    if i == h.len() - 1 {
    } else {
        assert(t[i] == h[i]);
        assert(labels_distinct(t)) by {
            assert forall|a: int, b: int|
                0 <= a < t.len() && 0 <= b < t.len() && a != b implies (#[trigger] t[a]).frame@ != (
            #[trigger] t[b]).frame@ by {
                assert(t[a] == h[a]);
                assert(t[b] == h[b]);
            }
        }
        lemma_history_lookup(t, i);
        assert(h[i].frame@ != h[h.len() - 1].frame@);
    }
}

/// The arena of a running model. It owns the objects, the classes and the
/// shapes, and keeps the frozen frames.
#[derive(Debug)]
pub struct Context {
    id: u64,
    cur_frame: Frame,
    objects: ObjectStore,
    next_id: u64,
    classes: ClassTable,
    shapes: ShapeRegistry,
    history: Vec<Snapshot>,
}

impl View for Context {
    type V = ContextView;

    closed spec fn view(&self) -> ContextView {
        ContextView {
            id: self.id,
            frame: self.cur_frame@,
            objects: self.objects@,
            next_id: self.next_id,
            classes: self.classes@,
            layouts: self.shapes@,
            history: history_view(self.history@),
        }
    }
}

impl Context {
    /// The context is well formed.
    pub closed spec fn wf(&self) -> bool {
        &&& self.shapes.wf()
        &&& self.classes.wf()
        &&& labels_distinct(self.history@)
        &&& self@.wf()
    }

    /// A well-formed context is well formed as a mathematical value.
    pub proof fn lemma_wf(&self)
        requires
            self.wf(),
        ensures
            self@.wf(),
    {
    }

    /// A context `id` with no objects and no classes. Its current frame is
    /// the root, and nothing is frozen.
    pub fn new(id: u64) -> (c: Context)
        ensures
            c.wf(),
            c@ == (ContextView {
                id,
                frame: Seq::empty(),
                objects: Map::empty(),
                next_id: 0,
                classes: Seq::empty(),
                layouts: seq![Seq::<Seq<char>>::empty()],
                history: Map::empty(),
            }),
    {
        let c = Context {
            id,
            cur_frame: Frame::root(),
            objects: ObjectStore::new(),
            next_id: 0,
            classes: ClassTable::new(),
            shapes: ShapeRegistry::new(),
            history: Vec::new(),
        };
        proof {
            c.shapes.lemma_wf();
            c.classes.lemma_wf();
        }
        c
    }

    /// The context's identifier.
    pub fn id(&self) -> (n: u64)
        ensures
            n == self@.id,
    {
        self.id
    }

    /// The current frame.
    pub fn cur_frame(&self) -> (f: &Frame)
        ensures
            f@ == self@.frame,
    {
        &self.cur_frame
    }

    /// The class table.
    pub fn classes(&self) -> (t: &ClassTable)
        requires
            self.wf(),
        ensures
            t.wf(),
            t@ == self@.classes,
    {
        &self.classes
    }

    /// The shape registry.
    pub fn shapes(&self) -> (r: &ShapeRegistry)
        requires
            self.wf(),
        ensures
            r.wf(),
            r@ == self@.layouts,
    {
        &self.shapes
    }

    /// Adds `class` to the class table, where the table admits it, and
    /// returns its index. A class that is not admitted leaves the context as
    /// it was.
    pub fn add_class(&mut self, class: Class) -> (r: Option<usize>)
        requires
            old(self).wf(),
            class.wf(),
        ensures
            final(self).wf(),
            old(self)@.precedes(final(self)@),
            admits(old(self)@.classes, class@) ==> r == Some(old(self)@.classes.len() as usize)
                && final(self)@ == (ContextView {
                classes: old(self)@.classes.push(class@),
                ..old(self)@
            }),
            !admits(old(self)@.classes, class@) ==> r is None && final(self)@ == old(self)@,
    {
        let ghost before = self@;
        let r = self.classes.add(class);
        proof {
            self.classes.lemma_wf();
            lemma_objects_wf_kept(
                before.objects,
                before.next_id,
                before.layouts,
                before.classes,
                before.next_id,
                before.layouts,
                self@.classes,
            );
            assert forall|f: Seq<u64>| #[trigger] self@.history.contains_key(f) implies objects_wf(
                self@.history[f],
                self@.next_id,
                self@.layouts,
                self@.classes,
            ) by {
                lemma_objects_wf_kept(
                    before.history[f],
                    before.next_id,
                    before.layouts,
                    before.classes,
                    before.next_id,
                    before.layouts,
                    self@.classes,
                );
            }
        }
        r
    }

    /// Makes an object of the class with index `class`, with no slots, and
    /// returns a reference to its present version. `None` where the table has
    /// no such class or no identifier is left.
    pub fn instantiate(&mut self, class: usize) -> (r: Option<ORef>)
        requires
            old(self).wf(),
        ensures
            final(self).wf(),
            old(self)@.precedes(final(self)@),
            old(self)@.can_instantiate(class) ==> {
                &&& r is Some
                &&& r->0@ == (ORefView {
                    id: old(self)@.next_id,
                    frame: None,
                    node: 0,
                    context: old(self)@.id,
                })
                &&& final(self)@ == old(self)@.instantiated(class)
            },
            !old(self)@.can_instantiate(class) ==> r is None && final(self)@ == old(self)@,
    {
        if class >= self.classes.len() || self.next_id == u64::MAX {
            return None;
        }
        let ghost before = self@;
        let id = self.next_id;
        self.objects.put(id, Object::new(id, class));
        self.next_id = id + 1;
        proof {
            lemma_objects_wf_kept(
                before.objects,
                before.next_id,
                before.layouts,
                before.classes,
                self@.next_id,
                before.layouts,
                before.classes,
            );
            assert forall|f: Seq<u64>| #[trigger] self@.history.contains_key(f) implies objects_wf(
                self@.history[f],
                self@.next_id,
                self@.layouts,
                self@.classes,
            ) by {
                lemma_objects_wf_kept(
                    before.history[f],
                    before.next_id,
                    before.layouts,
                    before.classes,
                    self@.next_id,
                    before.layouts,
                    before.classes,
                );
            }
        }
        Some(ORef::new(id, self.id))
    }

    /// The position, among the snapshots, of the one frozen with `frame`.
    fn find_frozen(&self, frame: &Frame) -> (r: Option<usize>)
        requires
            self.wf(),
        ensures
            r matches Some(i) ==> i < self.history@.len() && self.history@[i as int].frame@
                == frame@ && self@.history.contains_key(frame@) && self@.history[frame@]
                == self.history@[i as int].objects@,
            r is None ==> !self@.history.contains_key(frame@),
    {
        let mut i: usize = 0;
        while i < self.history.len()
            invariant
                i <= self.history.len(),
                self.wf(),
                forall|k: int| 0 <= k < i ==> (#[trigger] self.history@[k]).frame@ != frame@,
            decreases self.history.len() - i,
        {
            if self.history[i].frame.same(frame) {
                proof {
                    lemma_history_lookup(self.history@, i as int);
                }
                return Some(i);
            }
            i = i + 1;
        }
        proof {
            lemma_history_contains(self.history@, frame@);
        }
        None
    }

    /// The object that `oref` denotes, borrowed from the context, which
    /// stays its owner. `None` where the reference denotes nothing: it is of
    /// another context, its frame is not frozen, or the store of its version
    /// holds no object of that identifier.
    pub fn get_oref(&self, oref: &ORef) -> (r: Option<&Object>)
        requires
            self.wf(),
        ensures
            r matches Some(o) ==> self@.deref(oref@) == Some(o@),
            r is None ==> self@.deref(oref@) is None,
    {
        if oref.context() != self.id {
            return None;
        }
        match oref.frame() {
            RefFrame::Present => self.objects.get(oref.id()),
            RefFrame::Frame(f) => match self.find_frozen(f) {
                Some(i) => self.history[i].objects.get(oref.id()),
                None => None,
            },
        }
    }

    /// The method that `name` resolves to on the object that `receiver`
    /// denotes: the receiver's class is searched first, then its parents in
    /// declaration order, each with what it is composed of. `None` where the
    /// reference denotes nothing or no class on the way defines the method.
    /// The context is not changed.
    pub fn find_method(&self, name: &Symbol, receiver: &ORef) -> (r: Option<&Method>)
        requires
            self.wf(),
        ensures
            r matches Some(m) ==> self@.find_method(name@, receiver@) == Some(m@),
            r is None ==> self@.find_method(name@, receiver@) is None,
    {
        match self.get_oref(receiver) {
            Some(obj) => {
                assert(self@.deref(receiver@) == Some(obj@));
                assert(obj@.class < self@.classes.len()) by {
                    lemma_deref_wf(self@, receiver@);
                }
                match self.classes.find_method(obj.class(), name) {
                    Some((c, k)) => Some(self.classes.method(c, k)),
                    None => None,
                }
            },
            None => None,
        }
    }

    /// The reference stored in slot `name` of the object that `target`
    /// denotes. Where the reference denotes nothing, or the object has no
    /// such slot, the name is missing.
    pub fn get_slot(&self, target: &ORef, name: &Symbol) -> (r: Result<ORef, SimulabraErr>)
        requires
            self.wf(),
        ensures
            match self@.slot(target@, name@) {
                Some(v) => r is Ok && r->Ok_0@ == v,
                None => r is Err && r->Err_0@ == name@,
            },
    {
        match self.get_oref(target) {
            Some(obj) => {
                proof {
                    lemma_deref_wf(self@, target@);
                }
                obj.get_slot(&self.shapes, name)
            },
            None => Err(SimulabraErr::MethodMissing(name.duplicate())),
        }
    }

    /// Stores `value` in slot `name` of the live object that `target`
    /// denotes. A slot that the object has is overwritten; a new slot is
    /// appended, and the object's shape changes. The frozen frames are not
    /// touched. Where `target` cannot be written through, nothing is changed
    /// and the name is missing.
    pub fn set_slot(&mut self, target: &ORef, name: &Symbol, value: ORef) -> (r: Result<
        (),
        SimulabraErr,
    >)
        requires
            old(self).wf(),
        ensures
            final(self).wf(),
            old(self)@.precedes(final(self)@),
            old(self)@.writable(target@) ==> r is Ok && final(self)@ == old(self)@.with_slot(
                target@.id,
                name@,
                value@,
            ) && final(self)@.slot(target@, name@) == Some(value@),
            !old(self)@.writable(target@) ==> r is Err && r->Err_0@ == name@ && final(self)@
                == old(self)@,
    {
        if target.context() != self.id || !target.is_present() {
            return Err(SimulabraErr::MethodMissing(name.duplicate()));
        }
        let id = target.id();
        let ghost before = self@;
        match self.objects.take(id) {
            None => {
                assert(self@.objects =~= before.objects);
                Err(SimulabraErr::MethodMissing(name.duplicate()))
            },
            Some(mut obj) => {
                let ghost o = obj@;
                proof {
                    lemma_with_slot(o, before.layouts, name@, value@);
                }
                let _ = obj.set_slot(&mut self.shapes, name, value);
                self.objects.put(id, obj);
                proof {
                    self.shapes.lemma_wf();
                    assert(self@.objects =~= before.objects.insert(id, obj@));
                    lemma_stores_kept(before, self@);
                }
                Ok(())
            },
        }
    }

    /// Leaves the current frame for its child under `marker`. The frame that
    /// was current is frozen with the live store as it is, and is returned:
    /// a reference pinned to it reads the objects as they are now, whatever is
    /// written later.
    pub fn freeze(&mut self, marker: u64) -> (f: Frame)
        requires
            old(self).wf(),
        ensures
            final(self).wf(),
            old(self)@.precedes(final(self)@),
            f@ == old(self)@.frame,
            final(self)@ == old(self)@.frozen(marker),
    {
        let ghost before = self@;
        let ghost h = self.history@;
        let left = self.cur_frame.duplicate();
        let child = self.cur_frame.child(marker);
        let snapshot = Snapshot { frame: self.cur_frame.duplicate(), objects: self.objects.duplicate() };
        self.history.push(snapshot);
        self.cur_frame = child;
        proof {
            assert(self.history@.drop_last() =~= h);
            assert(self@.history =~= before.history.insert(before.frame, before.objects));
            assert(labels_distinct(self.history@)) by {
                assert forall|i: int, j: int|
                    0 <= i < self.history@.len() && 0 <= j < self.history@.len() && i
                        != j implies (#[trigger] self.history@[i]).frame@ != (
                #[trigger] self.history@[j]).frame@ by {
                    lemma_history_contains(h, before.frame);
                    if i < h.len() {
                        assert(h[i] == self.history@[i]);
                    }
                    if j < h.len() {
                        assert(h[j] == self.history@[j]);
                    }
                }
            }
            let child_path = before.frame.push(marker);
            assert(child_path.drop_last() =~= before.frame);
            assert(!self@.history.contains_key(child_path)) by {
                if before.history.contains_key(child_path) {
                    assert(before.history.contains_key(child_path.drop_last()));
                }
            }
        }
        left
    }

    /// Goes back to the frozen frame `frame` and goes on from there under
    /// `marker`: the live store becomes a copy of the one frozen with the
    /// frame, and the frame's child under the marker becomes current. What was
    /// live and not frozen is given up. Returns whether it went back; where it
    /// did not, nothing is changed.
    pub fn return_to(&mut self, frame: &Frame, marker: u64) -> (went: bool)
        requires
            old(self).wf(),
        ensures
            final(self).wf(),
            old(self)@.precedes(final(self)@),
            went == old(self)@.can_return_to(frame@, marker),
            went ==> final(self)@ == old(self)@.returned_to(frame@, marker),
            !went ==> final(self)@ == old(self)@,
    {
        let child = frame.child(marker);
        match self.find_frozen(frame) {
            None => false,
            Some(i) => {
                if self.find_frozen(&child).is_some() {
                    return false;
                }
                let store = self.history[i].objects.duplicate();
                self.objects = store;
                self.cur_frame = child;
                proof {
                    assert(frame@.push(marker).drop_last() =~= frame@);
                }
                true
            },
        }
    }
}

/// In a well-formed context, what a reference denotes is a well-formed
/// object of a class of the table, kept under the reference's identifier.
pub proof fn lemma_deref_wf(ctx: ContextView, r: ORefView)
    requires
        ctx.wf(),
        ctx.deref(r) is Some,
    ensures
        ctx.deref(r)->0.wf(ctx.layouts),
        ctx.deref(r)->0.class < ctx.classes.len(),
        ctx.deref(r)->0.id == r.id,
{
    match r.frame {
        None => {
            assert(ctx.objects.contains_key(r.id));
        },
        Some(f) => {
            assert(ctx.history.contains_key(f));
            assert(ctx.history[f].contains_key(r.id));
        },
    }
}

/// Where only the live store and the registry changed, and the registry kept
/// its shapes, the frozen stores are still well formed.
proof fn lemma_stores_kept(before: ContextView, after: ContextView)
    requires
        before.wf(),
        after.history == before.history,
        after.next_id == before.next_id,
        after.classes == before.classes,
        layouts_kept(before.layouts, after.layouts),
        forall|id: u64| #[trigger]
            after.objects.contains_key(id) ==> before.objects.contains_key(id),
        forall|id: u64| #[trigger]
            after.objects.contains_key(id) ==> after.objects[id].id == id
                && after.objects[id].class < after.classes.len() && (after.objects[id].wf(
                after.layouts,
            ) || after.objects[id] == before.objects[id]),
    ensures
        objects_wf(after.objects, after.next_id, after.layouts, after.classes),
        forall|f: Seq<u64>| #[trigger]
            after.history.contains_key(f) ==> objects_wf(
                after.history[f],
                after.next_id,
                after.layouts,
                after.classes,
            ),
{
    assert forall|id: u64| #[trigger] after.objects.contains_key(id) implies {
        &&& after.objects[id].id == id
        &&& id < after.next_id
        &&& after.objects[id].wf(after.layouts)
        &&& after.objects[id].class < after.classes.len()
    } by {
        assert(before.objects.contains_key(id));
        if !after.objects[id].wf(after.layouts) {
            let o = before.objects[id];
            assert(o.wf(before.layouts));
            assert(after.layouts[o.shape] == before.layouts[o.shape]);
        }
    }
    assert forall|f: Seq<u64>| #[trigger] after.history.contains_key(f) implies objects_wf(
        after.history[f],
        after.next_id,
        after.layouts,
        after.classes,
    ) by {
        lemma_objects_wf_kept(
            before.history[f],
            before.next_id,
            before.layouts,
            before.classes,
            after.next_id,
            after.layouts,
            after.classes,
        );
    }
}

} // verus!
