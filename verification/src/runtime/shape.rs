//! Shapes: which slots an object has, and where each one is stored.
//!
//! A shape is the sequence of the distinct slot names that an object acquired,
//! in the order in which it acquired them; a name's position is its slot
//! index. Shapes are never changed. A registry holds every shape once, so two
//! objects with the same names in the same order have the same shape
//! identifier, and layouts are compared by comparing identifiers.

use vstd::prelude::*;
use crate::runtime::symbol::{Symbol, texts, position};

verus! {

/// The slot index of `name` in a layout: its position, if it occurs.
pub open spec fn slot_index(names: Seq<Seq<char>>, name: Seq<char>) -> Option<int> {
    position(names, name)
}

/// A slot layout: distinct names, each at its slot index.
#[derive(Debug)]
pub struct Shape {
    names: Vec<Symbol>,
    height: usize,
}

impl View for Shape {
    type V = Seq<Seq<char>>;

    closed spec fn view(&self) -> Seq<Seq<char>> {
        texts(self.names@)
    }
}

impl Shape {
    /// No name occurs twice, and the height counts the transitions from the
    /// empty shape.
    pub closed spec fn wf(&self) -> bool {
        &&& self@.no_duplicates()
        &&& self.height == self.names@.len()
    }

    /// The height as a specification value.
    pub closed spec fn spec_height(&self) -> nat {
        self.height as nat
    }

    /// What a well-formed shape shows: distinct names, and a height that is the
    /// number of its slots.
    pub proof fn lemma_wf(&self)
        requires
            self.wf(),
        ensures
            self@.no_duplicates(),
            self.spec_height() == self@.len(),
    {
    }

    /// The empty shape, the root of the tree of shapes: no slots, and height
    /// 0.
    pub fn empty() -> (s: Shape)
        ensures
            s.wf(),
            s@ == Seq::<Seq<char>>::empty(),
            s.spec_height() == 0,
    {
        let s = Shape { names: Vec::new(), height: 0 };
        assert(s@ =~= Seq::<Seq<char>>::empty());
        s
    }

    /// The number of slots.
    pub fn slot_count(&self) -> (n: usize)
        ensures
            n == self@.len(),
    {
        self.names.len()
    }

    /// The number of transitions that lead from the empty shape to this one.
    pub fn height(&self) -> (n: usize)
        ensures
            n == self.spec_height(),
    {
        self.height
    }

    /// The name stored at slot index `idx`.
    pub fn name_at(&self, idx: usize) -> (s: &Symbol)
        requires
            idx < self@.len(),
        ensures
            s@ == self@[idx as int],
    {
        &self.names[idx]
    }

    /// The slot index of `name`, or `None` where the shape has no such slot.
    pub fn get_slot_index(&self, name: &Symbol) -> (r: Option<usize>)
        requires
            self.wf(),
        ensures
            r is Some <==> self@.contains(name@),
            r matches Some(i) ==> i < self@.len() && self@[i as int] == name@
                && slot_index(self@, name@) == Some(i as int),
            r is None ==> slot_index(self@, name@) is None,
    {
        let mut i: usize = 0;
        while i < self.names.len()
            invariant
                i <= self.names.len(),
                self@.no_duplicates(),
                forall|k: int| 0 <= k < i ==> #[trigger] self@[k] != name@,
            decreases self.names.len() - i,
        {
            if self.names[i].same(name) {
                assert(self@[i as int] == name@);
                assert(self@.contains(name@));
                let ghost j = self@.index_of(name@);
                assert(self@[j] == name@);
                assert(j == i);
                return Some(i);
            }
            i = i + 1;
        }
        None
    }

    /// The shape with one more slot, for `name`, stored after the slots this
    /// shape has. The caller has checked that the shape has no slot `name`.
    pub fn transition(&self, name: Symbol) -> (s: Shape)
        requires
            self.wf(),
            !self@.contains(name@),
        ensures
            s.wf(),
            s@ == self@.push(name@),
            s.spec_height() == self.spec_height() + 1,
    {
        let mut names: Vec<Symbol> = Vec::new();
        let mut i: usize = 0;
        while i < self.names.len()
            invariant
                i <= self.names.len(),
                names@.len() == i,
                forall|k: int| 0 <= k < i ==> (#[trigger] names@[k])@ == self.names@[k]@,
            decreases self.names.len() - i,
        {
            names.push(self.names[i].duplicate());
            i = i + 1;
        }
        names.push(name);
        assert(texts(names@) =~= self@.push(name@));
        let height = names.len();
        let s = Shape { names, height };
        proof {
            lemma_push_no_duplicates(self@, name@);
        }
        s
    }
}

/// The layouts of a registry, by shape identifier.
pub type Layouts = Seq<Seq<Seq<char>>>;

/// What holds of the layouts of every registry: the empty layout has
/// identifier 0, no layout names a slot twice, and no layout is held twice.
pub open spec fn layouts_wf(reg: Layouts) -> bool {
    &&& reg.len() >= 1
    &&& reg[0] == Seq::<Seq<char>>::empty()
    &&& forall|i: int| 0 <= i < reg.len() ==> (#[trigger] reg[i]).no_duplicates()
    &&& reg.no_duplicates()
}

/// The transition from layout `id` by `name`: the registry afterwards, and the
/// identifier of the layout reached. Where the registry holds the layout
/// reached, it stays as it is; else the layout is added at the end.
pub open spec fn spec_transition(reg: Layouts, id: int, name: Seq<char>) -> (Layouts, int) {
    let target = reg[id].push(name);
    if reg.contains(target) {
        (reg, reg.index_of(target))
    } else {
        (reg.push(target), reg.len() as int)
    }
}

/// Every shape in use, each held once. Shapes are added and never removed, so
/// an identifier, once given, always names the same layout.
#[derive(Debug)]
pub struct ShapeRegistry {
    shapes: Vec<Shape>,
    parents: Vec<usize>,
}

impl View for ShapeRegistry {
    type V = Layouts;

    closed spec fn view(&self) -> Layouts {
        self.shapes@.map_values(|s: Shape| s@)
    }
}

impl ShapeRegistry {
    /// The registry is well formed: its layouts are, and every shape but the
    /// empty one extends its parent by one name.
    pub closed spec fn wf(&self) -> bool {
        &&& layouts_wf(self@)
        &&& self.parents@.len() == self.shapes@.len()
        &&& forall|i: int| 0 <= i < self.shapes@.len() ==> (#[trigger] self.shapes@[i]).wf()
        &&& forall|j: int|
            1 <= j < self.shapes@.len() ==> {
                &&& (#[trigger] self.parents@[j]) < j
                &&& self@[j].len() >= 1
                &&& self@[j].drop_last() == self@[self.parents@[j] as int]
            }
    }

    /// The layouts of a well-formed registry are well formed.
    pub proof fn lemma_wf(&self)
        requires
            self.wf(),
        ensures
            layouts_wf(self@),
    {
    }

    /// A registry that holds the empty shape alone.
    pub fn new() -> (r: ShapeRegistry)
        ensures
            r.wf(),
            r@ == seq![Seq::<Seq<char>>::empty()],
    {
        let mut shapes: Vec<Shape> = Vec::new();
        shapes.push(Shape::empty());
        let mut parents: Vec<usize> = Vec::new();
        parents.push(0);
        let r = ShapeRegistry { shapes, parents };
        assert(r@ =~= seq![Seq::<Seq<char>>::empty()]);
        r
    }

    /// The identifier of the empty shape.
    pub fn root(&self) -> (id: usize)
        ensures
            id == 0,
    {
        0
    }

    /// The number of shapes held.
    pub fn len(&self) -> (n: usize)
        ensures
            n == self@.len(),
    {
        self.shapes.len()
    }

    /// The shape with identifier `id`.
    pub fn shape(&self, id: usize) -> (s: &Shape)
        requires
            self.wf(),
            id < self@.len(),
        ensures
            s.wf(),
            s@ == self@[id as int],
    {
        &self.shapes[id]
    }

    /// The identifier of the shape that extends shape `id` by a slot `name`.
    /// The shape is added to the registry unless it is there already. The
    /// caller has checked that shape `id` has no slot `name`.
    pub fn transition(&mut self, id: usize, name: &Symbol) -> (r: usize)
        requires
            old(self).wf(),
            id < old(self)@.len(),
            !old(self)@[id as int].contains(name@),
        ensures
            final(self).wf(),
            (final(self)@, r as int) == spec_transition(old(self)@, id as int, name@),
            r < final(self)@.len(),
            final(self)@[r as int] == old(self)@[id as int].push(name@),
            final(self)@.len() >= old(self)@.len(),
            forall|i: int| 0 <= i < old(self)@.len() ==> final(self)@[i] == old(self)@[i],
    {
        let ghost reg = self@;
        let ghost target = reg[id as int].push(name@);
        assert(reg[0].len() != target.len());
        let mut j: usize = 1;
        while j < self.shapes.len()
            invariant
                1 <= j <= self.shapes.len(),
                self.wf(),
                self@ == reg,
                id < reg.len(),
                target == reg[id as int].push(name@),
                forall|k: int| 0 <= k < j ==> #[trigger] reg[k] != target,
            decreases self.shapes.len() - j,
        {
            let candidate = &self.shapes[j];
            let parent = self.parents[j];
            let n = candidate.slot_count();
            assert(candidate@ == reg[j as int]);
            assert(reg[j as int] =~= reg[j as int].drop_last().push(reg[j as int].last()));
            if parent == id && candidate.name_at(n - 1).same(name) {
                assert(reg[j as int] == target);
                assert(reg.contains(target));
                assert(reg.index_of(target) == j);
                return j;
            }
            assert(reg[j as int] != target) by {
                if reg[j as int] == target {
                    assert(target.drop_last() =~= reg[id as int]);
                    assert(target.last() == name@);
                    assert(reg[self.parents@[j as int] as int] == reg[id as int]);
                }
            }
            j = j + 1;
        }
        assert(!reg.contains(target));
        let shape = self.shapes[id].transition(name.duplicate());
        let r = self.shapes.len();
        self.shapes.push(shape);
        self.parents.push(id);
        proof {
            assert(self@ =~= reg.push(target));
            assert(target.drop_last() =~= reg[id as int]);
            lemma_push_no_duplicates(reg, target);
            assert forall|i: int| 0 <= i < self@.len() implies (#[trigger] self@[i]).no_duplicates() by {
                if i < reg.len() {
                    assert(self@[i] == reg[i]);
                }
            }
        }
        r
    }
}

/// A transition adds one slot and moves none: the layout reached has one name
/// more, every name of the layout left keeps its slot index, and the new name
/// has the index that was the slot count.
pub proof fn lemma_transition_monotone(names: Seq<Seq<char>>, name: Seq<char>)
    requires
        names.no_duplicates(),
        !names.contains(name),
    ensures
        names.push(name).len() == names.len() + 1,
        names.push(name).no_duplicates(),
        forall|k: int| 0 <= k < names.len() ==> names.push(name)[k] == names[k],
        forall|k: int|
            0 <= k < names.len() ==> slot_index(names.push(name), #[trigger] names[k]) == Some(k),
        slot_index(names.push(name), name) == Some(names.len() as int),
{
    let t = names.push(name);
    lemma_push_no_duplicates(names, name);
    assert forall|k: int| 0 <= k < t.len() implies slot_index(t, #[trigger] t[k]) == Some(k) by {
        assert(t.contains(t[k]));
        let j = t.index_of(t[k]);
        assert(t[j] == t[k]);
    }
    assert(t[names.len() as int] == name);
    assert forall|k: int| 0 <= k < names.len() implies slot_index(t, #[trigger] names[k]) == Some(
        k,
    ) by {
        assert(t[k] == names[k]);
    }
}

/// A transition keeps the registry well formed and every shape that it held,
/// and leads to the layout that extends the one left by `name`.
pub proof fn lemma_spec_transition(reg: Layouts, id: int, name: Seq<char>)
    requires
        layouts_wf(reg),
        0 <= id < reg.len(),
        !reg[id].contains(name),
    ensures
        ({
            let (grown, shape) = spec_transition(reg, id, name);
            &&& layouts_wf(grown)
            &&& 0 <= shape < grown.len()
            &&& grown[shape] == reg[id].push(name)
            &&& grown.len() >= reg.len()
            &&& forall|i: int| 0 <= i < reg.len() ==> grown[i] == reg[i]
        }),
{
    let target = reg[id].push(name);
    if reg.contains(target) {
        let j = reg.index_of(target);
        assert(reg[j] == target);
    } else {
        let grown = reg.push(target);
        lemma_push_no_duplicates(reg, target);
        lemma_push_no_duplicates(reg[id], name);
        assert forall|i: int| 0 <= i < grown.len() implies (#[trigger] grown[i]).no_duplicates() by {
            if i < reg.len() {
                assert(grown[i] == reg[i]);
            }
        }
    }
}

/// A sequence without duplicates stays so when a new element is appended.
pub proof fn lemma_push_no_duplicates<A>(s: Seq<A>, a: A)
    requires
        s.no_duplicates(),
        !s.contains(a),
    ensures
        s.push(a).no_duplicates(),
{
    let t = s.push(a);
    assert forall|i: int, j: int| 0 <= i < t.len() && 0 <= j < t.len() && i != j implies t[i]
        != t[j] by {
        if i < s.len() && j < s.len() {
        } else if i < s.len() {
            assert(s.contains(s[i]));
        } else {
            assert(s.contains(s[j]));
        }
    }
}

} // verus!
