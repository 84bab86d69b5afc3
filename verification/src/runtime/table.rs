//! The class table, and method resolution through it.

use vstd::prelude::*;
use crate::runtime::class::{Class, ClassView, Method};
use crate::runtime::symbol::Symbol;

verus! {

/// The classes of a table, by class index.
pub type Classes = Seq<ClassView>;

/// What holds of the classes of every table: each class is well formed, the
/// parents of a class stand before it in the table, and no two classes have
/// the same name.
pub open spec fn classes_wf(classes: Classes) -> bool {
    &&& forall|c: int| 0 <= c < classes.len() ==> (#[trigger] classes[c]).wf()
    &&& forall|c: int, j: int|
        0 <= c < classes.len() && 0 <= j < classes[c].parents.len() ==> (
        #[trigger] classes[c].parents[j]) < c
    &&& forall|a: int, b: int|
        0 <= a < classes.len() && 0 <= b < classes.len() && a != b ==> (#[trigger] classes[a]).name
            != (#[trigger] classes[b]).name
}

/// The method that a message `name` resolves to on an instance of class `c`:
/// the class that defines it and its index in that class's table. The class
/// itself is searched first, then each parent in declaration order, each
/// with all that it is composed of before the next parent is tried. The first
/// definition met is the result.
pub open spec fn resolve(classes: Classes, c: int, name: Seq<char>) -> Option<(int, int)>
    decreases c, 1nat, 0nat,
{
    if c < 0 || c >= classes.len() {
        None
    } else {
        match classes[c].own_method(name) {
            Some(k) => Some((c, k)),
            None => resolve_parents(classes, c, 0, name),
        }
    }
}

/// The search of `resolve` through the parents of class `c`, from position
/// `from` of the parent list on.
pub open spec fn resolve_parents(classes: Classes, c: int, from: int, name: Seq<char>) -> Option<
    (int, int),
>
    decreases c, 0nat, classes[c].parents.len() - from,
{
    if c < 0 || c >= classes.len() || from < 0 || from >= classes[c].parents.len() {
        None
    } else {
        let p = classes[c].parents[from] as int;
        let hit = if p < c {
            resolve(classes, p, name)
        } else {
            None
        };
        match hit {
            Some(found) => Some(found),
            None => resolve_parents(classes, c, from + 1, name),
        }
    }
}

/// The index of the class called `name`.
pub open spec fn class_named(classes: Classes, name: Seq<char>) -> Option<int> {
    if exists|c: int| 0 <= c < classes.len() && (#[trigger] classes[c]).name == name {
        Some(choose|c: int| 0 <= c < classes.len() && (#[trigger] classes[c]).name == name)
    } else {
        None
    }
}

/// A class is accepted into a table when its parents are in the table and no
/// class of the table has its name.
pub open spec fn admits(classes: Classes, class: ClassView) -> bool {
    &&& forall|j: int| 0 <= j < class.parents.len() ==> (#[trigger] class.parents[j]) < classes.len()
    &&& class_named(classes, class.name) is None
}

/// What resolution finds is a method of the table, and it is called `name`.
pub proof fn lemma_resolve_found(classes: Classes, c: int, name: Seq<char>)
    requires
        classes_wf(classes),
    ensures
        resolve(classes, c, name) matches Some((d, k)) ==> {
            &&& 0 <= d <= c
            &&& d < classes.len()
            &&& classes[d].own_method(name) == Some(k)
            &&& 0 <= k < classes[d].methods.len()
            &&& classes[d].methods[k].name == name
        },
    decreases c, 1nat, 0nat,
{
    if 0 <= c < classes.len() {
        match classes[c].own_method(name) {
            Some(k) => {
                let names = classes[c].method_names();
                assert(names.contains(name));
                assert(names[k] == name);
            },
            None => {
                lemma_resolve_parents_found(classes, c, 0, name);
            },
        }
    }
}

/// The same, for the search through the parents.
pub proof fn lemma_resolve_parents_found(classes: Classes, c: int, from: int, name: Seq<char>)
    requires
        classes_wf(classes),
    ensures
        resolve_parents(classes, c, from, name) matches Some((d, k)) ==> {
            &&& 0 <= d < c
            &&& d < classes.len()
            &&& classes[d].own_method(name) == Some(k)
            &&& 0 <= k < classes[d].methods.len()
            &&& classes[d].methods[k].name == name
        },
    decreases c, 0nat, classes[c].parents.len() - from,
{
    if 0 <= c < classes.len() && 0 <= from < classes[c].parents.len() {
        let p = classes[c].parents[from] as int;
        if p < c {
            lemma_resolve_found(classes, p, name);
        }
        lemma_resolve_parents_found(classes, c, from + 1, name);
    }
}

/// The classes of a running model. Classes are added and never changed or
/// removed.
#[derive(Debug)]
pub struct ClassTable {
    classes: Vec<Class>,
}

impl View for ClassTable {
    type V = Classes;

    closed spec fn view(&self) -> Classes {
        self.classes@.map_values(|c: Class| c@)
    }
}

impl ClassTable {
    /// The table is well formed.
    pub closed spec fn wf(&self) -> bool {
        &&& classes_wf(self@)
        &&& forall|c: int| 0 <= c < self.classes@.len() ==> (#[trigger] self.classes@[c]).wf()
    }

    /// The classes of a well-formed table are well formed.
    pub proof fn lemma_wf(&self)
        requires
            self.wf(),
        ensures
            classes_wf(self@),
    {
    }

    /// The empty table.
    pub fn new() -> (t: ClassTable)
        ensures
            t.wf(),
            t@ == Seq::<ClassView>::empty(),
    {
        let t = ClassTable { classes: Vec::new() };
        assert(t@ =~= Seq::<ClassView>::empty());
        t
    }

    /// The number of classes.
    pub fn len(&self) -> (n: usize)
        ensures
            n == self@.len(),
    {
        self.classes.len()
    }

    /// The class with index `idx`.
    pub fn get(&self, idx: usize) -> (c: &Class)
        requires
            self.wf(),
            idx < self@.len(),
        ensures
            c.wf(),
            c@ == self@[idx as int],
    {
        &self.classes[idx]
    }

    /// The index of the class called `name`.
    pub fn find(&self, name: &Symbol) -> (r: Option<usize>)
        requires
            self.wf(),
        ensures
            r matches Some(c) ==> class_named(self@, name@) == Some(c as int) && c < self@.len(),
            r is None ==> class_named(self@, name@) is None,
    {
        let mut i: usize = 0;
        while i < self.classes.len()
            invariant
                i <= self.classes.len(),
                self.wf(),
                forall|k: int| 0 <= k < i ==> (#[trigger] self@[k]).name != name@,
            decreases self.classes.len() - i,
        {
            if self.classes[i].name().same(name) {
                assert(self@[i as int].name == name@);
                return Some(i);
            }
            i = i + 1;
        }
        None
    }

    /// Adds `class` at the end of the table, where the table admits it, and
    /// returns its index. A class that is not admitted leaves the table as it
    /// was.
    pub fn add(&mut self, class: Class) -> (r: Option<usize>)
        requires
            old(self).wf(),
            class.wf(),
        ensures
            final(self).wf(),
            admits(old(self)@, class@) ==> r == Some(old(self)@.len() as usize) && final(self)@
                == old(self)@.push(class@),
            !admits(old(self)@, class@) ==> r is None && final(self)@ == old(self)@,
    {
        let n = self.classes.len();
        let mut j: usize = 0;
        while j < class.parent_count()
            invariant
                j <= class@.parents.len(),
                n == self@.len(),
                self.wf(),
                self@ == old(self)@,
                forall|k: int| 0 <= k < j ==> (#[trigger] class@.parents[k]) < n,
            decreases class@.parents.len() - j,
        {
            if class.parent(j) >= n {
                return None;
            }
            j = j + 1;
        }
        if self.find(class.name()).is_some() {
            return None;
        }
        proof {
            class.lemma_wf();
        }
        let ghost before = self@;
        self.classes.push(class);
        proof {
            assert(self@ =~= before.push(class@));
            assert forall|c: int| 0 <= c < self@.len() implies (#[trigger] self@[c]).wf() by {
                if c < before.len() {
                    assert(self@[c] == before[c]);
                }
            }
            assert forall|c: int, k: int|
                0 <= c < self@.len() && 0 <= k < self@[c].parents.len() implies (
            #[trigger] self@[c].parents[k]) < c by {
                if c < before.len() {
                    assert(self@[c] == before[c]);
                }
            }
            assert forall|a: int, b: int|
                0 <= a < self@.len() && 0 <= b < self@.len() && a != b implies (
            #[trigger] self@[a]).name != (#[trigger] self@[b]).name by {
                if a < before.len() {
                    assert(self@[a] == before[a]);
                }
                if b < before.len() {
                    assert(self@[b] == before[b]);
                }
            }
        }
        Some(n)
    }

    /// The method that a message `name` resolves to on an instance of class
    /// `class`: the index of the class that defines it, and the method's index
    /// in that class's table.
    pub fn find_method(&self, class: usize, name: &Symbol) -> (r: Option<(usize, usize)>)
        requires
            self.wf(),
            class < self@.len(),
        ensures
            r matches Some((c, k)) ==> resolve(self@, class as int, name@) == Some(
                (c as int, k as int),
            ) && c < self@.len() && k < self@[c as int].methods.len(),
            r is None ==> resolve(self@, class as int, name@) is None,
        decreases class,
    {
        proof {
            lemma_resolve_found(self@, class as int, name@);
        }
        let cls = &self.classes[class];
        assert(cls@ == self@[class as int]);
        match cls.method_index(name) {
            Some(k) => {
                return Some((class, k));
            },
            None => {},
        }
        let mut j: usize = 0;
        while j < cls.parent_count()
            invariant
                j <= cls@.parents.len(),
                self.wf(),
                class < self@.len(),
                cls@ == self@[class as int],
                resolve(self@, class as int, name@) == resolve_parents(
                    self@,
                    class as int,
                    j as int,
                    name@,
                ),
            decreases cls@.parents.len() - j,
        {
            let p = cls.parent(j);
            assert(p < class);
            match self.find_method(p, name) {
                Some(hit) => {
                    return Some(hit);
                },
                None => {},
            }
            j = j + 1;
        }
        None
    }

    /// The method with index `idx` in the table of class `class`.
    pub fn method(&self, class: usize, idx: usize) -> (m: &Method)
        requires
            self.wf(),
            class < self@.len(),
            idx < self@[class as int].methods.len(),
        ensures
            m@ == self@[class as int].methods[idx as int],
    {
        self.classes[class].method_at(idx)
    }
}

} // verus!
