//! Symbols: the names of slots, messages and classes.

use vstd::prelude::*;

verus! {

/// The texts of a sequence of symbols.
pub open spec fn texts(names: Seq<Symbol>) -> Seq<Seq<char>> {
    names.map_values(|s: Symbol| s@)
}

/// The position of `name` in `names`, if it occurs. It is meant for names
/// that are distinct.
pub open spec fn position(names: Seq<Seq<char>>, name: Seq<char>) -> Option<int> {
    if names.contains(name) {
        Some(names.index_of(name))
    } else {
        None
    }
}

/// Among distinct names, the position of a name is the one index at which it
/// stands.
pub proof fn lemma_position(names: Seq<Seq<char>>, name: Seq<char>, i: int)
    requires
        names.no_duplicates(),
        0 <= i < names.len(),
        names[i] == name,
    ensures
        position(names, name) == Some(i),
{
    assert(names.contains(name));
    let j = names.index_of(name);
    assert(names[j] == name);
}

/// An immutable textual identifier. Two symbols are the same symbol exactly
/// when their texts are equal.
#[derive(Debug, Hash)]
pub struct Symbol(String);

impl View for Symbol {
    type V = Seq<char>;

    closed spec fn view(&self) -> Seq<char> {
        self.0@
    }
}

impl Symbol {
    /// The symbol whose text is `name`.
    pub fn new(name: &str) -> (s: Symbol)
        ensures
            s@ == name@,
    {
        Symbol(name.to_owned())
    }

    /// The symbol's text.
    pub fn as_str(&self) -> (s: &str)
        ensures
            s@ == self@,
    {
        self.0.as_str()
    }

    /// Whether `self` and `other` are the same symbol.
    pub fn same(&self, other: &Symbol) -> (b: bool)
        ensures
            b == (self@ == other@),
    {
        self.0 == other.0
    }

    /// A second handle on the same symbol.
    pub fn duplicate(&self) -> (s: Symbol)
        ensures
            s@ == self@,
    {
        Symbol(self.0.clone())
    }
}

impl Clone for Symbol {
    fn clone(&self) -> (s: Symbol)
        ensures
            s@ == self@,
    {
        self.duplicate()
    }
}

impl PartialEq for Symbol {
    fn eq(&self, other: &Symbol) -> (b: bool) {
        self.same(other)
    }
}

impl Eq for Symbol {}

impl vstd::std_specs::cmp::PartialEqSpecImpl for Symbol {
    open spec fn obeys_eq_spec() -> bool {
        true
    }

    open spec fn eq_spec(&self, other: &Symbol) -> bool {
        self@ == other@
    }
}

/// The symbols of a running model, each held once. A text is interned the
/// first time it occurs and is never removed, so the index that it got names
/// it for good, and two texts are equal exactly when their indices are.
#[derive(Debug)]
pub struct SymbolTable {
    symbols: Vec<Symbol>,
}

impl View for SymbolTable {
    type V = Seq<Seq<char>>;

    closed spec fn view(&self) -> Seq<Seq<char>> {
        texts(self.symbols@)
    }
}

impl SymbolTable {
    /// No text is held twice.
    pub open spec fn wf(&self) -> bool {
        self@.no_duplicates()
    }

    /// The empty table.
    pub fn new() -> (t: SymbolTable)
        ensures
            t.wf(),
            t@ == Seq::<Seq<char>>::empty(),
    {
        let t = SymbolTable { symbols: Vec::new() };
        assert(t@ =~= Seq::<Seq<char>>::empty());
        t
    }

    /// The number of symbols held.
    pub fn len(&self) -> (n: usize)
        ensures
            n == self@.len(),
    {
        self.symbols.len()
    }

    /// The index of the symbol with the text `name`, if the table holds it.
    pub fn lookup(&self, name: &str) -> (r: Option<usize>)
        requires
            self.wf(),
        ensures
            r matches Some(i) ==> position(self@, name@) == Some(i as int) && i < self@.len(),
            r is None ==> position(self@, name@) is None,
    {
        let wanted = Symbol::new(name);
        let mut i: usize = 0;
        while i < self.symbols.len()
            invariant
                i <= self.symbols.len(),
                self.wf(),
                wanted@ == name@,
                forall|k: int| 0 <= k < i ==> #[trigger] self@[k] != name@,
            decreases self.symbols.len() - i,
        {
            if self.symbols[i].same(&wanted) {
                proof {
                    lemma_position(self@, name@, i as int);
                }
                return Some(i);
            }
            i = i + 1;
        }
        None
    }

    /// The index of the symbol with the text `name`. The symbol is added at
    /// the end of the table unless the table holds it.
    pub fn intern(&mut self, name: &str) -> (id: usize)
        requires
            old(self).wf(),
        ensures
            final(self).wf(),
            final(self)@ == if old(self)@.contains(name@) {
                old(self)@
            } else {
                old(self)@.push(name@)
            },
            position(final(self)@, name@) == Some(id as int),
            id < final(self)@.len(),
    {
        match self.lookup(name) {
            Some(i) => i,
            None => {
                let ghost before = self@;
                let id = self.symbols.len();
                self.symbols.push(Symbol::new(name));
                proof {
                    assert(self@ =~= before.push(name@));
                    assert forall|i: int, j: int|
                        0 <= i < self@.len() && 0 <= j < self@.len() && i != j implies self@[i]
                        != self@[j] by {
                        if i < before.len() {
                            assert(before.contains(before[i]));
                        }
                        if j < before.len() {
                            assert(before.contains(before[j]));
                        }
                    }
                    lemma_position(self@, name@, id as int);
                }
                id
            },
        }
    }

    /// The symbol with index `id`.
    pub fn symbol(&self, id: usize) -> (s: &Symbol)
        requires
            id < self@.len(),
        ensures
            s@ == self@[id as int],
    {
        &self.symbols[id]
    }
}

/// Interned symbols are compared by their indices: in a table that holds no
/// text twice, two indices are equal exactly when the texts they name are.
pub proof fn lemma_interned_equal(table: Seq<Seq<char>>, a: int, b: int)
    requires
        table.no_duplicates(),
        0 <= a < table.len(),
        0 <= b < table.len(),
    ensures
        a == b <==> table[a] == table[b],
{
}

} // verus!
