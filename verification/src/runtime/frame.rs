//! Frames: points in the object-mutation timeline.

use vstd::prelude::*;

verus! {

/// A path of markers from the root of the snapshot tree to one point in it.
/// A child frame's path is its parent's path followed by one more marker.
#[derive(Debug)]
pub struct Frame(Vec<u64>);

impl View for Frame {
    type V = Seq<u64>;

    closed spec fn view(&self) -> Seq<u64> {
        self.0@
    }
}

impl Frame {
    /// The root of the snapshot tree: the empty path.
    pub fn root() -> (f: Frame)
        ensures
            f@ == Seq::<u64>::empty(),
    {
        Frame(Vec::new())
    }

    /// The frame reached by the markers of `path`, in order, from the root.
    pub fn from_path(path: Vec<u64>) -> (f: Frame)
        ensures
            f@ == path@,
    {
        Frame(path)
    }

    /// The number of markers on the path.
    pub fn depth(&self) -> (n: usize)
        ensures
            n == self@.len(),
    {
        self.0.len()
    }

    /// The marker at position `i` of the path.
    pub fn marker(&self, i: usize) -> (m: u64)
        requires
            i < self@.len(),
        ensures
            m == self@[i as int],
    {
        self.0[i]
    }

    /// A copy of this frame.
    pub fn duplicate(&self) -> (f: Frame)
        ensures
            f@ == self@,
    {
        let mut path: Vec<u64> = Vec::new();
        let mut i: usize = 0;
        while i < self.0.len()
            invariant
                i <= self.0.len(),
                path@ == self.0@.take(i as int),
            decreases self.0.len() - i,
        {
            path.push(self.0[i]);
            i = i + 1;
        }
        Frame(path)
    }

    /// The child of this frame under `marker`.
    pub fn child(&self, marker: u64) -> (f: Frame)
        ensures
            f@ == self@.push(marker),
    {
        let mut c = self.duplicate();
        c.0.push(marker);
        c
    }

    /// The frame this one is a child of; `None` for the root.
    pub fn parent(&self) -> (p: Option<Frame>)
        ensures
            self@.len() == 0 ==> p is None,
            self@.len() > 0 ==> p is Some && p->0@ == self@.drop_last(),
    {
        if self.0.len() == 0 {
            None
        } else {
            let mut c = self.duplicate();
            c.0.pop();
            Some(c)
        }
    }

    /// Whether `self` and `other` are the same path.
    pub fn same(&self, other: &Frame) -> (b: bool)
        ensures
            b == (self@ == other@),
    {
        if self.0.len() != other.0.len() {
            return false;
        }
        let mut i: usize = 0;
        while i < self.0.len()
            invariant
                i <= self.0.len(),
                self.0.len() == other.0.len(),
                self.0@.take(i as int) == other.0@.take(i as int),
            decreases self.0.len() - i,
        {
            if self.0[i] != other.0[i] {
                assert(self.0@[i as int] != other.0@[i as int]);
                return false;
            }
            assert(self.0@.take(i + 1) == self.0@.take(i as int).push(self.0@[i as int]));
            assert(other.0@.take(i + 1) == other.0@.take(i as int).push(other.0@[i as int]));
            i = i + 1;
        }
        assert(self.0@ == self.0@.take(self.0@.len() as int));
        assert(other.0@ == other.0@.take(other.0@.len() as int));
        true
    }
}

impl Clone for Frame {
    fn clone(&self) -> (f: Frame)
        ensures
            f@ == self@,
    {
        self.duplicate()
    }
}

impl PartialEq for Frame {
    fn eq(&self, other: &Frame) -> (b: bool) {
        self.same(other)
    }
}

impl Eq for Frame {}

impl vstd::std_specs::cmp::PartialEqSpecImpl for Frame {
    open spec fn obeys_eq_spec() -> bool {
        true
    }

    open spec fn eq_spec(&self, other: &Frame) -> bool {
        self@ == other@
    }
}

/// Which version of an object a reference reads.
#[derive(Debug)]
pub enum RefFrame {
    /// The version frozen when the given frame was left.
    Frame(Frame),
    /// The live version.
    Present,
}

impl View for RefFrame {
    type V = Option<Seq<u64>>;

    open spec fn view(&self) -> Option<Seq<u64>> {
        match self {
            RefFrame::Frame(f) => Some(f@),
            RefFrame::Present => None,
        }
    }
}

impl RefFrame {
    /// Whether `self` and `other` designate the same version.
    pub fn same(&self, other: &RefFrame) -> (b: bool)
        ensures
            b == (self@ == other@),
    {
        match (self, other) {
            (RefFrame::Present, RefFrame::Present) => true,
            (RefFrame::Frame(a), RefFrame::Frame(b)) => a.same(b),
            _ => false,
        }
    }

    /// A copy of this designator.
    pub fn duplicate(&self) -> (r: RefFrame)
        ensures
            r@ == self@,
    {
        match self {
            RefFrame::Present => RefFrame::Present,
            RefFrame::Frame(f) => RefFrame::Frame(f.duplicate()),
        }
    }
}

impl Clone for RefFrame {
    fn clone(&self) -> (r: RefFrame)
        ensures
            r@ == self@,
    {
        self.duplicate()
    }
}

impl PartialEq for RefFrame {
    fn eq(&self, other: &RefFrame) -> (b: bool) {
        self.same(other)
    }
}

impl Eq for RefFrame {}

impl vstd::std_specs::cmp::PartialEqSpecImpl for RefFrame {
    open spec fn obeys_eq_spec() -> bool {
        true
    }

    open spec fn eq_spec(&self, other: &RefFrame) -> bool {
        self@ == other@
    }
}

} // verus!
