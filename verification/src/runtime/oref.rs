//! Object references.

use vstd::prelude::*;
use crate::runtime::frame::{Frame, RefFrame};

verus! {

/// What a reference says: which object, which version of it, and which
/// context owns it.
pub struct ORefView {
    pub id: u64,
    pub frame: Option<Seq<u64>>,
    pub node: u64,
    pub context: u64,
}

/// A reference to an object of some context. It does not own the object.
#[derive(Debug)]
pub struct ORef {
    id: u64,
    frame: RefFrame,
    node: u64,
    context: u64,
}

impl View for ORef {
    type V = ORefView;

    closed spec fn view(&self) -> ORefView {
        ORefView { id: self.id, frame: self.frame@, node: self.node, context: self.context }
    }
}

impl ORefView {
    /// Equality of references: the object, the version and the node index.
    /// The owning context takes no part in it.
    pub open spec fn same(self, other: ORefView) -> bool {
        self.id == other.id && self.frame == other.frame && self.node == other.node
    }
}

impl ORef {
    /// A reference to the live version of object `n` of context `context`.
    pub fn new(n: u64, context: u64) -> (r: ORef)
        ensures
            r@ == (ORefView { id: n, frame: None, node: 0, context }),
    {
        ORef { id: n, frame: RefFrame::Present, node: 0, context }
    }

    /// The object's identifier.
    pub fn id(&self) -> (n: u64)
        ensures
            n == self@.id,
    {
        self.id
    }

    /// The auxiliary node index.
    pub fn node(&self) -> (n: u64)
        ensures
            n == self@.node,
    {
        self.node
    }

    /// The identifier of the owning context.
    pub fn context(&self) -> (n: u64)
        ensures
            n == self@.context,
    {
        self.context
    }

    /// Which version the reference reads.
    pub fn frame(&self) -> (f: &RefFrame)
        ensures
            f@ == self@.frame,
    {
        &self.frame
    }

    /// Whether the reference reads the live version.
    pub fn is_present(&self) -> (b: bool)
        ensures
            b == (self@.frame is None),
    {
        match self.frame {
            RefFrame::Present => true,
            RefFrame::Frame(_) => false,
        }
    }

    /// The same object, read as it was frozen at `frame`.
    pub fn pinned(&self, frame: Frame) -> (r: ORef)
        ensures
            r@ == (ORefView { frame: Some(frame@), ..self@ }),
    {
        ORef { id: self.id, frame: RefFrame::Frame(frame), node: self.node, context: self.context }
    }

    /// The same object, read live.
    pub fn present(&self) -> (r: ORef)
        ensures
            r@ == (ORefView { frame: None, ..self@ }),
    {
        ORef { id: self.id, frame: RefFrame::Present, node: self.node, context: self.context }
    }

    /// A copy of this reference.
    pub fn duplicate(&self) -> (r: ORef)
        ensures
            r@ == self@,
    {
        ORef {
            id: self.id,
            frame: self.frame.duplicate(),
            node: self.node,
            context: self.context,
        }
    }

    /// Whether the two references are equal: same object, same version, same
    /// node index.
    pub fn same(&self, other: &ORef) -> (b: bool)
        ensures
            b == self@.same(other@),
    {
        self.id == other.id && self.frame.same(&other.frame) && self.node == other.node
    }
}

impl Clone for ORef {
    fn clone(&self) -> (r: ORef)
        ensures
            r@ == self@,
    {
        self.duplicate()
    }
}

impl PartialEq for ORef {
    fn eq(&self, other: &ORef) -> (b: bool) {
        self.same(other)
    }
}

impl vstd::std_specs::cmp::PartialEqSpecImpl for ORef {
    open spec fn obeys_eq_spec() -> bool {
        true
    }

    open spec fn eq_spec(&self, other: &ORef) -> bool {
        self@.same(other@)
    }
}

} // verus!
