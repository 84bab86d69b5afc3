//! Message dispatch: what a send to a reference does.
//!
//! A send is served by a slot of the receiver where it has one of that name,
//! else by the method that the name resolves to on the receiver's class. The
//! body of a method is run by a host, which the caller of `send` supplies:
//! the interpreter of this library, which evaluates the body, or a host of
//! the caller's own. A body may send again, to its own receiver too, through
//! the context that it is handed.

use vstd::prelude::*;
use crate::runtime::context::{Context, ContextView, lemma_deref_wf};
use crate::runtime::object::{Sent, SentView, SimulabraErr, sent_view};
use crate::runtime::oref::{ORef, ORefView};
use crate::runtime::shape::slot_index;
use crate::runtime::symbol::Symbol;
use crate::runtime::table::resolve;

verus! {

/// What a send comes to.
pub enum Plan {
    /// A slot is read: what it holds.
    Read(ORefView),
    /// The slot with this index is overwritten with the argument.
    Write(int),
    /// A method is invoked: the defining class, and the index in its table.
    Invoke(int, int),
    /// Nothing serves the message.
    Miss,
}

impl ContextView {
    /// What a send of `name` to `receiver` comes to, with the argument `arg`
    /// where there is one. A slot called `name` is served before any
    /// method: without an argument it is read, with one it is overwritten. A
    /// frozen version cannot be written, so there the send with an argument
    /// misses. Where the receiver has no such slot, the method that `name`
    /// resolves to is invoked; where there is none either, and where the
    /// reference denotes nothing, the send misses.
    pub open spec fn plan(self, receiver: ORefView, name: Seq<char>, arg: Option<ORefView>) -> Plan {
        match self.deref(receiver) {
            None => Plan::Miss,
            Some(obj) => match slot_index(obj.names(self.layouts), name) {
                Some(i) => match arg {
                    None => Plan::Read(obj.slots[i]),
                    Some(_) => if receiver.frame is None {
                        Plan::Write(i)
                    } else {
                        Plan::Miss
                    },
                },
                None => match resolve(self.classes, obj.class as int, name) {
                    Some((c, k)) => Plan::Invoke(c, k),
                    None => Plan::Miss,
                },
            },
        }
    }
}

/// The view of an optional reference.
pub open spec fn opt_view(r: Option<ORef>) -> Option<ORefView> {
    match r {
        Some(a) => Some(a@),
        None => None,
    }
}

/// The view of the result of a send.
pub open spec fn result_view(r: Result<ORef, SimulabraErr>) -> Result<ORefView, Seq<char>> {
    match r {
        Ok(v) => Ok(v@),
        Err(e) => Err(e@),
    }
}

/// The view of an optional borrowed reference.
pub open spec fn opt_ref_view(r: Option<&ORef>) -> Option<ORefView> {
    match r {
        Some(a) => Some(a@),
        None => None,
    }
}

/// The host of a context: it runs the bodies of methods.
pub trait Receiver: Sized {
    /// What the host says of one run of a method's body: how the context
    /// before, the method, the receiver and the argument relate to the host
    /// and the context after it and to the result. A host that says nothing
    /// leaves it at this.
    open spec fn ran(
        &self,
        before: ContextView,
        class: int,
        index: int,
        receiver: ORefView,
        it: Option<ORefView>,
        done: Self,
        after: ContextView,
        result: Result<ORefView, Seq<char>>,
    ) -> bool {
        true
    }

    /// Runs the body of the method with index `index` in the table of class
    /// `class`, for the receiver `receiver` and the argument `it`, and gives
    /// the body's result. It may read and change the context by the
    /// context's own operations, and send through it again.
    fn handle(
        &mut self,
        ctx: &mut Context,
        class: usize,
        index: usize,
        receiver: &ORef,
        it: Option<&ORef>,
    ) -> (r: Result<ORef, SimulabraErr>)
        requires
            old(ctx).wf(),
            class < old(ctx)@.classes.len(),
            index < old(ctx)@.classes[class as int].methods.len(),
            old(ctx)@.deref(receiver@) is Some,
        ensures
            final(ctx).wf(),
            old(ctx)@.precedes(final(ctx)@),
            old(self).ran(
                old(ctx)@,
                class as int,
                index as int,
                receiver@,
                opt_ref_view(it),
                *final(self),
                final(ctx)@,
                result_view(r),
            ),
    ;
}

/// The host that runs no code: every method gives its receiver back and
/// leaves the context as it is.
#[derive(Debug)]
pub struct Echo;

impl Receiver for Echo {
    open spec fn ran(
        &self,
        before: ContextView,
        class: int,
        index: int,
        receiver: ORefView,
        it: Option<ORefView>,
        done: Self,
        after: ContextView,
        result: Result<ORefView, Seq<char>>,
    ) -> bool {
        after == before && result == Ok::<ORefView, Seq<char>>(receiver)
    }

    fn handle(
        &mut self,
        ctx: &mut Context,
        class: usize,
        index: usize,
        receiver: &ORef,
        it: Option<&ORef>,
    ) -> (r: Result<ORef, SimulabraErr>)
    {
        Ok(receiver.duplicate())
    }
}

/// What a send did or asks for, for a plan.
pub open spec fn plan_result(plan: Plan, name: Seq<char>) -> Result<SentView, Seq<char>> {
    match plan {
        Plan::Read(v) => Ok(SentView::Value(v)),
        Plan::Write(_) => Ok(SentView::Stored),
        Plan::Invoke(c, k) => Ok(SentView::Invoke(c, k)),
        Plan::Miss => Err(name),
    }
}

impl ContextView {
    /// The context after a send of `name` to `receiver` was served as far
    /// as the context serves it: an overwrite stores the argument, and
    /// nothing else changes anything.
    pub open spec fn dispatched(
        self,
        receiver: ORefView,
        name: Seq<char>,
        arg: Option<ORefView>,
    ) -> ContextView {
        match self.plan(receiver, name, arg) {
            Plan::Write(_) => self.with_slot(receiver.id, name, arg->0),
            _ => self,
        }
    }
}

impl Context {
    /// Serves a send of `name` to `receiver`, with the argument `arg` where
    /// there is one, up to the invocation of a method. A slot read gives
    /// what the slot holds. A slot overwrite stores the argument. Where a
    /// method is to be invoked, it is handed back and nothing is changed. A
    /// miss changes nothing and fails with the name.
    pub fn dispatch(&mut self, receiver: &ORef, name: &Symbol, arg: Option<ORef>) -> (r: Result<
        Sent,
        SimulabraErr,
    >)
        requires
            old(self).wf(),
        ensures
            final(self).wf(),
            old(self)@.precedes(final(self)@),
            sent_view(r) == plan_result(old(self)@.plan(receiver@, name@, opt_view(arg)), name@),
            final(self)@ == old(self)@.dispatched(receiver@, name@, opt_view(arg)),
            r matches Ok(Sent::Invoke(c, k)) ==> c < final(self)@.classes.len() && k
                < final(self)@.classes[c as int].methods.len() && final(self)@.deref(receiver@)
                is Some,
    {
        let ghost before = self@;
        proof {
            self.lemma_wf();
        }
        match self.get_oref(receiver) {
            None => Err(SimulabraErr::MethodMissing(name.duplicate())),
            Some(obj) => {
                proof {
                    lemma_deref_wf(before, receiver@);
                }
                let shapes = self.shapes();
                match shapes.shape(obj.shape()).get_slot_index(name) {
                    Some(idx) => {
                        match arg {
                            None => Ok(Sent::Value(obj.get_slot_index(idx))),
                            Some(value) => {
                                if !receiver.is_present() {
                                    return Err(SimulabraErr::MethodMissing(name.duplicate()));
                                }
                                let _ = self.set_slot(receiver, name, value);
                                Ok(Sent::Stored)
                            },
                        }
                    },
                    None => {
                        match self.classes().find_method(obj.class(), name) {
                            Some((c, k)) => Ok(Sent::Invoke(c, k)),
                            None => Err(SimulabraErr::MethodMissing(name.duplicate())),
                        }
                    },
                }
            },
        }
    }

    /// Sends `name` to `receiver`, with the argument `arg` where there is
    /// one. A slot read gives what the slot holds. A slot overwrite stores
    /// the argument and gives the receiver. An invocation gives what `host`
    /// gives for the method's body, run on the receiver and the argument, in
    /// the context as it was; what the host then did is what the host says of
    /// that run. A miss changes nothing and fails with the name.
    pub fn send<H: Receiver>(
        &mut self,
        receiver: &ORef,
        name: &Symbol,
        arg: Option<ORef>,
        host: &mut H,
    ) -> (r: Result<ORef, SimulabraErr>)
        requires
            old(self).wf(),
        ensures
            final(self).wf(),
            old(self)@.precedes(final(self)@),
            match old(self)@.plan(receiver@, name@, opt_view(arg)) {
                Plan::Read(v) => r is Ok && r->Ok_0@ == v && final(self)@ == old(self)@,
                Plan::Write(_) => r is Ok && r->Ok_0@ == receiver@ && final(self)@
                    == old(self)@.with_slot(receiver@.id, name@, arg->0@),
                Plan::Invoke(c, k) => old(host).ran(
                    old(self)@,
                    c,
                    k,
                    receiver@,
                    opt_view(arg),
                    *final(host),
                    final(self)@,
                    result_view(r),
                ),
                Plan::Miss => r is Err && r->Err_0@ == name@ && final(self)@ == old(self)@,
            },
    {
        let it = match &arg {
            Some(a) => Some(a.duplicate()),
            None => None,
        };
        match self.dispatch(receiver, name, arg) {
            Ok(Sent::Value(v)) => Ok(v),
            Ok(Sent::Stored) => Ok(receiver.duplicate()),
            Ok(Sent::Invoke(c, k)) => {
                let ghost middle = self@;
                let r = match &it {
                    Some(a) => host.handle(self, c, k, receiver, Some(a)),
                    None => host.handle(self, c, k, receiver, None),
                };
                r
            },
            Err(e) => Err(e),
        }
    }
}

} // verus!
