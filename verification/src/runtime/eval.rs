//! A host that runs the bodies of methods: it evaluates expressions.
//!
//! An expression is evaluated for a receiver, which it names `self`, and an
//! argument, which it names `it`. A send evaluates its receiver, then its
//! argument, and sends. A name alone is sent to `self`. A number without a
//! decimal point makes an object of the number class; the host remembers the
//! integer that each such object stands for, and adds two of them where `+`
//! is sent to one with the other and nothing of the context serves it. What
//! cannot be evaluated is missing, under its name. Methods may invoke
//! methods to a depth that is set when the host is made; deeper than that, the
//! message is missing.

use vstd::prelude::*;
use std::collections::BTreeMap;
use crate::lexer::{integer_of, scan_integer};
use crate::parser::{Expr, SourceExpression, expr_view};
use crate::runtime::context::{Context, ContextView};
use crate::runtime::dispatch::{Plan, Receiver, opt_ref_view, opt_view, result_view};
use crate::runtime::object::{Sent, SimulabraErr};
use crate::runtime::oref::{ORef, ORefView};
use crate::runtime::symbol::Symbol;
use crate::text::chars_of;

verus! {

/// What evaluation works on: the context, and the integers that the number
/// objects stand for, by object identifier.
pub struct World {
    pub ctx: ContextView,
    pub numbers: Map<u64, isize>,
}

/// The world and the result after an evaluation.
pub type Outcome = (World, Result<ORefView, Seq<char>>);

/// The world after a number object for `n` was made, and the reference to
/// the object; where no object can be made, `name` is missing.
pub open spec fn number_made(w: World, number_class: usize, n: isize, name: Seq<char>) -> Outcome {
    if w.ctx.can_instantiate(number_class) {
        (
            World {
                ctx: w.ctx.instantiated(number_class),
                numbers: w.numbers.insert(w.ctx.next_id, n),
            },
            Ok(ORefView { id: w.ctx.next_id, frame: None, node: 0, context: w.ctx.id }),
        )
    } else {
        (w, Err(name))
    }
}

/// What the host does for a message that nothing of the context serves:
/// `+`, sent to a number with a number, gives a new number object for the
/// sum, where the sum is an `isize`. Every other message is missing.
pub open spec fn added(
    w: World,
    number_class: usize,
    receiver: ORefView,
    name: Seq<char>,
    arg: Option<ORefView>,
) -> Outcome {
    if name == "+"@ && arg is Some && w.numbers.contains_key(receiver.id) && w.numbers.contains_key(
        arg->0.id,
    ) && isize::MIN <= w.numbers[receiver.id] + w.numbers[arg->0.id] <= isize::MAX {
        number_made(
            w,
            number_class,
            (w.numbers[receiver.id] + w.numbers[arg->0.id]) as isize,
            name,
        )
    } else {
        (w, Err(name))
    }
}

/// What a send of `name` to `receiver` comes to, with methods run to the
/// depth `fuel`. A slot read gives what the slot holds. A slot overwrite
/// stores the argument and gives the receiver. An invocation gives the value
/// of the method's body, evaluated for the receiver and the argument. Where
/// nothing serves the message, the host's own addition is tried.
pub open spec fn send_spec(
    w: World,
    number_class: usize,
    receiver: ORefView,
    name: Seq<char>,
    arg: Option<ORefView>,
    fuel: nat,
) -> Outcome
    decreases fuel, 0nat, Expr::List(Seq::empty()),
{
    match w.ctx.plan(receiver, name, arg) {
        Plan::Read(v) => (w, Ok(v)),
        Plan::Write(_) => (World { ctx: w.ctx.dispatched(receiver, name, arg), ..w }, Ok(receiver)),
        Plan::Invoke(c, k) => if fuel == 0 {
            (w, Err(name))
        } else {
            eval_spec(
                w,
                number_class,
                w.ctx.classes[c].methods[k].code,
                receiver,
                arg,
                (fuel - 1) as nat,
            )
        },
        Plan::Miss => added(w, number_class, receiver, name, arg),
    }
}

/// The value of `expr` for the receiver `me` and the argument `it`, and the
/// world after it was evaluated.
pub open spec fn eval_spec(
    w: World,
    number_class: usize,
    expr: Expr,
    me: ORefView,
    it: Option<ORefView>,
    fuel: nat,
) -> Outcome
    decreases fuel, 1nat, expr,
{
    match expr {
        Expr::Message(name, vau) => if vau {
            (w, Err(name))
        } else if name == "self"@ {
            (w, Ok(me))
        } else if name == "it"@ {
            match it {
                Some(a) => (w, Ok(a)),
                None => (w, Err(name)),
            }
        } else {
            send_spec(w, number_class, me, name, None, fuel)
        },
        Expr::Number(text) => match scan_integer(text, 0, 0) {
            Ok(n) => number_made(w, number_class, n as isize, text),
            Err(_) => (w, Err(text)),
        },
        Expr::Send(receiver, message, arg, _) => match *message {
            Expr::Message(name, _) => {
                let (w1, r) = eval_spec(w, number_class, *receiver, me, it, fuel);
                match r {
                    Err(e) => (w1, Err(e)),
                    Ok(target) => match arg {
                        None => send_spec(w1, number_class, target, name, None, fuel),
                        Some(a) => {
                            let (w2, v) = eval_spec(w1, number_class, *a, me, it, fuel);
                            match v {
                                Err(e) => (w2, Err(e)),
                                Ok(value) => send_spec(
                                    w2,
                                    number_class,
                                    target,
                                    name,
                                    Some(value),
                                    fuel,
                                ),
                            }
                        },
                    },
                }
            },
            _ => (w, Err(""@)),
        },
        Expr::String(text) => (w, Err(text)),
        Expr::Type(name) => (w, Err(name)),
        Expr::Object(_, _) => (w, Err(""@)),
        Expr::List(_) => (w, Err(""@)),
    }
}

/// The host that evaluates the bodies of methods.
#[derive(Debug)]
pub struct Interpreter {
    numbers: BTreeMap<u64, isize>,
    number_class: usize,
    depth: usize,
}

impl Interpreter {
    /// The integers that the number objects stand for, by object identifier.
    pub closed spec fn numbers(&self) -> Map<u64, isize> {
        self.numbers@
    }

    /// The index of the class of the number objects.
    pub closed spec fn number_class(&self) -> usize {
        self.number_class
    }

    /// The depth to which methods may invoke methods.
    pub closed spec fn depth(&self) -> usize {
        self.depth
    }

    /// The world: the context, with the integers of this host.
    pub open spec fn world(&self, ctx: ContextView) -> World {
        World { ctx, numbers: self.numbers() }
    }

    /// A host that makes its numbers of the class with index `number_class`,
    /// and runs methods to the depth `depth`. It knows no number yet.
    pub fn new(number_class: usize, depth: usize) -> (h: Interpreter)
        ensures
            h.numbers() == Map::<u64, isize>::empty(),
            h.number_class() == number_class,
            h.depth() == depth,
    {
        Interpreter { numbers: BTreeMap::new(), number_class, depth }
    }

    /// The integer that the object of `r` stands for, if it is a number.
    pub fn value(&self, r: &ORef) -> (n: Option<isize>)
        ensures
            n == (if self.numbers().contains_key(r@.id) {
                Some(self.numbers()[r@.id])
            } else {
                None
            }),
    {
        match self.numbers.get(&r.id()) {
            Some(n) => Some(*n),
            None => None,
        }
    }

    /// Makes a number object for `n`; where none can be made, `name` is
    /// missing.
    pub fn number(&mut self, ctx: &mut Context, n: isize, name: &Symbol) -> (r: Result<
        ORef,
        SimulabraErr,
    >)
        requires
            old(ctx).wf(),
        ensures
            final(ctx).wf(),
            old(ctx)@.precedes(final(ctx)@),
            final(self).number_class() == old(self).number_class(),
            final(self).depth() == old(self).depth(),
            (final(self).world(final(ctx)@), result_view(r)) == number_made(
                old(self).world(old(ctx)@),
                old(self).number_class(),
                n,
                name@,
            ),
    {
        match ctx.instantiate(self.number_class) {
            Some(r) => {
                self.numbers.insert(r.id(), n);
                assert(self.world(ctx@).numbers =~= old(self).numbers().insert(r@.id, n));
                Ok(r)
            },
            None => Err(SimulabraErr::MethodMissing(name.duplicate())),
        }
    }

    /// What the host does for a message that nothing of the context serves.
    fn add(&mut self, ctx: &mut Context, receiver: &ORef, name: &Symbol, arg: Option<&ORef>) -> (r:
        Result<ORef, SimulabraErr>)
        requires
            old(ctx).wf(),
        ensures
            final(ctx).wf(),
            old(ctx)@.precedes(final(ctx)@),
            final(self).number_class() == old(self).number_class(),
            final(self).depth() == old(self).depth(),
            (final(self).world(final(ctx)@), result_view(r)) == added(
                old(self).world(old(ctx)@),
                old(self).number_class(),
                receiver@,
                name@,
                opt_ref_view(arg),
            ),
    {
        if name.same(&Symbol::new("+")) {
            if let Some(a) = arg {
                if let Some(x) = self.value(receiver) {
                    if let Some(y) = self.value(a) {
                        if let Some(sum) = x.checked_add(y) {
                            return self.number(ctx, sum, name);
                        }
                    }
                }
            }
        }
        Err(SimulabraErr::MethodMissing(name.duplicate()))
    }

    /// Sends `name` to `receiver`, with the argument `arg` where there is
    /// one, and runs the method that is invoked, to the depth `fuel`.
    pub fn send(
        &mut self,
        ctx: &mut Context,
        receiver: &ORef,
        name: &Symbol,
        arg: Option<ORef>,
        fuel: usize,
    ) -> (r: Result<ORef, SimulabraErr>)
        requires
            old(ctx).wf(),
        ensures
            final(ctx).wf(),
            old(ctx)@.precedes(final(ctx)@),
            final(self).number_class() == old(self).number_class(),
            final(self).depth() == old(self).depth(),
            (final(self).world(final(ctx)@), result_view(r)) == send_spec(
                old(self).world(old(ctx)@),
                old(self).number_class(),
                receiver@,
                name@,
                opt_view(arg),
                fuel as nat,
            ),
        decreases fuel, 0nat,
    {
        let it = match &arg {
            Some(a) => Some(a.duplicate()),
            None => None,
        };
        let ghost before = ctx@;
        match ctx.dispatch(receiver, name, arg) {
            Ok(Sent::Value(v)) => Ok(v),
            Ok(Sent::Stored) => Ok(receiver.duplicate()),
            Ok(Sent::Invoke(c, k)) => {
                if fuel == 0 {
                    return Err(SimulabraErr::MethodMissing(name.duplicate()));
                }
                let body = ctx.classes().method(c, k).code().duplicate();
                match &it {
                    Some(a) => self.eval(ctx, &body, receiver, Some(a), fuel - 1),
                    None => self.eval(ctx, &body, receiver, None, fuel - 1),
                }
            },
            Err(_) => {
                match &it {
                    Some(a) => self.add(ctx, receiver, name, Some(a)),
                    None => self.add(ctx, receiver, name, None),
                }
            },
        }
    }

    /// Evaluates `expr` for the receiver `me` and the argument `it`, with
    /// methods run to the depth `fuel`.
    pub fn eval(
        &mut self,
        ctx: &mut Context,
        expr: &SourceExpression,
        me: &ORef,
        it: Option<&ORef>,
        fuel: usize,
    ) -> (r: Result<ORef, SimulabraErr>)
        requires
            old(ctx).wf(),
        ensures
            final(ctx).wf(),
            old(ctx)@.precedes(final(ctx)@),
            final(self).number_class() == old(self).number_class(),
            final(self).depth() == old(self).depth(),
            (final(self).world(final(ctx)@), result_view(r)) == eval_spec(
                old(self).world(old(ctx)@),
                old(self).number_class(),
                expr@,
                me@,
                opt_ref_view(it),
                fuel as nat,
            ),
        decreases fuel, 1nat, expr,
    {
        match expr {
            SourceExpression::Message(m) => {
                let name = Symbol::new(m.name());
                if m.is_vau() {
                    Err(SimulabraErr::MethodMissing(name))
                } else if name.same(&Symbol::new("self")) {
                    Ok(me.duplicate())
                } else if name.same(&Symbol::new("it")) {
                    match it {
                        Some(a) => Ok(a.duplicate()),
                        None => Err(SimulabraErr::MethodMissing(name)),
                    }
                } else {
                    self.send(ctx, me, &name, None, fuel)
                }
            },
            SourceExpression::Number(text) => {
                let chars = chars_of(text.as_str());
                assert(chars@.subrange(0, chars@.len() as int) =~= text@);
                let name = Symbol::new(text.as_str());
                match integer_of(&chars, 0, chars.len()) {
                    Ok(n) => self.number(ctx, n, &name),
                    Err(_) => Err(SimulabraErr::MethodMissing(name)),
                }
            },
            SourceExpression::Send(receiver, message, arg, _) => {
                proof {
                    reveal_with_fuel(expr_view, 2);
                }
                match &**message {
                    SourceExpression::Message(m) => {
                        let name = Symbol::new(m.name());
                        let ghost w0 = self.world(ctx@);
                        proof {
                            let sent = expr@;
                            assert(sent is Send);
                            assert(*sent->Send_0 == receiver@);
                            assert(*sent->Send_1 == Expr::Message(m@.0, m@.1));
                            assert(arg is None ==> sent->Send_2 is None);
                            assert(arg matches Some(a) ==> sent->Send_2 == Some(Box::new(a@)));
                        }
                        let target = match self.eval(ctx, receiver, me, it, fuel) {
                            Ok(target) => target,
                            Err(e) => {
                                return Err(e);
                            },
                        };
                        match arg {
                            None => self.send(ctx, &target, &name, None, fuel),
                            Some(a) => {
                                let value = match self.eval(ctx, a, me, it, fuel) {
                                    Ok(value) => value,
                                    Err(e) => {
                                        return Err(e);
                                    },
                                };
                                self.send(ctx, &target, &name, Some(value), fuel)
                            },
                        }
                    },
                    _ => Err(SimulabraErr::MethodMissing(Symbol::new(""))),
                }
            },
            SourceExpression::String(text) => Err(
                SimulabraErr::MethodMissing(Symbol::new(text.as_str())),
            ),
            SourceExpression::Type(name) => Err(
                SimulabraErr::MethodMissing(Symbol::new(name.as_str())),
            ),
            SourceExpression::Object(_, _) => Err(SimulabraErr::MethodMissing(Symbol::new(""))),
            SourceExpression::List(_) => Err(SimulabraErr::MethodMissing(Symbol::new(""))),
        }
    }
}

impl Receiver for Interpreter {
    /// The run of a method gives the value of its body, evaluated for the
    /// receiver and the argument to the host's depth.
    open spec fn ran(
        &self,
        before: ContextView,
        class: int,
        index: int,
        receiver: ORefView,
        it: Option<ORefView>,
        done: Self,
        after: ContextView,
        result: Result<ORefView, Seq<char>>,
    ) -> bool {
        &&& done.number_class() == self.number_class()
        &&& done.depth() == self.depth()
        &&& (done.world(after), result) == eval_spec(
            self.world(before),
            self.number_class(),
            before.classes[class].methods[index].code,
            receiver,
            it,
            self.depth() as nat,
        )
    }

    fn handle(
        &mut self,
        ctx: &mut Context,
        class: usize,
        index: usize,
        receiver: &ORef,
        it: Option<&ORef>,
    ) -> (r: Result<ORef, SimulabraErr>)
    {
        let body = ctx.classes().method(class, index).code().duplicate();
        let fuel = self.depth;
        self.eval(ctx, &body, receiver, it, fuel)
    }
}

/// A send through the context with this host. Where the send comes to an
/// invocation, what the host says of the run is what a send gives when it is
/// run to a depth one greater than the host's: the invocation itself takes
/// one level.
pub proof fn lemma_invoked(
    host: Interpreter,
    before: ContextView,
    receiver: ORefView,
    name: Seq<char>,
    arg: Option<ORefView>,
    done: Interpreter,
    after: ContextView,
    result: Result<ORefView, Seq<char>>,
)
    requires
        before.plan(receiver, name, arg) matches Plan::Invoke(c, k) && host.ran(
            before,
            c,
            k,
            receiver,
            arg,
            done,
            after,
            result,
        ),
    ensures
        (done.world(after), result) == send_spec(
            host.world(before),
            host.number_class(),
            receiver,
            name,
            arg,
            (host.depth() + 1) as nat,
        ),
{
}

} // verus!
