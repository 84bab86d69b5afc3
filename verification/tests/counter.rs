use std::collections::HashMap;

use simulabra::parser::{parse, SourceExpression};
use simulabra::runtime::class::{Class, Method, SlotDef};
use simulabra::runtime::context::Context;
use simulabra::runtime::dispatch::Receiver;
use simulabra::runtime::eval::Interpreter;
use simulabra::runtime::object::SimulabraErr;
use simulabra::runtime::oref::ORef;
use simulabra::runtime::symbol::Symbol;

fn sym(name: &str) -> Symbol {
    Symbol::new(name)
}

/// The one expression that `text` is.
fn expression(text: &str) -> SourceExpression {
    let mut all = parse(text.to_string()).expect("a program");
    assert_eq!(all.len(), 1);
    all.pop().expect("an expression")
}

fn missing(r: Result<ORef, SimulabraErr>) -> String {
    match r {
        Err(SimulabraErr::MethodMissing(name)) => name.as_str().to_string(),
        Ok(_) => panic!("the message was served"),
    }
}

struct Model {
    ctx: Context,
    host: Interpreter,
    counter: ORef,
}

/// A context with the classes `Number` and `Counter`, and one counter whose
/// count is 0.
fn model(depth: usize) -> Model {
    let mut ctx = Context::new(1);
    let number = ctx.add_class(Class::new(sym("Number"))).expect("a class");
    let mut class = Class::new(sym("Counter"));
    class.define_slot(sym("count"), SlotDef::new(number));
    let methods = [
        ("bump", "(self count ((self count) + 1))"),
        ("twice", "((self bump) bump)"),
        ("next", "(count + 1)"),
        ("add", "(self count ((self count) + it))"),
        ("same", "it"),
        ("forever", "(self forever)"),
        ("down", "(self deeper)"),
        ("deeper", "(self bump)"),
    ];
    for (name, body) in methods {
        class.define_method(Method::new(sym(name), 1, None, None, expression(body)));
    }
    let counter_class = ctx.add_class(class).expect("a class");
    let mut host = Interpreter::new(number, depth);
    let counter = ctx.instantiate(counter_class).expect("an object");
    let zero = host.number(&mut ctx, 0, &sym("0")).expect("a number");
    ctx.set_slot(&counter, &sym("count"), zero).expect("a live object");
    Model { ctx, host, counter }
}

impl Model {
    fn send(&mut self, name: &str, arg: Option<ORef>) -> Result<ORef, SimulabraErr> {
        self.ctx.send(&self.counter, &sym(name), arg, &mut self.host)
    }

    fn count_of(&self, r: &ORef) -> isize {
        let held = self.ctx.get_slot(r, &sym("count")).expect("count is a slot");
        self.host.value(&held).expect("a number")
    }

    fn count(&self) -> isize {
        self.count_of(&self.counter)
    }
}

#[test]
fn counter_bumped_three_times() {
    let mut m = model(8);
    assert_eq!(m.count(), 0);
    for k in 1..=3 {
        let r = m.send("bump", None).expect("bump is defined");
        assert!(r == m.counter);
        assert_eq!(r.id(), m.counter.id());
        assert_eq!(m.count_of(&r), k);
    }
    assert_eq!(m.count(), 3);
}

#[test]
fn a_body_sends_to_its_own_receiver() {
    let mut m = model(8);
    let r = m.send("twice", None).expect("twice is defined");
    assert!(r == m.counter);
    assert_eq!(m.count(), 2);
    let next = m.send("next", None).expect("next is defined");
    assert_eq!(m.host.value(&next), Some(3));
    assert_eq!(m.count(), 2);
}

#[test]
fn a_body_names_its_argument() {
    let mut m = model(8);
    let five = m.host.number(&mut m.ctx, 5, &sym("5")).expect("a number");
    m.send("add", Some(five.clone())).expect("add is defined");
    m.send("add", Some(five.clone())).expect("add is defined");
    assert_eq!(m.count(), 10);
    assert!(m.send("same", Some(five.clone())).expect("same is defined") == five);
    assert_eq!(missing(m.send("same", None)), "it");
    assert_eq!(missing(m.send("add", None)), "it");
    assert_eq!(m.count(), 10);
}

#[test]
fn methods_run_to_the_depth_of_the_host() {
    let mut m = model(8);
    assert_eq!(missing(m.send("forever", None)), "forever");
    let mut shallow = model(1);
    assert_eq!(missing(shallow.send("down", None)), "bump");
    assert_eq!(shallow.count(), 0);
    let mut deep = model(2);
    deep.send("down", None).expect("deep enough");
    assert_eq!(deep.count(), 1);
    let mut none = model(0);
    none.send("bump", None).expect("a body without invocations");
    assert_eq!(none.count(), 1);
}

fn eval(m: &mut Model, text: &str) -> Result<ORef, SimulabraErr> {
    let e = expression(text);
    let me = m.counter.clone();
    m.host.eval(&mut m.ctx, &e, &me, None, 4)
}

fn number(m: &mut Model, text: &str) -> Option<isize> {
    let r = eval(m, text).expect("a value");
    m.host.value(&r)
}

#[test]
fn expressions_have_values() {
    let mut m = model(8);
    let me = m.counter.clone();
    assert!(eval(&mut m, "self").expect("the receiver") == me);
    assert_eq!(number(&mut m, "42"), Some(42));
    assert_eq!(number(&mut m, "(40 + 2)"), Some(42));
    assert_eq!(number(&mut m, "((1 + 2) + (3 + 4))"), Some(10));
    assert_eq!(number(&mut m, "count"), Some(0));
    assert_eq!(number(&mut m, "(self count)"), Some(0));
    assert_eq!(number(&mut m, "self"), None);
}

#[test]
fn what_cannot_be_evaluated_is_missing() {
    let mut m = model(8);
    assert_eq!(missing(eval(&mut m, "it")), "it");
    assert_eq!(missing(eval(&mut m, "$bump")), "bump");
    assert_eq!(missing(eval(&mut m, "1.5")), "1.5");
    assert_eq!(missing(eval(&mut m, "99999999999999999999999")), "99999999999999999999999");
    assert_eq!(missing(eval(&mut m, "'text'")), "text");
    assert_eq!(missing(eval(&mut m, "Counter")), "Counter");
    assert_eq!(missing(eval(&mut m, "[self]")), "");
    assert_eq!(missing(eval(&mut m, "{ Counter }")), "");
    assert_eq!(missing(eval(&mut m, "(self nothing)")), "nothing");
    assert_eq!(missing(eval(&mut m, "(self + 1)")), "+");
    assert_eq!(missing(eval(&mut m, "(1 * 2)")), "*");
    assert_eq!(missing(eval(&mut m, "((self nothing) + 1)")), "nothing");
    assert_eq!(missing(eval(&mut m, "(9223372036854775807 + 1)")), "+");
    assert_eq!(m.count(), 0);
}

/// A host written outside the library: each integer it makes is an object of
/// the number class, and the host remembers which object stands for which
/// integer. Its `bump` freezes the frame after the store and gives the
/// receiver pinned to it.
struct Host {
    number_class: usize,
    values: HashMap<u64, i64>,
    next_marker: u64,
}

impl Host {
    fn number(&mut self, ctx: &mut Context, n: i64) -> ORef {
        let r = ctx.instantiate(self.number_class).expect("an object");
        self.values.insert(r.id(), n);
        r
    }

    fn value(&self, r: &ORef) -> i64 {
        self.values[&r.id()]
    }
}

impl Receiver for Host {
    fn handle(
        &mut self,
        ctx: &mut Context,
        class: usize,
        index: usize,
        receiver: &ORef,
        _it: Option<&ORef>,
    ) -> Result<ORef, SimulabraErr> {
        let name = ctx.classes().method(class, index).name().as_str().to_string();
        assert_eq!(name, "bump");
        let count = Symbol::new("count");
        let old = ctx.get_slot(receiver, &count)?;
        let new = self.number(ctx, self.value(&old) + 1);
        ctx.set_slot(receiver, &count, new)?;
        let marker = self.next_marker;
        self.next_marker += 1;
        let frame = ctx.freeze(marker);
        Ok(receiver.pinned(frame))
    }
}

#[test]
fn a_host_that_freezes_after_each_bump() {
    let mut ctx = Context::new(1);
    let number_class = ctx.add_class(Class::new(Symbol::new("Number"))).expect("a class");
    let mut counter = Class::new(Symbol::new("Counter"));
    counter.define_slot(Symbol::new("count"), SlotDef::new(number_class));
    let body = expression("(self count ((self count) + 1))");
    counter.define_method(Method::new(Symbol::new("bump"), 1, None, Some(1), body));
    let counter_class = ctx.add_class(counter).expect("a class");

    let mut host = Host { number_class, values: HashMap::new(), next_marker: 0 };
    let c = ctx.instantiate(counter_class).expect("an object");
    let zero = host.number(&mut ctx, 0);
    let count = Symbol::new("count");
    let bump = Symbol::new("bump");
    ctx.set_slot(&c, &count, zero).expect("a live object");

    let mut returned = Vec::new();
    for k in 1..=3 {
        let r = ctx.send(&c, &bump, None, &mut host).expect("bump is defined");
        assert_eq!(r.id(), c.id());
        let seen = ctx.get_slot(&r, &count).expect("count is a slot");
        assert_eq!(host.value(&seen), k);
        returned.push(r);
    }
    let live = ctx.get_slot(&c, &count).expect("count is a slot");
    assert_eq!(host.value(&live), 3);
    for (i, r) in returned.iter().enumerate() {
        let seen = ctx.get_slot(r, &count).expect("count is a slot");
        assert_eq!(host.value(&seen), i as i64 + 1);
    }
}
