use simulabra::parser::SourceExpression;
use simulabra::runtime::class::{Class, Method, SlotDef};
use simulabra::runtime::context::Context;
use simulabra::runtime::dispatch::Echo;
use simulabra::runtime::frame::{Frame, RefFrame};
use simulabra::runtime::object::{Object, Sent, SimulabraErr};
use simulabra::runtime::oref::ORef;
use simulabra::runtime::shape::{Shape, ShapeRegistry};
use simulabra::runtime::symbol::Symbol;
use simulabra::runtime::table::ClassTable;
use simulabra::runtime::vmap::VMap;

fn sym(name: &str) -> Symbol {
    Symbol::new(name)
}

fn body() -> SourceExpression {
    SourceExpression::call("self".to_string())
}

fn method(name: &str, receiver: usize) -> Method {
    Method::new(sym(name), receiver, None, None, body())
}

fn class_with(name: &str, parents: &[usize], methods: &[&str], index: usize) -> Class {
    let mut c = Class::new(sym(name));
    for p in parents {
        c.add_parent(*p);
    }
    for m in methods {
        c.define_method(method(m, index));
    }
    c
}

fn missing(r: Result<ORef, SimulabraErr>) -> String {
    match r {
        Err(SimulabraErr::MethodMissing(name)) => name.as_str().to_string(),
        Ok(_) => panic!("the message was served"),
    }
}

#[test]
fn symbols_are_equal_by_text() {
    assert!(sym("count") == sym("count"));
    assert!(sym("count") != sym("Count"));
    assert!(sym("count").same(&sym("count").clone()));
    assert_eq!(sym("count").as_str(), "count");
}

#[test]
fn frames_are_paths() {
    let root = Frame::root();
    assert_eq!(root.depth(), 0);
    assert!(root.parent().is_none());
    let child = root.child(7).child(9);
    assert_eq!(child.depth(), 2);
    assert_eq!(child.marker(0), 7);
    assert_eq!(child.marker(1), 9);
    assert!(child.parent().expect("a parent") == root.child(7));
    assert!(child == Frame::from_path(vec![7, 9]));
    assert!(child != Frame::from_path(vec![9, 7]));
    assert!(root.child(7) != child);
}

#[test]
fn references_are_equal_by_object_version_and_node() {
    let a = ORef::new(3, 1);
    assert_eq!(a.id(), 3);
    assert_eq!(a.node(), 0);
    assert_eq!(a.context(), 1);
    assert!(a.is_present());
    assert!(a == ORef::new(3, 1));
    assert!(a == ORef::new(3, 2));
    assert!(a != ORef::new(4, 1));
    let then = a.pinned(Frame::root());
    assert!(!then.is_present());
    assert!(then != a);
    assert!(then == a.pinned(Frame::root()));
    assert!(then != a.pinned(Frame::root().child(0)));
    assert!(then.present() == a);
    assert!(*then.frame() == RefFrame::Frame(Frame::root()));
    assert!(*a.frame() == RefFrame::Present);
}

#[test]
fn a_transition_adds_one_slot_and_moves_none() {
    let empty = Shape::empty();
    assert_eq!(empty.slot_count(), 0);
    assert_eq!(empty.height(), 0);
    let x = empty.transition(sym("x"));
    let xy = x.transition(sym("y"));
    assert_eq!(x.slot_count(), 1);
    assert_eq!(xy.slot_count(), 2);
    assert_eq!(xy.height(), 2);
    assert_eq!(x.get_slot_index(&sym("x")), Some(0));
    assert_eq!(xy.get_slot_index(&sym("x")), Some(0));
    assert_eq!(xy.get_slot_index(&sym("y")), Some(1));
    assert_eq!(xy.get_slot_index(&sym("z")), None);
    assert_eq!(empty.get_slot_index(&sym("x")), None);
    assert_eq!(xy.name_at(1).as_str(), "y");
}

#[test]
fn the_registry_holds_each_shape_once() {
    let mut shapes = ShapeRegistry::new();
    assert_eq!(shapes.len(), 1);
    assert_eq!(shapes.root(), 0);
    let x = shapes.transition(0, &sym("x"));
    let xy = shapes.transition(x, &sym("y"));
    let y = shapes.transition(0, &sym("y"));
    let yx = shapes.transition(y, &sym("x"));
    assert_eq!((x, xy, y, yx), (1, 2, 3, 4));
    assert_eq!(shapes.transition(0, &sym("x")), x);
    assert_eq!(shapes.transition(x, &sym("y")), xy);
    assert_eq!(shapes.transition(y, &sym("x")), yx);
    assert_eq!(shapes.len(), 5);
    assert_eq!(shapes.shape(xy).get_slot_index(&sym("y")), Some(1));
    assert_eq!(shapes.shape(yx).get_slot_index(&sym("y")), Some(0));
}

#[test]
fn objects_with_the_same_slots_in_the_same_order_share_a_shape() {
    let mut shapes = ShapeRegistry::new();
    let mut a = Object::new(0, 0);
    let mut b = Object::new(1, 0);
    let mut c = Object::new(2, 0);
    for name in ["x", "y", "z"] {
        a.set_slot(&mut shapes, &sym(name), ORef::new(10, 1)).expect("stored");
    }
    for name in ["z", "y", "x"] {
        c.set_slot(&mut shapes, &sym(name), ORef::new(10, 1)).expect("stored");
    }
    for name in ["x", "y", "z"] {
        b.set_slot(&mut shapes, &sym(name), ORef::new(20, 1)).expect("stored");
    }
    assert_eq!(a.shape(), b.shape());
    assert!(a.shape() != c.shape());
    assert_eq!(a.slot_count(), 3);
    assert_eq!(shapes.len(), 7);
}

#[test]
fn a_second_store_keeps_the_shape() {
    let mut shapes = ShapeRegistry::new();
    let mut o = Object::new(0, 0);
    o.set_slot(&mut shapes, &sym("x"), ORef::new(1, 1)).expect("stored");
    o.set_slot(&mut shapes, &sym("y"), ORef::new(2, 1)).expect("stored");
    let shape = o.shape();
    let count = shapes.len();
    o.set_slot(&mut shapes, &sym("x"), ORef::new(3, 1)).expect("stored");
    o.set_slot(&mut shapes, &sym("x"), ORef::new(3, 1)).expect("stored");
    assert_eq!(o.shape(), shape);
    assert_eq!(shapes.len(), count);
    assert_eq!(o.slot_count(), 2);
    assert_eq!(o.get_slot(&shapes, &sym("x")).expect("a slot").id(), 3);
    assert_eq!(o.get_slot(&shapes, &sym("y")).expect("a slot").id(), 2);
    assert_eq!(o.get_slot_index(0).id(), 3);
    o.set_slot_index(1, ORef::new(9, 1));
    assert_eq!(o.get_slot(&shapes, &sym("y")).expect("a slot").id(), 9);
}

#[test]
fn a_missing_slot_is_a_missing_method() {
    let shapes = ShapeRegistry::new();
    let o = Object::new(0, 0);
    assert_eq!(missing(o.get_slot(&shapes, &sym("nothing"))), "nothing");
}

#[test]
fn a_vmap_keeps_the_order_of_its_keys() {
    let mut m: VMap<Symbol, u32> = VMap::new();
    assert_eq!(m.len(), 0);
    assert_eq!(m.insert(sym("b"), 1), 0);
    assert_eq!(m.insert(sym("a"), 2), 1);
    assert_eq!(m.insert(sym("b"), 3), 0);
    assert_eq!(m.len(), 2);
    assert_eq!(m.get_index(&sym("a")), Some(1));
    assert_eq!(m.get_index(&sym("b")), Some(0));
    assert_eq!(m.get_index(&sym("c")), None);
    assert_eq!(m.get(&sym("b")), Some(&3));
    assert_eq!(m.get(&sym("c")), None);
    assert_eq!(*m.value_at(1), 2);
    assert_eq!(m.key_at(1).as_str(), "a");
}

#[test]
fn a_class_looks_in_its_own_table_only() {
    let mut table = ClassTable::new();
    let base = table.add(class_with("Base", &[], &["f"], 0)).expect("admitted");
    let derived = table.add(class_with("Derived", &[base], &["g"], 1)).expect("admitted");
    assert!(table.get(derived).find_method(&sym("f")).is_none());
    assert_eq!(table.get(derived).find_method(&sym("g")).expect("a method").name().as_str(), "g");
    assert_eq!(table.get(derived).method_index(&sym("g")), Some(0));
    assert_eq!(table.find_method(derived, &sym("f")), Some((base, 0)));
}

#[test]
fn a_method_defined_again_is_replaced_in_place() {
    let mut c = Class::new(sym("C"));
    c.define_method(method("f", 0));
    c.define_method(method("g", 0));
    c.define_method(Method::new(sym("f"), 0, Some(3), Some(4), body()));
    assert_eq!(c.method_index(&sym("f")), Some(0));
    assert_eq!(c.method_index(&sym("g")), Some(1));
    assert_eq!(c.method_at(0).it(), Some(3));
    assert_eq!(c.method_at(0).ret(), Some(4));
    assert_eq!(c.method_at(0).receiver(), 0);
    c.define_slot(sym("x"), SlotDef::new(5));
    c.define_slot(sym("y"), SlotDef::new(6));
    c.define_slot(sym("x"), SlotDef::new(7));
    assert_eq!(c.slot_def_index(&sym("x")), Some(0));
    assert_eq!(c.slot_def_index(&sym("y")), Some(1));
    assert_eq!(c.slot_def_index(&sym("z")), None);
}

#[test]
fn classes_are_equal_by_name() {
    let a = class_with("Same", &[], &["f"], 0);
    let b = class_with("Same", &[3], &[], 0);
    assert!(a.same(&b));
    assert!(a == b);
    assert!(a != Class::new(sym("Other")));
}

#[test]
fn the_table_admits_a_class_after_its_parents_and_once() {
    let mut table = ClassTable::new();
    assert_eq!(table.add(class_with("A", &[0], &[], 0)), None);
    assert_eq!(table.add(class_with("A", &[], &[], 0)), Some(0));
    assert_eq!(table.add(class_with("A", &[], &["f"], 1)), None);
    assert_eq!(table.add(class_with("B", &[1], &[], 1)), None);
    assert_eq!(table.add(class_with("B", &[0, 0], &[], 1)), Some(1));
    assert_eq!(table.len(), 2);
    assert_eq!(table.find(&sym("B")), Some(1));
    assert_eq!(table.find(&sym("C")), None);
    assert_eq!(table.get(1).parent_count(), 2);
    assert_eq!(table.get(1).parent(1), 0);
}

#[test]
fn resolution_takes_the_first_parent_that_has_the_method() {
    let mut table = ClassTable::new();
    let a = table.add(class_with("A", &[], &["f"], 0)).expect("admitted");
    let b = table.add(class_with("B", &[], &["f", "g"], 1)).expect("admitted");
    let ab = table.add(class_with("AB", &[a, b], &[], 2)).expect("admitted");
    let ba = table.add(class_with("BA", &[b, a], &[], 3)).expect("admitted");
    assert_eq!(table.find_method(ab, &sym("f")), Some((a, 0)));
    assert_eq!(table.find_method(ba, &sym("f")), Some((b, 0)));
    assert_eq!(table.find_method(ab, &sym("g")), Some((b, 1)));
    assert_eq!(table.find_method(ab, &sym("h")), None);
}

#[test]
fn resolution_goes_deep_before_it_goes_on() {
    let mut table = ClassTable::new();
    let root = table.add(class_with("Root", &[], &["f"], 0)).expect("admitted");
    let left = table.add(class_with("Left", &[root], &[], 1)).expect("admitted");
    let right = table.add(class_with("Right", &[], &["f"], 2)).expect("admitted");
    let both = table.add(class_with("Both", &[left, right], &[], 3)).expect("admitted");
    let own = table.add(class_with("Own", &[left, right], &["f"], 4)).expect("admitted");
    assert_eq!(table.find_method(both, &sym("f")), Some((root, 0)));
    assert_eq!(table.find_method(own, &sym("f")), Some((own, 0)));
    assert_eq!(table.method(root, 0).name().as_str(), "f");
}

struct World {
    ctx: Context,
    a: usize,
    ab: usize,
    ba: usize,
}

fn world() -> World {
    let mut ctx = Context::new(1);
    let a = ctx.add_class(class_with("A", &[], &["f", "m"], 0)).expect("admitted");
    let b = ctx.add_class(class_with("B", &[], &["f"], 1)).expect("admitted");
    let ab = ctx.add_class(class_with("AB", &[a, b], &[], 2)).expect("admitted");
    let ba = ctx.add_class(class_with("BA", &[b, a], &[], 3)).expect("admitted");
    World { ctx, a, ab, ba }
}

#[test]
fn a_new_context_is_empty() {
    let ctx = Context::new(5);
    assert_eq!(ctx.id(), 5);
    assert_eq!(ctx.cur_frame().depth(), 0);
    assert_eq!(ctx.classes().len(), 0);
    assert_eq!(ctx.shapes().len(), 1);
    assert!(ctx.get_oref(&ORef::new(0, 5)).is_none());
}

#[test]
fn objects_get_identifiers_in_order() {
    let mut w = world();
    let first = w.ctx.instantiate(w.a).expect("an object");
    let second = w.ctx.instantiate(w.ab).expect("an object");
    assert_eq!((first.id(), second.id()), (0, 1));
    assert_eq!(first.context(), 1);
    assert!(first.is_present());
    assert!(w.ctx.instantiate(99).is_none());
    let third = w.ctx.instantiate(w.a).expect("an object");
    assert_eq!(third.id(), 2);
    let obj = w.ctx.get_oref(&second).expect("an object");
    assert_eq!(obj.id(), 1);
    assert_eq!(obj.class(), w.ab);
    assert_eq!(obj.slot_count(), 0);
    assert_eq!(obj.shape(), 0);
}

#[test]
fn a_reference_that_denotes_nothing() {
    let mut w = world();
    let o = w.ctx.instantiate(w.a).expect("an object");
    assert!(w.ctx.get_oref(&ORef::new(17, 1)).is_none());
    assert!(w.ctx.get_oref(&ORef::new(o.id(), 2)).is_none());
    assert!(w.ctx.get_oref(&o.pinned(Frame::root())).is_none());
    assert!(w.ctx.find_method(&sym("f"), &ORef::new(17, 1)).is_none());
    assert_eq!(missing(w.ctx.get_slot(&ORef::new(17, 1), &sym("x"))), "x");
    assert_eq!(missing(w.ctx.send(&ORef::new(17, 1), &sym("f"), None, &mut Echo)), "f");
    assert!(w.ctx.set_slot(&ORef::new(17, 1), &sym("x"), o.clone()).is_err());
    assert!(w.ctx.set_slot(&ORef::new(o.id(), 2), &sym("x"), o.clone()).is_err());
    assert!(w.ctx.get_oref(&o).expect("an object").slot_count() == 0);
}

#[test]
fn find_method_walks_the_parents_in_order() {
    let mut w = world();
    let x = w.ctx.instantiate(w.ab).expect("an object");
    let y = w.ctx.instantiate(w.ba).expect("an object");
    assert_eq!(w.ctx.find_method(&sym("f"), &x).expect("a method").receiver(), 0);
    assert_eq!(w.ctx.find_method(&sym("f"), &y).expect("a method").receiver(), 1);
    assert_eq!(w.ctx.find_method(&sym("m"), &y).expect("a method").receiver(), 0);
    assert!(w.ctx.find_method(&sym("nothing"), &x).is_none());
}

#[test]
fn a_slot_is_served_before_a_method() {
    let mut w = world();
    let o = w.ctx.instantiate(w.a).expect("an object");
    let v = w.ctx.instantiate(w.a).expect("an object");
    assert!(w.ctx.find_method(&sym("m"), &o).is_some());
    let by_method = w.ctx.send(&o, &sym("m"), None, &mut Echo).expect("a method");
    assert!(by_method == o);
    w.ctx.set_slot(&o, &sym("m"), v.clone()).expect("stored");
    let by_slot = w.ctx.send(&o, &sym("m"), None, &mut Echo).expect("a slot");
    assert!(by_slot == v);
    assert!(by_slot != o);
    match w.ctx.dispatch(&o, &sym("m"), None) {
        Ok(Sent::Value(r)) => assert!(r == v),
        other => panic!("{:?}", other),
    }
    match w.ctx.dispatch(&o, &sym("f"), None) {
        Ok(Sent::Invoke(class, index)) => assert_eq!((class, index), (w.a, 0)),
        other => panic!("{:?}", other),
    }
}

#[test]
fn a_send_with_an_argument_overwrites_a_slot() {
    let mut w = world();
    let o = w.ctx.instantiate(w.a).expect("an object");
    let v1 = w.ctx.instantiate(w.a).expect("an object");
    let v2 = w.ctx.instantiate(w.a).expect("an object");
    w.ctx.set_slot(&o, &sym("x"), v1.clone()).expect("stored");
    let shape = w.ctx.get_oref(&o).expect("an object").shape();
    let r = w.ctx.send(&o, &sym("x"), Some(v2.clone()), &mut Echo).expect("a slot");
    assert!(r == o);
    assert!(w.ctx.get_slot(&o, &sym("x")).expect("a slot") == v2);
    assert_eq!(w.ctx.get_oref(&o).expect("an object").shape(), shape);
    assert_eq!(missing(w.ctx.send(&o, &sym("y"), Some(v2.clone()), &mut Echo)), "y");
    assert_eq!(w.ctx.get_oref(&o).expect("an object").slot_count(), 1);
    match w.ctx.dispatch(&o, &sym("x"), Some(v1.clone())) {
        Ok(Sent::Stored) => {}
        other => panic!("{:?}", other),
    }
    assert!(w.ctx.get_slot(&o, &sym("x")).expect("a slot") == v1);
}

#[test]
fn an_undefined_message_is_missing_with_its_name() {
    let mut w = world();
    let o = w.ctx.instantiate(w.ab).expect("an object");
    assert_eq!(missing(w.ctx.send(&o, &sym("undefined"), None, &mut Echo)), "undefined");
    assert_eq!(missing(w.ctx.send(&o, &sym("undefined"), Some(o.clone()), &mut Echo)), "undefined");
    assert_eq!(missing(w.ctx.get_slot(&o, &sym("undefined"))), "undefined");
    match w.ctx.dispatch(&o, &sym("undefined"), None) {
        Err(e) => assert_eq!(e.symbol().as_str(), "undefined"),
        other => panic!("{:?}", other),
    }
}

#[test]
fn an_object_sent_to_directly() {
    let w = world();
    let mut shapes = ShapeRegistry::new();
    let mut o = Object::new(0, w.ab);
    o.set_slot(&mut shapes, &sym("x"), ORef::new(5, 1)).expect("stored");
    match o.send(w.ctx.classes(), &shapes, &sym("x"), None) {
        Ok(Sent::Value(r)) => assert_eq!(r.id(), 5),
        other => panic!("{:?}", other),
    }
    match o.send(w.ctx.classes(), &shapes, &sym("x"), Some(ORef::new(6, 1))) {
        Ok(Sent::Stored) => {}
        other => panic!("{:?}", other),
    }
    assert_eq!(o.get_slot_index(0).id(), 6);
    match o.send(w.ctx.classes(), &shapes, &sym("f"), Some(ORef::new(6, 1))) {
        Ok(Sent::Invoke(class, index)) => assert_eq!((class, index), (w.a, 0)),
        other => panic!("{:?}", other),
    }
    match o.send(w.ctx.classes(), &shapes, &sym("nothing"), None) {
        Err(SimulabraErr::MethodMissing(name)) => assert_eq!(name.as_str(), "nothing"),
        other => panic!("{:?}", other),
    }
    let copy = o.clone();
    assert_eq!(copy.get_slot_index(0).id(), 6);
}

#[test]
fn a_pinned_reference_reads_what_was_frozen() {
    let mut w = world();
    let o = w.ctx.instantiate(w.a).expect("an object");
    let v1 = w.ctx.instantiate(w.a).expect("an object");
    let v2 = w.ctx.instantiate(w.a).expect("an object");
    w.ctx.set_slot(&o, &sym("x"), v1.clone()).expect("stored");
    let frame = w.ctx.freeze(10);
    assert!(frame == Frame::root());
    assert!(*w.ctx.cur_frame() == Frame::root().child(10));
    let then = o.pinned(frame);
    assert!(w.ctx.get_slot(&then, &sym("x")).expect("a slot") == v1);

    w.ctx.set_slot(&o, &sym("x"), v2.clone()).expect("stored");
    w.ctx.set_slot(&o, &sym("y"), v2.clone()).expect("stored");
    let late = w.ctx.instantiate(w.a).expect("an object");
    assert!(w.ctx.get_slot(&o, &sym("x")).expect("a slot") == v2);
    assert!(w.ctx.get_slot(&then, &sym("x")).expect("a slot") == v1);
    assert_eq!(missing(w.ctx.get_slot(&then, &sym("y"))), "y");
    assert_eq!(w.ctx.get_oref(&then).expect("an object").slot_count(), 1);
    assert!(w.ctx.get_oref(&late.pinned(Frame::root())).is_none());
    assert!(w.ctx.send(&then, &sym("x"), None, &mut Echo).expect("a slot") == v1);
    assert!(w.ctx.find_method(&sym("f"), &then).is_some());
}

#[test]
fn a_frozen_version_is_not_written() {
    let mut w = world();
    let o = w.ctx.instantiate(w.a).expect("an object");
    let v = w.ctx.instantiate(w.a).expect("an object");
    w.ctx.set_slot(&o, &sym("x"), v.clone()).expect("stored");
    let then = o.pinned(w.ctx.freeze(1));
    match w.ctx.set_slot(&then, &sym("x"), o.clone()) {
        Err(SimulabraErr::MethodMissing(name)) => assert_eq!(name.as_str(), "x"),
        Ok(()) => panic!("a frozen version was written"),
    }
    assert_eq!(missing(w.ctx.send(&then, &sym("x"), Some(o.clone()), &mut Echo)), "x");
    assert!(w.ctx.get_slot(&then, &sym("x")).expect("a slot") == v);
    assert!(w.ctx.get_slot(&o, &sym("x")).expect("a slot") == v);
}

#[test]
fn frames_form_a_tree() {
    let mut w = world();
    let o = w.ctx.instantiate(w.a).expect("an object");
    let v1 = w.ctx.instantiate(w.a).expect("an object");
    let v2 = w.ctx.instantiate(w.a).expect("an object");
    let v3 = w.ctx.instantiate(w.a).expect("an object");
    w.ctx.set_slot(&o, &sym("x"), v1.clone()).expect("stored");
    let root = w.ctx.freeze(1);
    w.ctx.set_slot(&o, &sym("x"), v2.clone()).expect("stored");
    let one = w.ctx.freeze(2);
    assert!(one == Frame::from_path(vec![1]));
    assert!(*w.ctx.cur_frame() == Frame::from_path(vec![1, 2]));

    assert!(!w.ctx.return_to(&Frame::from_path(vec![5]), 0));
    assert!(!w.ctx.return_to(&Frame::from_path(vec![1, 2]), 0));
    assert!(!w.ctx.return_to(&root, 1));
    assert!(*w.ctx.cur_frame() == Frame::from_path(vec![1, 2]));
    assert!(w.ctx.get_slot(&o, &sym("x")).expect("a slot") == v2);

    assert!(w.ctx.return_to(&root, 3));
    assert!(*w.ctx.cur_frame() == Frame::from_path(vec![3]));
    assert!(w.ctx.get_slot(&o, &sym("x")).expect("a slot") == v1);
    w.ctx.set_slot(&o, &sym("x"), v3.clone()).expect("stored");
    assert!(w.ctx.get_slot(&o.pinned(root), &sym("x")).expect("a slot") == v1);
    assert!(w.ctx.get_slot(&o.pinned(one), &sym("x")).expect("a slot") == v2);
    assert!(w.ctx.get_slot(&o, &sym("x")).expect("a slot") == v3);
    let fresh = w.ctx.instantiate(w.a).expect("an object");
    assert_eq!(fresh.id(), 4);
}

#[test]
fn shapes_are_shared_across_the_objects_of_a_context() {
    let mut w = world();
    let a = w.ctx.instantiate(w.a).expect("an object");
    let b = w.ctx.instantiate(w.ab).expect("an object");
    let v = w.ctx.instantiate(w.a).expect("an object");
    for name in ["x", "y"] {
        w.ctx.set_slot(&a, &sym(name), v.clone()).expect("stored");
    }
    let then = a.pinned(w.ctx.freeze(0));
    w.ctx.set_slot(&a, &sym("z"), v.clone()).expect("stored");
    for name in ["x", "y"] {
        w.ctx.set_slot(&b, &sym(name), a.clone()).expect("stored");
    }
    let shape_then = w.ctx.get_oref(&then).expect("an object").shape();
    let shape_b = w.ctx.get_oref(&b).expect("an object").shape();
    let shape_a = w.ctx.get_oref(&a).expect("an object").shape();
    assert_eq!(shape_then, shape_b);
    assert!(shape_a != shape_b);
    assert_eq!(w.ctx.shapes().shape(shape_a).slot_count(), 3);
}

#[test]
fn a_text_is_interned_once() {
    let mut table = simulabra::runtime::symbol::SymbolTable::new();
    assert_eq!(table.len(), 0);
    assert_eq!(table.lookup("count"), None);
    let count = table.intern("count");
    let bump = table.intern("bump");
    assert_eq!((count, bump), (0, 1));
    assert_eq!(table.intern("count"), count);
    assert_eq!(table.intern("Count"), 2);
    assert_eq!(table.len(), 3);
    assert_eq!(table.lookup("bump"), Some(bump));
    assert_eq!(table.symbol(bump).as_str(), "bump");
    assert!(*table.symbol(count) == sym("count"));
}
