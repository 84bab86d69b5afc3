//! What holds of the runtime, whatever the objects, classes and messages.

use vstd::prelude::*;
use crate::runtime::context::{
    ContextView, layouts_kept, lemma_deref_wf, lemma_objects_wf_kept, lemma_pinned_read_kept,
    objects_wf,
};
use crate::runtime::dispatch::Plan;
use crate::runtime::object::{ObjectView, SentView, lemma_with_slot};
use crate::runtime::oref::ORefView;
use crate::runtime::shape::{
    Layouts, layouts_wf, lemma_spec_transition, lemma_transition_monotone, slot_index,
    spec_transition,
};
use crate::runtime::table::{Classes, classes_wf, resolve, resolve_parents};

verus! {

/// The registry and the object after the object was stored into once for
/// each of `names`, in order, with the value at the same position of
/// `values`.
pub open spec fn acquire(
    layouts: Layouts,
    obj: ObjectView,
    names: Seq<Seq<char>>,
    values: Seq<ORefView>,
) -> (Layouts, ObjectView)
    decreases names.len(),
{
    if names.len() == 0 {
        (layouts, obj)
    } else {
        let (grown, after) = acquire(layouts, obj, names.drop_last(), values.drop_last());
        after.with_slot(grown, names.last(), values.last())
    }
}

/// An object that acquires new, distinct slots has, after them, the names it
/// had followed by the new names in the order of the stores, and holds the
/// values in that order. The registry keeps its shapes.
pub proof fn lemma_acquire(
    layouts: Layouts,
    obj: ObjectView,
    names: Seq<Seq<char>>,
    values: Seq<ORefView>,
)
    requires
        layouts_wf(layouts),
        obj.wf(layouts),
        names.len() == values.len(),
        (obj.names(layouts) + names).no_duplicates(),
    ensures
        ({
            let (grown, after) = acquire(layouts, obj, names, values);
            &&& layouts_wf(grown)
            &&& after.wf(grown)
            &&& layouts_kept(layouts, grown)
            &&& after.names(grown) == obj.names(layouts) + names
            &&& after.slots == obj.slots + values
        }),
    decreases names.len(),
{
    let had = obj.names(layouts);
    if names.len() == 0 {
        assert(had + names =~= had);
        assert(obj.slots + values =~= obj.slots);
    } else {
        let front = names.drop_last();
        let all = had + names;
        assert forall|i: int, j: int|
            0 <= i < (had + front).len() && 0 <= j < (had + front).len() && i != j implies (had
            + front)[i] != (had + front)[j] by {
            assert((had + front)[i] == all[i]);
            assert((had + front)[j] == all[j]);
        }
        lemma_acquire(layouts, obj, front, values.drop_last());
        let (grown, after) = acquire(layouts, obj, front, values.drop_last());
        let name = names.last();
        assert(!after.names(grown).contains(name)) by {
            if (had + front).contains(name) {
                let j = (had + front).index_of(name);
                assert((had + front)[j] == name);
                assert(all[j] == name);
                assert(all[all.len() - 1] == name);
            }
        }
        lemma_with_slot(after, grown, name, values.last());
        assert((had + front).push(name) =~= had + names);
        assert((obj.slots + values.drop_last()).push(values.last()) =~= obj.slots + values);
        assert(slot_index(after.names(grown), name) is None);
    }
}

/// Shape sharing. Two objects of the same shape that acquire the same new,
/// distinct slot names in the same order, one after the other in one registry
/// and whatever the values, end with the same shape identifier. Two objects
/// without slots are of the same shape, the empty one.
pub proof fn law_shape_sharing(
    layouts: Layouts,
    a: ObjectView,
    b: ObjectView,
    names: Seq<Seq<char>>,
    values_a: Seq<ORefView>,
    values_b: Seq<ORefView>,
)
    requires
        layouts_wf(layouts),
        a.wf(layouts),
        b.wf(layouts),
        a.shape == b.shape,
        (a.names(layouts) + names).no_duplicates(),
        names.len() == values_a.len(),
        names.len() == values_b.len(),
    ensures
        ({
            let (first, a_after) = acquire(layouts, a, names, values_a);
            let (second, b_after) = acquire(first, b, names, values_b);
            &&& a_after.shape == b_after.shape
            &&& a_after.wf(second)
            &&& b_after.wf(second)
            &&& a_after.names(second) == a.names(layouts) + names
        }),
{
    lemma_acquire(layouts, a, names, values_a);
    let (first, a_after) = acquire(layouts, a, names, values_a);
    assert(first[b.shape] == layouts[b.shape]);
    lemma_acquire(first, b, names, values_b);
    let (second, b_after) = acquire(first, b, names, values_b);
    assert(second[a_after.shape] == first[a_after.shape]);
}

/// Shape sharing, as it holds in every state of a context: two references
/// that denote objects with the same slot names in the same order denote
/// objects of the same shape identifier, whichever versions they read.
pub proof fn law_same_names_same_shape(ctx: ContextView, a: ORefView, b: ORefView)
    requires
        ctx.wf(),
        ctx.deref(a) is Some,
        ctx.deref(b) is Some,
        ctx.names(a) == ctx.names(b),
    ensures
        ctx.deref(a)->0.shape == ctx.deref(b)->0.shape,
{
    lemma_deref_wf(ctx, a);
    lemma_deref_wf(ctx, b);
}

/// Shape monotonicity. A transition leads to a layout with exactly one slot
/// more. Every slot of the layout left has the same index and the same name
/// in the layout reached, and the registry keeps all its shapes.
pub proof fn law_shape_monotone(layouts: Layouts, id: int, name: Seq<char>)
    requires
        layouts_wf(layouts),
        0 <= id < layouts.len(),
        !layouts[id].contains(name),
    ensures
        ({
            let (grown, shape) = spec_transition(layouts, id, name);
            &&& grown[shape].len() == layouts[id].len() + 1
            &&& forall|k: int| 0 <= k < layouts[id].len() ==> grown[shape][k] == layouts[id][k]
            &&& forall|k: int|
                0 <= k < layouts[id].len() ==> slot_index(grown[shape], #[trigger] layouts[id][k])
                    == Some(k)
            &&& slot_index(grown[shape], name) == Some(layouts[id].len() as int)
            &&& layouts_kept(layouts, grown)
        }),
{
    lemma_spec_transition(layouts, id, name);
    lemma_transition_monotone(layouts[id], name);
}

/// Slot idempotence. A second store into the same slot leaves the registry
/// and the object's shape as the first store left them and adds no slot; the
/// slot holds the second value, and every other slot holds what it held.
/// Where the second value is the first, the object is as it was.
pub proof fn law_slot_idempotence(
    layouts: Layouts,
    obj: ObjectView,
    name: Seq<char>,
    first: ORefView,
    second: ORefView,
)
    requires
        layouts_wf(layouts),
        obj.wf(layouts),
    ensures
        ({
            let (grown, once) = obj.with_slot(layouts, name, first);
            let (again, twice) = once.with_slot(grown, name, second);
            &&& again == grown
            &&& twice.shape == once.shape
            &&& twice.slots.len() == once.slots.len()
            &&& twice.slot(again, name) == Some(second)
            &&& forall|other: Seq<char>|
                other != name ==> #[trigger] twice.slot(again, other) == once.slot(grown, other)
            &&& second == first ==> twice == once
        }),
{
    lemma_with_slot(obj, layouts, name, first);
    let (grown, once) = obj.with_slot(layouts, name, first);
    lemma_with_slot(once, grown, name, second);
    let (again, twice) = once.with_slot(grown, name, second);
    assert(slot_index(once.names(grown), name) is Some);
    if second == first {
        assert(twice.slots =~= once.slots);
    }
}

/// Dispatch precedence. A send without an argument to an object that has a
/// slot of the message's name reads the slot, whether or not a class of the
/// object defines a method of that name.
pub proof fn law_slot_beats_method(ctx: ContextView, receiver: ORefView, name: Seq<char>)
    requires
        ctx.wf(),
        ctx.slot(receiver, name) is Some,
    ensures
        ctx.plan(receiver, name, None) == Plan::Read(ctx.slot(receiver, name)->0),
{
}

/// The same, of a send to the object itself.
pub proof fn law_slot_beats_method_on_object(
    obj: ObjectView,
    layouts: Layouts,
    classes: Classes,
    name: Seq<char>,
)
    requires
        obj.slot(layouts, name) is Some,
    ensures
        obj.sent(layouts, classes, name, None) == (
            obj,
            Ok::<SentView, Seq<char>>(SentView::Value(obj.slot(layouts, name)->0)),
        ),
{
}

/// Method resolution order. A class defines a message itself: that
/// definition is the result. It does not: the result is what the first
/// parent, in declaration order, resolves the message to, where that is
/// anything, else what the following parents give.
pub proof fn law_resolution_first_match(classes: Classes, c: int, name: Seq<char>)
    requires
        classes_wf(classes),
        0 <= c < classes.len(),
    ensures
        classes[c].own_method(name) matches Some(k) ==> resolve(classes, c, name) == Some((c, k)),
        classes[c].own_method(name) is None ==> resolve(classes, c, name) == resolve_parents(
            classes,
            c,
            0,
            name,
        ),
        forall|j: int|
            #![trigger classes[c].parents[j]]
            0 <= j < classes[c].parents.len() ==> resolve_parents(classes, c, j, name) == (
            match resolve(classes, classes[c].parents[j] as int, name) {
                Some(found) => Some(found),
                None => resolve_parents(classes, c, j + 1, name),
            }),
{
}

/// Method resolution order, for two parents that both define the message.
/// The definition of the parent that is declared first is the result, so the
/// result changes with the order of the parents.
pub proof fn law_resolution_order(classes: Classes, c: int, name: Seq<char>)
    requires
        classes_wf(classes),
        0 <= c < classes.len(),
        classes[c].own_method(name) is None,
        classes[c].parents.len() == 2,
        classes[classes[c].parents[0] as int].own_method(name) is Some,
        classes[classes[c].parents[1] as int].own_method(name) is Some,
    ensures
        resolve(classes, c, name) == Some(
            (
                classes[c].parents[0] as int,
                classes[classes[c].parents[0] as int].own_method(name)->0,
            ),
        ),
        classes[c].parents[0] != classes[c].parents[1] ==> resolve(classes, c, name) != Some(
            (
                classes[c].parents[1] as int,
                classes[classes[c].parents[1] as int].own_method(name)->0,
            ),
        ),
{
    let p = classes[c].parents[0] as int;
    assert(p < c);
    assert(resolve(classes, c, name) == resolve_parents(classes, c, 0, name));
    assert(resolve(classes, p, name) == Some((p, classes[p].own_method(name)->0)));
}

/// Miss semantics. A send to an object that has no slot of the message's
/// name, and whose class resolves the name to no method, misses, with or
/// without an argument; so does a send to a reference that denotes nothing.
/// The send to the object itself fails with exactly the name.
pub proof fn law_miss(ctx: ContextView, receiver: ORefView, name: Seq<char>, arg: Option<ORefView>)
    requires
        ctx.wf(),
        ctx.slot(receiver, name) is None,
        ctx.resolve(name, receiver) is None,
    ensures
        ctx.plan(receiver, name, arg) == Plan::Miss,
        ctx.deref(receiver) matches Some(obj) ==> obj.sent(ctx.layouts, ctx.classes, name, arg)
            == (obj, Err::<SentView, Seq<char>>(name)),
{
    match ctx.deref(receiver) {
        Some(obj) => {
            lemma_deref_wf(ctx, receiver);
            let names = obj.names(ctx.layouts);
            if slot_index(names, name) is Some {
                assert(obj.slot(ctx.layouts, name) is Some);
            }
        },
        None => {},
    }
}

/// Capture. Right after a frame is frozen, a reference pinned to it reads
/// what the reference to the present read when the frame was left.
pub proof fn law_capture(ctx: ContextView, r: ORefView, marker: u64)
    requires
        ctx.wf(),
        r.frame is None,
    ensures
        ctx.frozen(marker).deref(ORefView { frame: Some(ctx.frame), ..r }) == ctx.deref(r),
        forall|name: Seq<char>|
            ctx.frozen(marker).slot(ORefView { frame: Some(ctx.frame), ..r }, name) == ctx.slot(
                r,
                name,
            ),
{
}

/// Stores and reads. After a store into slot `name` of a live object, the
/// slot holds the value stored, and every other slot of every object, live
/// or frozen, holds what it held.
pub proof fn law_store_reads(ctx: ContextView, target: ORefView, name: Seq<char>, value: ORefView)
    requires
        ctx.wf(),
        ctx.writable(target),
    ensures
        ctx.with_slot(target.id, name, value).wf(),
        ctx.precedes(ctx.with_slot(target.id, name, value)),
        ctx.with_slot(target.id, name, value).slot(target, name) == Some(value),
        forall|r: ORefView, slot: Seq<char>|
            !(r.frame is None && r.id == target.id && slot == name) ==> #[trigger] ctx.with_slot(
                target.id,
                name,
                value,
            ).slot(r, slot) == ctx.slot(r, slot),
{
    let later = ctx.with_slot(target.id, name, value);
    let obj = ctx.objects[target.id];
    lemma_with_slot(obj, ctx.layouts, name, value);
    assert(ctx.precedes(later));
    assert forall|id: u64| #[trigger] later.objects.contains_key(id) implies {
        &&& later.objects[id].id == id
        &&& id < later.next_id
        &&& later.objects[id].wf(later.layouts)
        &&& later.objects[id].class < later.classes.len()
    } by {
        assert(ctx.objects.contains_key(id));
        if id != target.id {
            assert(later.layouts[ctx.objects[id].shape] == ctx.layouts[ctx.objects[id].shape]);
        }
    }
    assert forall|f: Seq<u64>| #[trigger] later.history.contains_key(f) implies objects_wf(
        later.history[f],
        later.next_id,
        later.layouts,
        later.classes,
    ) by {
        lemma_objects_wf_kept(
            ctx.history[f],
            ctx.next_id,
            ctx.layouts,
            ctx.classes,
            later.next_id,
            later.layouts,
            later.classes,
        );
    }
    assert forall|r: ORefView, slot: Seq<char>|
        !(r.frame is None && r.id == target.id && slot == name) implies #[trigger] later.slot(
        r,
        slot,
    ) == ctx.slot(r, slot) by {
        if ctx.deref(r) is Some {
            lemma_deref_wf(ctx, r);
            if r.frame is Some {
                lemma_pinned_read_kept(ctx, later, r);
            } else if r.id != target.id {
                let o = ctx.objects[r.id];
                assert(later.layouts[o.shape] == ctx.layouts[o.shape]);
            }
        }
    }
}

/// Frame read stability. A store into a live object changes nothing of what
/// a pinned reference reads: the object it denotes, the names of its slots
/// and what each slot holds.
pub proof fn law_frame_read_stable(
    ctx: ContextView,
    pinned: ORefView,
    target: ORefView,
    name: Seq<char>,
    value: ORefView,
)
    requires
        ctx.wf(),
        pinned.frame is Some,
        ctx.writable(target),
    ensures
        ctx.with_slot(target.id, name, value).deref(pinned) == ctx.deref(pinned),
        ctx.with_slot(target.id, name, value).names(pinned) == ctx.names(pinned),
        forall|slot: Seq<char>|
            ctx.with_slot(target.id, name, value).slot(pinned, slot) == ctx.slot(pinned, slot),
{
    let later = ctx.with_slot(target.id, name, value);
    lemma_with_slot(ctx.objects[target.id], ctx.layouts, name, value);
    assert(ctx.precedes(later));
    if ctx.deref(pinned) is Some {
        lemma_pinned_read_kept(ctx, later, pinned);
    }
}

} // verus!
