//! What evaluation gives for a counter: an object with a slot `count` that
//! holds a number, and a method `bump` whose body stores the count plus one
//! and gives the receiver.

use vstd::prelude::*;
use crate::lexer::scan_integer;
use crate::parser::Expr;
use crate::runtime::context::{ContextView, lemma_objects_wf_kept, objects_wf};
use crate::runtime::dispatch::Plan;
use crate::runtime::eval::{Outcome, World, added, eval_spec, number_made, send_spec};
use crate::runtime::laws::law_store_reads;
use crate::runtime::object::lemma_with_slot;
use crate::runtime::oref::ORefView;
use crate::runtime::shape::slot_index;
use crate::runtime::table::resolve;

verus! {

/// The expression `self`.
pub open spec fn me_expr() -> Expr {
    Expr::Message("self"@, false)
}

/// The expression `(self count)`.
pub open spec fn read_expr() -> Expr {
    Expr::Send(Box::new(me_expr()), Box::new(Expr::Message("count"@, false)), None, None)
}

/// The expression `((self count) + 1)`.
pub open spec fn sum_expr() -> Expr {
    Expr::Send(
        Box::new(read_expr()),
        Box::new(Expr::Message("+"@, false)),
        Some(Box::new(Expr::Number("1"@))),
        None,
    )
}

/// The body of `bump`: the expression `(self count ((self count) + 1))`.
pub open spec fn bump_body() -> Expr {
    Expr::Send(
        Box::new(me_expr()),
        Box::new(Expr::Message("count"@, false)),
        Some(Box::new(sum_expr())),
        None,
    )
}

/// Whether `v` refers to a live number object that stands for `n`: an
/// object of the number class without slots, whose integer the host knows.
pub open spec fn is_number(w: World, number_class: usize, v: ORefView, n: int) -> bool {
    &&& v.context == w.ctx.id
    &&& v.frame is None
    &&& w.ctx.objects.contains_key(v.id)
    &&& w.ctx.objects[v.id].class == number_class
    &&& w.ctx.objects[v.id].slots.len() == 0
    &&& w.numbers.contains_key(v.id)
    &&& w.numbers[v.id] == n
}

/// Whether `c` refers to a live counter whose count is `n`: its slot `count`
/// holds a number for `n`, it has no slot `bump`, and `bump` resolves on its
/// class to a method with the body of `bump`. The number class serves no
/// `+`, so the host adds.
pub open spec fn is_counter(w: World, number_class: usize, c: ORefView, n: int) -> bool {
    &&& w.ctx.wf()
    &&& w.ctx.writable(c)
    &&& number_class < w.ctx.classes.len()
    &&& resolve(w.ctx.classes, number_class as int, "+"@) is None
    &&& slot_index(w.ctx.objects[c.id].names(w.ctx.layouts), "bump"@) is None
    &&& resolve(w.ctx.classes, w.ctx.objects[c.id].class as int, "bump"@) matches Some((a, b))
        && w.ctx.classes[a].methods[b].code == bump_body()
    &&& w.ctx.objects[c.id].slot(w.ctx.layouts, "count"@) matches Some(v) && is_number(
        w,
        number_class,
        v,
        n,
    )
}

/// The world after `bump` was sent `k` times to `c`, each send run to the
/// depth `fuel`.
pub open spec fn bumped(w: World, number_class: usize, c: ORefView, fuel: nat, k: nat) -> World
    decreases k,
{
    if k == 0 {
        w
    } else {
        send_spec(
            bumped(w, number_class, c, fuel, (k - 1) as nat),
            number_class,
            c,
            "bump"@,
            None,
            fuel,
        ).0
    }
}

/// Making a number object keeps the context well formed and every object
/// that it held as it was; the new object is a number for the integer.
pub proof fn lemma_number_made(w: World, number_class: usize, n: isize, name: Seq<char>)
    requires
        w.ctx.wf(),
        w.ctx.can_instantiate(number_class),
    ensures
        ({
            let (after, r) = number_made(w, number_class, n, name);
            &&& r == Ok::<ORefView, Seq<char>>(
                ORefView { id: w.ctx.next_id, frame: None, node: 0, context: w.ctx.id },
            )
            &&& after.ctx.wf()
            &&& after.ctx.next_id == w.ctx.next_id + 1
            &&& after.ctx.classes == w.ctx.classes
            &&& after.ctx.layouts == w.ctx.layouts
            &&& after.ctx.id == w.ctx.id
            &&& !w.ctx.objects.contains_key(w.ctx.next_id)
            &&& forall|id: u64| #[trigger]
                w.ctx.objects.contains_key(id) ==> after.ctx.objects.contains_key(id)
                    && after.ctx.objects[id] == w.ctx.objects[id]
            &&& forall|id: u64| #[trigger]
                w.numbers.contains_key(id) && id != w.ctx.next_id ==> after.numbers.contains_key(id)
                    && after.numbers[id] == w.numbers[id]
            &&& is_number(after, number_class, r->Ok_0, n as int)
        }),
{
    let (after, r) = number_made(w, number_class, n, name);
    let id = w.ctx.next_id;
    assert(!w.ctx.objects.contains_key(id)) by {
        if w.ctx.objects.contains_key(id) {
            assert(id < w.ctx.next_id);
        }
    }
    assert(objects_wf(after.ctx.objects, after.ctx.next_id, after.ctx.layouts, after.ctx.classes))
        by {
        assert forall|i: u64| #[trigger] after.ctx.objects.contains_key(i) implies {
            &&& after.ctx.objects[i].id == i
            &&& i < after.ctx.next_id
            &&& after.ctx.objects[i].wf(after.ctx.layouts)
            &&& after.ctx.objects[i].class < after.ctx.classes.len()
        } by {
            if i != id {
                assert(w.ctx.objects.contains_key(i));
            }
        }
    }
    assert forall|f: Seq<u64>| #[trigger] after.ctx.history.contains_key(f) implies objects_wf(
        after.ctx.history[f],
        after.ctx.next_id,
        after.ctx.layouts,
        after.ctx.classes,
    ) by {
        lemma_objects_wf_kept(
            w.ctx.history[f],
            w.ctx.next_id,
            w.ctx.layouts,
            w.ctx.classes,
            after.ctx.next_id,
            after.ctx.layouts,
            after.ctx.classes,
        );
    }
}

/// One bump. Where `c` is a counter whose count is `n`, and the count plus
/// one and two more objects are within the machine's limits, a send of
/// `bump` to `c`, run to a depth of at least 1, gives `c`, and `c` is
/// then a counter whose count is `n + 1`.
pub proof fn law_bump(w: World, number_class: usize, c: ORefView, n: int, fuel: nat)
    requires
        is_counter(w, number_class, c, n),
        n + 1 <= isize::MAX,
        w.ctx.next_id + 2 < u64::MAX,
        fuel >= 1,
    ensures
        send_spec(w, number_class, c, "bump"@, None, fuel).1 == Ok::<ORefView, Seq<char>>(c),
        is_counter(send_spec(w, number_class, c, "bump"@, None, fuel).0, number_class, c, n + 1),
        send_spec(w, number_class, c, "bump"@, None, fuel).0.ctx.next_id == w.ctx.next_id + 2,
        w.ctx.precedes(send_spec(w, number_class, c, "bump"@, None, fuel).0.ctx),
{
    reveal_strlit("self");
    reveal_strlit("it");
    reveal_strlit("count");
    reveal_strlit("+");
    reveal_strlit("bump");
    reveal_strlit("1");
    let nc = number_class;
    let f = (fuel - 1) as nat;
    let ctx = w.ctx;
    let obj = ctx.objects[c.id];
    let v = obj.slot(ctx.layouts, "count"@)->0;
    let none: Option<ORefView> = None;

    // The receiver and the count that it holds.
    assert(ctx.deref(c) == Some(obj));
    assert(ctx.plan(c, "count"@, none) == Plan::Read(v));
    assert(eval_spec(w, nc, me_expr(), c, none, f) == (w, Ok::<ORefView, Seq<char>>(c)));
    assert(send_spec(w, nc, c, "count"@, none, f) == (w, Ok::<ORefView, Seq<char>>(v)));
    assert(eval_spec(w, nc, read_expr(), c, none, f) == (w, Ok::<ORefView, Seq<char>>(v)));

    // The number 1.
    assert(scan_integer("1"@, 0, 0) == Ok::<int, crate::lexer::IntFault>(1)) by {
        reveal_with_fuel(scan_integer, 3);
    }
    lemma_number_made(w, nc, 1, "1"@);
    let (w1, one_r) = number_made(w, nc, 1, "1"@);
    let one = one_r->Ok_0;
    assert(eval_spec(w, nc, Expr::Number("1"@), c, none, f) == (w1, Ok::<ORefView, Seq<char>>(one)));

    // The sum.
    let vobj = w1.ctx.objects[v.id];
    assert(w1.ctx.deref(v) == Some(vobj));
    assert(vobj.wf(w1.ctx.layouts));
    assert(vobj.names(w1.ctx.layouts).len() == 0);
    assert(slot_index(vobj.names(w1.ctx.layouts), "+"@) is None);
    assert(w1.ctx.plan(v, "+"@, Some(one)) == Plan::Miss);
    lemma_number_made(w1, nc, (n + 1) as isize, "+"@);
    let (w2, s_r) = number_made(w1, nc, (n + 1) as isize, "+"@);
    let s = s_r->Ok_0;
    assert(added(w1, nc, v, "+"@, Some(one)) == (w2, Ok::<ORefView, Seq<char>>(s)));
    assert(send_spec(w1, nc, v, "+"@, Some(one), f) == (w2, Ok::<ORefView, Seq<char>>(s)));
    assert(eval_spec(w, nc, sum_expr(), c, none, f) == (w2, Ok::<ORefView, Seq<char>>(s)));

    // The store.
    assert(w2.ctx.objects[c.id] == obj);
    assert(w2.ctx.deref(c) == Some(obj));
    assert(w2.ctx.plan(c, "count"@, Some(s)) is Write);
    let w3 = World { ctx: w2.ctx.with_slot(c.id, "count"@, s), ..w2 };
    assert(send_spec(w2, nc, c, "count"@, Some(s), f) == (w3, Ok::<ORefView, Seq<char>>(c)));
    assert(eval_spec(w, nc, bump_body(), c, none, f) == (w3, Ok::<ORefView, Seq<char>>(c)));
    assert(ctx.plan(c, "bump"@, none) is Invoke);
    assert(send_spec(w, nc, c, "bump"@, none, fuel) == (w3, Ok::<ORefView, Seq<char>>(c)));

    // The counter afterwards.
    law_store_reads(w2.ctx, c, "count"@, s);
    lemma_with_slot(obj, w2.ctx.layouts, "count"@, s);
    assert(w3.ctx.objects[s.id] == w2.ctx.objects[s.id]);
    assert(is_number(w3, nc, s, n + 1));
    assert(w3.ctx.objects[c.id].slot(w3.ctx.layouts, "count"@) == Some(s));
    assert(w3.ctx.objects[c.id].names(w3.ctx.layouts) == obj.names(ctx.layouts));
}

/// The counter after `k` bumps. Where `c` is a counter whose count is `n`,
/// and the count plus `k` and twice `k` more objects are within the
/// machine's limits, then after `k` sends of `bump` to `c` it is a counter
/// whose count is `n + k`, and each of the sends gave `c`.
pub proof fn law_bumps(w: World, number_class: usize, c: ORefView, n: int, fuel: nat, k: nat)
    requires
        is_counter(w, number_class, c, n),
        n + k <= isize::MAX,
        w.ctx.next_id + 2 * k < u64::MAX,
        fuel >= 1,
    ensures
        is_counter(bumped(w, number_class, c, fuel, k), number_class, c, n + k),
        bumped(w, number_class, c, fuel, k).ctx.next_id == w.ctx.next_id + 2 * k,
        forall|j: nat|
            j < k ==> (#[trigger] send_spec(
                bumped(w, number_class, c, fuel, j),
                number_class,
                c,
                "bump"@,
                None,
                fuel,
            )).1 == Ok::<ORefView, Seq<char>>(c),
    decreases k,
{
    if k > 0 {
        let before = (k - 1) as nat;
        law_bumps(w, number_class, c, n, fuel, before);
        law_bump(bumped(w, number_class, c, fuel, before), number_class, c, n + before, fuel);
    }
}

} // verus!
