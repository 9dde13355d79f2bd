//! The arena of managed allocations. Each slot stands for one header+data
//! block at a stable identity (its index); the byte accounting of the
//! collector is the sum, per generation, of the sizes of the live slots.
use vstd::prelude::*;

use crate::gc_box::{GCHeader, Generation};

verus! {

/// One managed allocation: its header, the byte size of its header+data
/// block, the identities of the objects it currently references (kept fresh
/// by allocation and by the write barrier), and whether it has been
/// reclaimed.
pub struct ObjectSlot {
    pub header: GCHeader,
    pub size: usize,
    pub edges: Vec<usize>,
    pub freed: bool,
}

/// A slot that has not been reclaimed and currently belongs to generation `g`.
pub open spec fn live_in_gen(o: ObjectSlot, g: Generation) -> bool {
    !o.freed && o.header.generation == g
}

/// A weighted sum over the slots of the arena.
pub open spec fn slots_sum(s: Seq<ObjectSlot>, w: spec_fn(ObjectSlot) -> nat) -> nat
    decreases s.len(),
{
    if s.len() == 0 {
        0
    } else {
        slots_sum(s.drop_last(), w) + w(s.last())
    }
}

/// Weight: the byte size of a slot live in `g`, else nothing.
pub open spec fn w_bytes(g: Generation) -> spec_fn(ObjectSlot) -> nat {
    |o: ObjectSlot| if live_in_gen(o, g) { o.size as nat } else { 0 }
}

/// Weight: one for a slot live in `g` and not yet marked, else nothing.
pub open spec fn w_unmarked(g: Generation) -> spec_fn(ObjectSlot) -> nat {
    |o: ObjectSlot| if live_in_gen(o, g) && !o.header.marked { 1 } else { 0 }
}

/// Weight: the byte size of a slot live in `g` and not marked, else nothing.
pub open spec fn w_unmarked_bytes(g: Generation) -> spec_fn(ObjectSlot) -> nat {
    |o: ObjectSlot| if live_in_gen(o, g) && !o.header.marked { o.size as nat } else { 0 }
}

/// The bytes currently occupied by generation `g`.
pub open spec fn gen_bytes(s: Seq<ObjectSlot>, g: Generation) -> nat {
    slots_sum(s, w_bytes(g))
}

pub proof fn lemma_slots_sum_push(s: Seq<ObjectSlot>, w: spec_fn(ObjectSlot) -> nat, o: ObjectSlot)
    ensures
        slots_sum(s.push(o), w) == slots_sum(s, w) + w(o),
{
    assert(s.push(o).drop_last() =~= s);
    assert(s.push(o).last() == o);
}

pub proof fn lemma_slots_sum_update(
    s: Seq<ObjectSlot>,
    w: spec_fn(ObjectSlot) -> nat,
    i: int,
    o: ObjectSlot,
)
    requires
        0 <= i < s.len(),
    ensures
        slots_sum(s.update(i, o), w) + w(s[i]) == slots_sum(s, w) + w(o),
    decreases s.len(),
{
    if i == s.len() - 1 {
        assert(s.update(i, o).drop_last() =~= s.drop_last());
        assert(s.update(i, o).last() == o);
    } else {
        assert(s.update(i, o).drop_last() =~= s.drop_last().update(i, o));
        assert(s.update(i, o).last() == s.last());
        lemma_slots_sum_update(s.drop_last(), w, i, o);
    }
}

/// When a transformation loses, slot for slot, exactly the weight that a
/// second measure assigns, the sums relate the same way.
pub proof fn lemma_slots_sum_pointwise(
    s: Seq<ObjectSlot>,
    t: Seq<ObjectSlot>,
    w1: spec_fn(ObjectSlot) -> nat,
    w2: spec_fn(ObjectSlot) -> nat,
)
    requires
        s.len() == t.len(),
        forall|i: int| 0 <= i < s.len() ==> w1(#[trigger] t[i]) + w2(#[trigger] s[i]) == w1(s[i]),
    ensures
        slots_sum(t, w1) + slots_sum(s, w2) == slots_sum(s, w1),
    decreases s.len(),
{
    if s.len() > 0 {
        lemma_slots_sum_pointwise(s.drop_last(), t.drop_last(), w1, w2);
        assert(s.last() == s[s.len() - 1]);
        assert(t.last() == t[s.len() - 1]);
    }
}

/// Each slot's weight is bounded by the whole sum.
pub proof fn lemma_slots_sum_bound(s: Seq<ObjectSlot>, w: spec_fn(ObjectSlot) -> nat, i: int)
    requires
        0 <= i < s.len(),
    ensures
        w(s[i]) <= slots_sum(s, w),
    decreases s.len(),
{
    if i == s.len() - 1 {
        assert(s.last() == s[i]);
    } else {
        lemma_slots_sum_bound(s.drop_last(), w, i);
        assert(s.drop_last()[i] == s[i]);
    }
}

/// Pushing keeps every element, and adds the pushed one.
pub proof fn lemma_push_contains(s: Seq<usize>, v: usize, x: usize)
    requires
        s.contains(x) || x == v,
    ensures
        s.push(v).contains(x),
{
    if s.contains(x) {
        let i = choose|i: int| 0 <= i < s.len() && s[i] == x;
        assert(s.push(v)[i] == x);
    } else {
        assert(s.push(v)[s.len() as int] == v);
    }
}

/// Dropping the last element loses at most that element.
pub proof fn lemma_drop_last_contains(s: Seq<usize>, x: usize)
    requires
        s.contains(x),
        s.len() > 0,
    ensures
        x == s.last() || s.drop_last().contains(x),
{
    let i = choose|i: int| 0 <= i < s.len() && s[i] == x;
    if i < s.len() - 1 {
        assert(s.drop_last()[i] == x);
    }
}

} // verus!
