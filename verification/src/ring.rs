//! Oldest-drop bounded ring: the buffer between ingestion and dispatch.
//!
//! When the ring is full, a push discards the oldest item to make room, so the
//! ring always holds the most recent items.
use vstd::prelude::*;

verus! {

/// The ring's contents after pushing `item` into `items` with capacity `cap`,
/// and whether the push reported a drop (the ring held `cap` or more items).
pub open spec fn ring_push<T>(items: Seq<T>, cap: nat, item: T) -> (Seq<T>, bool) {
    if items.len() >= cap {
        (items.skip(if items.len() > 0 { 1 } else { 0 }).push(item), true)
    } else {
        (items.push(item), false)
    }
}

/// The contents after pushing each of `xs` in order, starting from `items`.
pub open spec fn ring_push_all<T>(items: Seq<T>, cap: nat, xs: Seq<T>) -> Seq<T>
    decreases xs.len(),
{
    if xs.len() == 0 {
        items
    } else {
        ring_push(ring_push_all(items, cap, xs.drop_last()), cap, xs.last()).0
    }
}

/// Number of pushes among `xs` that report a drop, starting from `items`.
pub open spec fn ring_drops<T>(items: Seq<T>, cap: nat, xs: Seq<T>) -> nat
    decreases xs.len(),
{
    if xs.len() == 0 {
        0
    } else {
        ring_drops(items, cap, xs.drop_last()) + if ring_push(ring_push_all(items, cap, xs.drop_last()), cap, xs.last()).1 {
            1nat
        } else {
            0nat
        }
    }
}

/// A ring of positive capacity never holds more than its capacity.
pub proof fn law_ring_bounded<T>(items: Seq<T>, cap: nat, item: T)
    requires
        cap > 0,
        items.len() <= cap,
    ensures
        ring_push(items, cap, item).0.len() <= cap,
        ring_push(items, cap, item).1 <==> items.len() == cap,
{
}

/// Oldest-drop keeps the newest: pushing `xs` into an empty ring of capacity
/// `cap > 0` leaves exactly the last `min(cap, |xs|)` of them, in order, and
/// reports one drop for each item beyond the capacity.
pub proof fn law_ring_keeps_newest<T>(cap: nat, xs: Seq<T>)
    requires
        cap > 0,
    ensures
        ring_push_all(Seq::empty(), cap, xs) == xs.skip(if xs.len() > cap { xs.len() - cap } else { 0 }),
        ring_drops(Seq::empty(), cap, xs) == if xs.len() > cap { (xs.len() - cap) as nat } else { 0nat },
    decreases xs.len(),
{
    if xs.len() > 0 {
        let prev = xs.drop_last();
        law_ring_keeps_newest(cap, prev);
        let before = ring_push_all(Seq::<T>::empty(), cap, prev);
        if prev.len() >= cap {
            assert(before.skip(1).push(xs.last()) =~= xs.skip(xs.len() - cap));
        } else {
            assert(before.push(xs.last()) =~= xs.skip(0));
        }
    } else {
        assert(xs.skip(0) =~= xs);
    }
}

} // verus!
