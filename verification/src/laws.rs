//! Laws relating the store's operations, each proved from the views that
//! the operations' own contracts are stated over: a state `s1` that arose
//! from `s0` by a call is characterized exactly by that call's effect on the
//! view, so each law speaks of such chains of states.

use vstd::prelude::*;

use crate::array::XArray;

verus! {

/// Round trip: storing a value at an index and then reading that index back
/// observes exactly the value stored.
pub proof fn lemma_round_trip<T>(s0: XArray<T>, s1: XArray<T>, i: int, v: T)
    requires
        s1@ == s0@.insert(i, Some(v)),
    ensures
        s1.stored(i) == Some(v),
{
}

/// Overwrite: after a value `v1` is stored at an index, replacing it with
/// `v2` returns `v1` as the prior value, and a later read observes `v2`.
pub proof fn lemma_overwrite<T>(s0: XArray<T>, s1: XArray<T>, s2: XArray<T>, i: int, v1: T, v2: T)
    requires
        s1@ == s0@.insert(i, Some(v1)),
        s2@ == s1@.insert(i, Some(v2)),
    ensures
        s1.stored(i) == Some(v1),
        s2.stored(i) == Some(v2),
{
}

/// Removal: after a value is stored at an index, removing that index
/// returns the value, and a later read observes nothing there.
pub proof fn lemma_removal<T>(s0: XArray<T>, s1: XArray<T>, s2: XArray<T>, i: int, v: T)
    requires
        s1@ == s0@.insert(i, Some(v)),
        s2@ == s1@.remove(i),
    ensures
        s1.stored(i) == Some(v),
        s2.stored(i) is None,
        !s2@.dom().contains(i),
{
}

/// Allocation uniqueness: while a reservation is unresolved its index stays
/// occupied, and every index an allocation hands out was free beforehand,
/// so a second allocation can never return the index of a pending
/// reservation.
pub proof fn lemma_allocation_unique<T>(s0: XArray<T>, s1: XArray<T>, reserved: int, fresh: int)
    requires
        s1@ == s0@.insert(reserved, None::<T>),
        !s1@.dom().contains(fresh),
    ensures
        reserved != fresh,
{
}

/// Reservation discard: reserving an index and then discarding the
/// reservation without storing leaves that index absent, and a read of it
/// observes nothing.
pub proof fn lemma_reservation_discard<T>(s0: XArray<T>, s1: XArray<T>, s2: XArray<T>, i: int)
    requires
        s1@ == s0@.insert(i, None::<T>),
        s2@ == s1@.remove(i),
    ensures
        !s2@.dom().contains(i),
        s2.stored(i) is None,
{
}

/// Reservation fulfillment: a reserved index reads as empty, and once the
/// reservation is resolved by storing a value, a read of that index
/// observes exactly that value.
pub proof fn lemma_reservation_fulfillment<T>(
    s0: XArray<T>,
    s1: XArray<T>,
    s2: XArray<T>,
    i: int,
    v: T,
)
    requires
        s1@ == s0@.insert(i, None::<T>),
        s2@ == s1@.insert(i, Some(v)),
    ensures
        s1.stored(i) is None,
        s2.stored(i) == Some(v),
{
}

} // verus!
